use cloudmap_sd::config::{parse_decimal, split_on_dots, Config};

fn config_with_host(host: &str, port: u16) -> Config {
    Config {
        host: host.to_string(),
        port,
        aws_region: None,
        cloudmap_namespace: None,
    }
}

#[test]
fn test_default_config() {
    let config = Config::default();

    assert_eq!(config.host, "0.0.0.0");
    assert_eq!(config.port, 3030);
    assert_eq!(config.aws_region, None);
    assert_eq!(config.cloudmap_namespace, None);
}

#[test]
fn test_parse_host_valid_ip() {
    let config = config_with_host("192.168.1.1", 8080);
    let result = config.parse_host().unwrap();
    assert_eq!(result, [192, 168, 1, 1]);
}

#[test]
fn test_parse_host_localhost() {
    let config = config_with_host("127.0.0.1", 3000);
    let result = config.parse_host().unwrap();
    assert_eq!(result, [127, 0, 0, 1]);
}

#[test]
fn test_parse_host_all_interfaces() {
    let config = config_with_host("0.0.0.0", 3030);
    let result = config.parse_host().unwrap();
    assert_eq!(result, [0, 0, 0, 0]);
}

#[test]
fn test_parse_host_invalid_format() {
    // Missing fourth octet
    let config = config_with_host("192.168.1", 3030);
    let result = config.parse_host();
    assert!(result.is_err());
    assert!(result.unwrap_err().contains("Invalid IP format"));
}

#[test]
fn test_parse_host_invalid_number() {
    // 256 is out of range for an octet
    let config = config_with_host("192.168.1.256", 3030);
    let result = config.parse_host();
    assert!(result.is_err());
    assert!(result.unwrap_err().contains("Invalid IP part"));
}

#[test]
fn test_parse_host_non_numeric() {
    let config = config_with_host("192.168.1.abc", 3030);
    let result = config.parse_host();
    assert!(result.is_err());
    assert!(result.unwrap_err().contains("Invalid IP part"));
}

#[test]
fn config_test_config_clone() {
    let config = Config {
        host: "10.0.0.1".to_string(),
        port: 8080,
        aws_region: Some("us-east-1".to_string()),
        cloudmap_namespace: Some("test-namespace".to_string()),
    };

    let cloned = config.clone();
    assert_eq!(config.host, cloned.host);
    assert_eq!(config.port, cloned.port);
    assert_eq!(config.aws_region, cloned.aws_region);
    assert_eq!(config.cloudmap_namespace, cloned.cloudmap_namespace);
}

#[test]
fn parse_host_error_messages_are_exact() {
    let too_few = config_with_host("192.168.1", 3030).parse_host().unwrap_err();
    assert_eq!(too_few, "Invalid IP format: expected 4 parts, got 3");
    let too_many = config_with_host("1.2.3.4.5.6.7.8.9.10.11", 3030).parse_host().unwrap_err();
    assert_eq!(too_many, "Invalid IP format: expected 4 parts, got 11");
    let bad = config_with_host("192.168.1.abc", 3030).parse_host().unwrap_err();
    assert_eq!(bad, "Invalid IP part: 'abc' is not a valid number");
}

#[test]
fn parse_host_reports_first_bad_part() {
    let err = config_with_host("x.300.1.1", 3030).parse_host().unwrap_err();
    assert_eq!(err, "Invalid IP part: 'x' is not a valid number");
    let err = config_with_host("1..1.1", 3030).parse_host().unwrap_err();
    assert_eq!(err, "Invalid IP part: '' is not a valid number");
}

#[test]
fn parse_host_edge_values() {
    assert_eq!(config_with_host("255.255.255.255", 1).parse_host().unwrap(), [255, 255, 255, 255]);
    assert_eq!(config_with_host("+1.007.0.9", 1).parse_host().unwrap(), [1, 7, 0, 9]);
    assert!(config_with_host("", 1).parse_host().unwrap_err().contains("got 1"));
    assert!(config_with_host("-1.0.0.0", 1).parse_host().is_err());
}

#[test]
fn decimal_parsing_follows_std() {
    for text in ["0", "7", "+42", "255", "0255", "256", "+", "", "-0", "12a", "65535", "65536", "99999999999999999999"] {
        assert_eq!(parse_decimal(text, 255), text.parse::<u8>().ok().map(u32::from), "{}", text);
        assert_eq!(parse_decimal(text, 65535), text.parse::<u16>().ok().map(u32::from), "{}", text);
    }
}

#[test]
fn split_matches_std() {
    for text in ["", ".", "a", "a.b", "a..b.", ".x.y", "192.168.1.1"] {
        let ours: Vec<&str> = split_on_dots(text);
        let std_parts: Vec<&str> = text.split('.').collect();
        assert_eq!(ours, std_parts);
    }
}

#[test]
fn environment_overrides_file_values() {
    let base = Config {
        host: "10.0.0.1".to_string(),
        port: 8080,
        aws_region: Some("us-east-1".to_string()),
        cloudmap_namespace: None,
    };
    let config = base.with_environment(
        Some("127.0.0.1".to_string()),
        Some("9090".to_string()),
        Some("eu-west-1".to_string()),
        Some("production".to_string()),
    );
    assert_eq!(config.host, "127.0.0.1");
    assert_eq!(config.port, 9090);
    assert_eq!(config.aws_region, Some("eu-west-1".to_string()));
    assert_eq!(config.cloudmap_namespace, Some("production".to_string()));
}

#[test]
fn environment_absent_or_invalid_keeps_values() {
    let config = Config::default().with_environment(None, Some("70000".to_string()), None, None);
    assert_eq!(config.host, "0.0.0.0");
    assert_eq!(config.port, 3030);
    assert_eq!(config.aws_region, None);
    assert_eq!(config.cloudmap_namespace, None);
}
