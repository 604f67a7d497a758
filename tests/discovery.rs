use cloudmap_sd::discovery::{
    extract_address, group_for_service, retained_namespaces, service_addresses, Attributes, Config, Discovery,
    InstanceRecord, Summary,
};

fn create_test_discovery() -> Discovery {
    let config = Config {
        region: Some("us-west-2".to_string()),
        namespace: None,
    };

    let aws_config = aws_config::SdkConfig::builder()
        .behavior_version(aws_config::BehaviorVersion::latest())
        .region(aws_config::Region::new("us-west-2"))
        .build();
    let client = aws_sdk_servicediscovery::Client::new(&aws_config);
    Discovery::new(client, config)
}

fn attrs(pairs: &[(&str, &str)]) -> Option<Attributes> {
    let mut table = Attributes::new();
    for (k, v) in pairs {
        table.insert(k.to_string(), v.to_string());
    }
    Some(table)
}

fn instance(pairs: &[(&str, &str)]) -> InstanceRecord {
    InstanceRecord { id: Some("i".to_string()), attributes: attrs(pairs) }
}

fn summary(id: &str, name: Option<&str>) -> Summary {
    Summary { id: Some(id.to_string()), name: name.map(|n| n.to_string()) }
}

#[test]
fn test_create_prometheus_target() {
    let discovery = create_test_discovery();

    let target = discovery.create_prometheus_target(
        "test-namespace",
        "test-service",
        vec!["192.168.1.1".to_string(), "192.168.1.2".to_string()],
    );

    assert_eq!(target.targets, vec!["192.168.1.1", "192.168.1.2"]);
    assert_eq!(
        target.labels.get("__meta_cloudmap_namespace_name"),
        Some(&"test-namespace".to_string())
    );
    assert_eq!(
        target.labels.get("__meta_cloudmap_service_name"),
        Some(&"test-service".to_string())
    );
}

#[test]
fn test_create_prometheus_target_with_empty_ips() {
    let discovery = create_test_discovery();

    let target = discovery.create_prometheus_target("test-namespace", "test-service", vec![]);

    assert!(target.targets.is_empty());
    assert_eq!(
        target.labels.get("__meta_cloudmap_namespace_name"),
        Some(&"test-namespace".to_string())
    );
    assert_eq!(
        target.labels.get("__meta_cloudmap_service_name"),
        Some(&"test-service".to_string())
    );
}

#[test]
fn test_create_prometheus_target_with_port() {
    let discovery = create_test_discovery();

    let target = discovery.create_prometheus_target(
        "ns1",
        "svc1",
        vec!["192.168.0.1:8080".to_string()],
    );

    assert_eq!(target.targets, vec!["192.168.0.1:8080"]);
    assert_eq!(
        target.labels.get("__meta_cloudmap_namespace_name"),
        Some(&"ns1".to_string())
    );
    assert_eq!(
        target.labels.get("__meta_cloudmap_service_name"),
        Some(&"svc1".to_string())
    );
}

#[test]
fn test_config_creation() {
    let config = Config {
        region: Some("us-east-1".to_string()),
        namespace: Some("production".to_string()),
    };

    assert_eq!(config.region, Some("us-east-1".to_string()));
    assert_eq!(config.namespace, Some("production".to_string()));
}

#[test]
fn test_config_with_none_values() {
    let config = Config {
        region: None,
        namespace: None,
    };

    assert_eq!(config.region, None);
    assert_eq!(config.namespace, None);
}

#[test]
fn discovery_test_config_clone() {
    let config = Config {
        region: Some("us-west-2".to_string()),
        namespace: Some("test".to_string()),
    };

    let cloned_config = config.clone();
    assert_eq!(config.region, cloned_config.region);
    assert_eq!(config.namespace, cloned_config.namespace);
}

#[test]
fn test_prometheus_target_with_multiple_labels() {
    let discovery = create_test_discovery();

    let target = discovery.create_prometheus_target(
        "production-namespace",
        "web-service",
        vec!["10.0.1.1".to_string(), "10.0.1.2".to_string(), "10.0.1.3".to_string()],
    );

    assert_eq!(target.targets.len(), 3);
    assert!(target.targets.contains(&"10.0.1.1".to_string()));
    assert!(target.targets.contains(&"10.0.1.2".to_string()));
    assert!(target.targets.contains(&"10.0.1.3".to_string()));

    assert_eq!(target.labels.len(), 2);
    assert_eq!(
        target.labels.get("__meta_cloudmap_namespace_name"),
        Some(&"production-namespace".to_string())
    );
    assert_eq!(
        target.labels.get("__meta_cloudmap_service_name"),
        Some(&"web-service".to_string())
    );
}

#[test]
fn priority_extraction_takes_first_known_key() {
    let found = extract_address(&attrs(&[("ip", "9.9.9.9"), ("IPv4", "1.2.3.4")]));
    assert_eq!(found, Some("1.2.3.4".to_string()));
    let found = extract_address(&attrs(&[("address", "a"), ("ip", "b"), ("AWS_INSTANCE_IPV4", "c")]));
    assert_eq!(found, Some("c".to_string()));
    let found = extract_address(&attrs(&[("other", "x"), ("address", "host-a")]));
    assert_eq!(found, Some("host-a".to_string()));
}

#[test]
fn extraction_without_known_keys_gives_nothing() {
    assert_eq!(extract_address(&None), None);
    assert_eq!(extract_address(&attrs(&[])), None);
    assert_eq!(extract_address(&attrs(&[("IPV4", "1.1.1.1"), ("Ip", "2.2.2.2")])), None);
}

#[test]
fn port_qualified_address_passes_verbatim() {
    let found = extract_address(&attrs(&[("AWS_INSTANCE_IPV4", "10.0.0.5:9090")]));
    assert_eq!(found, Some("10.0.0.5:9090".to_string()));
}

#[test]
fn service_addresses_keep_order_and_duplicates() {
    let instances = vec![
        instance(&[("ip", "10.0.0.2")]),
        instance(&[("nothing", "x")]),
        InstanceRecord { id: None, attributes: None },
        instance(&[("ip", "10.0.0.1")]),
        instance(&[("ip", "10.0.0.2")]),
    ];
    assert_eq!(service_addresses(&instances), vec!["10.0.0.2", "10.0.0.1", "10.0.0.2"]);
}

#[test]
fn service_without_addresses_has_no_group() {
    let instances = vec![instance(&[("name", "x")]), InstanceRecord { id: None, attributes: None }];
    assert!(group_for_service(&"prod".to_string(), &"db".to_string(), &instances).is_none());
    let group = group_for_service(&"prod".to_string(), &"web".to_string(), &vec![instance(&[("ip", "1.1.1.1")])])
        .unwrap();
    assert_eq!(group.targets, vec!["1.1.1.1"]);
    assert_eq!(group.labels.len(), 2);
    assert_eq!(group.labels.get("__meta_cloudmap_service_name"), Some(&"web".to_string()));
}

#[test]
fn filter_keeps_exact_name_only() {
    let list = vec![
        summary("ns-1", Some("prod")),
        summary("ns-2", Some("staging")),
        summary("ns-3", Some("prod-eu")),
        summary("ns-4", None),
    ];
    let kept = retained_namespaces(&list, &Some("prod".to_string()));
    assert_eq!(kept.len(), 1);
    assert_eq!(kept[0].id, "ns-1");
    assert_eq!(kept[0].name, "prod");
}

#[test]
fn no_filter_keeps_every_namespace() {
    let list = vec![
        summary("ns-1", Some("prod")),
        summary("ns-2", None),
        Summary { id: None, name: Some("dev".to_string()) },
    ];
    let kept = retained_namespaces(&list, &None);
    let pairs: Vec<(String, String)> = kept.into_iter().map(|n| (n.id, n.name)).collect();
    assert_eq!(
        pairs,
        vec![
            ("ns-1".to_string(), "prod".to_string()),
            ("ns-2".to_string(), "unknown".to_string()),
            ("".to_string(), "dev".to_string()),
        ]
    );
}
