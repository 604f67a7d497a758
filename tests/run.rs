use cloudmap_sd::discovery::{Attributes, InstanceRecord, PrometheusTarget, Summary};
use cloudmap_sd::handlers::CloudMapError;
use cloudmap_sd::run::{Action, DiscoveryRun, Response};

/// A canned registry: namespaces, the services of each namespace id, the
/// instances of each service id, and the service whose listing fails.
struct Registry {
    namespaces: Vec<(&'static str, Option<&'static str>)>,
    services: Vec<(&'static str, Vec<(&'static str, Option<&'static str>)>)>,
    instances: Vec<(&'static str, Vec<Vec<(&'static str, &'static str)>>)>,
    failing_service: Option<&'static str>,
}

fn summaries(list: &[(&str, Option<&str>)]) -> Vec<Summary> {
    list.iter()
        .map(|(id, name)| Summary { id: Some(id.to_string()), name: name.map(|n| n.to_string()) })
        .collect()
}

fn answer(registry: &Registry, action: &Action) -> Response {
    match action {
        Action::ListNamespaces => Response::Namespaces(summaries(&registry.namespaces)),
        Action::ListServices(ns) => {
            let found = registry.services.iter().find(|(id, _)| id == ns);
            Response::Services(found.map(|(_, s)| summaries(s)).unwrap_or_default())
        }
        Action::ListInstances(svc) => {
            if registry.failing_service == Some(svc.as_str()) {
                return Response::Failed;
            }
            let found = registry.instances.iter().find(|(id, _)| id == svc);
            let list = found.map(|(_, l)| l.clone()).unwrap_or_default();
            Response::Instances(
                list.into_iter()
                    .map(|pairs| InstanceRecord {
                        id: Some("i".to_string()),
                        attributes: Some({
                            let mut table = Attributes::new();
                            for (k, v) in pairs {
                                table.insert(k.to_string(), v.to_string());
                            }
                            table
                        }),
                    })
                    .collect(),
            )
        }
        Action::Finish(_) => unreachable!(),
    }
}

/// Runs a discovery against the registry; returns its result and the calls made.
fn drive(filter: Option<&str>, registry: &Registry) -> (Result<Vec<PrometheusTarget>, CloudMapError>, Vec<String>) {
    let (mut run, mut action) = DiscoveryRun::start(filter.map(|f| f.to_string()));
    let mut calls = Vec::new();
    loop {
        match &action {
            Action::ListNamespaces => calls.push("namespaces".to_string()),
            Action::ListServices(id) => calls.push(format!("services:{}", id)),
            Action::ListInstances(id) => calls.push(format!("instances:{}", id)),
            Action::Finish(_) => break,
        }
        let response = answer(registry, &action);
        let (next_run, next_action) = run.advance(response);
        run = next_run;
        action = next_action;
    }
    match action {
        Action::Finish(result) => (result, calls),
        _ => unreachable!(),
    }
}

fn two_namespaces() -> Registry {
    Registry {
        namespaces: vec![("ns-prod", Some("prod")), ("ns-staging", Some("staging"))],
        services: vec![
            ("ns-prod", vec![("svc-web", Some("web")), ("svc-db", Some("db"))]),
            ("ns-staging", vec![("svc-api", Some("api"))]),
        ],
        instances: vec![
            ("svc-web", vec![vec![("IPv4", "10.0.1.1")], vec![("ip", "10.0.1.2")]]),
            ("svc-db", vec![vec![("port", "5432")]]),
            ("svc-api", vec![vec![("AWS_INSTANCE_IPV4", "10.1.0.1")]]),
        ],
        failing_service: None,
    }
}

fn group(g: &PrometheusTarget) -> (Vec<String>, String, String, usize) {
    (
        g.targets.clone(),
        g.labels.get("__meta_cloudmap_namespace_name").unwrap().clone(),
        g.labels.get("__meta_cloudmap_service_name").unwrap().clone(),
        g.labels.len(),
    )
}

#[test]
fn filter_never_queries_other_namespaces() {
    let (result, calls) = drive(Some("prod"), &two_namespaces());
    assert_eq!(calls, vec!["namespaces", "services:ns-prod", "instances:svc-web", "instances:svc-db"]);
    let groups = result.unwrap();
    assert_eq!(groups.len(), 1);
    assert_eq!(
        group(&groups[0]),
        (vec!["10.0.1.1".to_string(), "10.0.1.2".to_string()], "prod".to_string(), "web".to_string(), 2)
    );
}

#[test]
fn no_filter_processes_every_namespace_in_order() {
    let (result, calls) = drive(None, &two_namespaces());
    assert_eq!(
        calls,
        vec![
            "namespaces",
            "services:ns-prod",
            "instances:svc-web",
            "instances:svc-db",
            "services:ns-staging",
            "instances:svc-api",
        ]
    );
    let groups: Vec<_> = result.unwrap().iter().map(group).collect();
    assert_eq!(
        groups,
        vec![
            (vec!["10.0.1.1".to_string(), "10.0.1.2".to_string()], "prod".to_string(), "web".to_string(), 2),
            (vec!["10.1.0.1".to_string()], "staging".to_string(), "api".to_string(), 2),
        ]
    );
}

#[test]
fn service_without_addresses_is_omitted_beside_siblings() {
    let (result, _) = drive(Some("prod"), &two_namespaces());
    let groups = result.unwrap();
    assert!(groups.iter().all(|g| g.labels.get("__meta_cloudmap_service_name") != Some(&"db".to_string())));
    assert_eq!(groups[0].labels.get("__meta_cloudmap_service_name"), Some(&"web".to_string()));
}

#[test]
fn failure_on_second_of_three_services_returns_no_groups() {
    let registry = Registry {
        namespaces: vec![("ns", Some("prod"))],
        services: vec![("ns", vec![("s1", Some("one")), ("s2", Some("two")), ("s3", Some("three"))])],
        instances: vec![
            ("s1", vec![vec![("ip", "1.1.1.1")]]),
            ("s3", vec![vec![("ip", "3.3.3.3")]]),
        ],
        failing_service: Some("s2"),
    };
    let (result, calls) = drive(None, &registry);
    assert_eq!(result.unwrap_err(), CloudMapError);
    assert_eq!(calls, vec!["namespaces", "services:ns", "instances:s1", "instances:s2"]);
}

#[test]
fn port_qualified_address_is_emitted_verbatim() {
    let registry = Registry {
        namespaces: vec![("ns", Some("prod"))],
        services: vec![("ns", vec![("s1", Some("metrics"))])],
        instances: vec![("s1", vec![vec![("address", "10.0.0.5:9090")]])],
        failing_service: None,
    };
    let (result, _) = drive(None, &registry);
    let groups = result.unwrap();
    assert_eq!(groups[0].targets, vec!["10.0.0.5:9090"]);
}

#[test]
fn empty_registry_gives_empty_result() {
    let registry = Registry { namespaces: vec![], services: vec![], instances: vec![], failing_service: None };
    let (result, calls) = drive(None, &registry);
    assert!(result.unwrap().is_empty());
    assert_eq!(calls, vec!["namespaces"]);
}

#[test]
fn unnamed_entries_are_labelled_unknown() {
    let registry = Registry {
        namespaces: vec![("ns", None)],
        services: vec![("ns", vec![("s1", None)])],
        instances: vec![("s1", vec![vec![("ip", "1.2.3.4")]])],
        failing_service: None,
    };
    let (result, _) = drive(None, &registry);
    let groups: Vec<_> = result.unwrap().iter().map(group).collect();
    assert_eq!(groups, vec![(vec!["1.2.3.4".to_string()], "unknown".to_string(), "unknown".to_string(), 2)]);
}

#[test]
fn namespace_listing_failure_fails_the_run() {
    let (run, _) = DiscoveryRun::start(None);
    let (_, action) = run.advance(Response::Failed);
    assert!(matches!(action, Action::Finish(Err(CloudMapError))));
}

#[test]
fn unexpected_answer_fails_the_run() {
    let (run, _) = DiscoveryRun::start(None);
    let (_, action) = run.advance(Response::Instances(vec![]));
    assert!(matches!(action, Action::Finish(Err(CloudMapError))));
}

#[test]
fn filter_matching_nothing_queries_no_services() {
    let (result, calls) = drive(Some("production"), &two_namespaces());
    assert!(result.unwrap().is_empty());
    assert_eq!(calls, vec!["namespaces"]);
}
