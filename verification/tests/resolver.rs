use docktopus::{ComposeConfig, ComposeParser, Service};
use docktopus::error::DockerError;
use docktopus::ContainerStatus;

fn with_deps(deps: &[&str]) -> Service {
    let mut s = Service::new();
    if !deps.is_empty() {
        s.depends_on = Some(deps.iter().map(|d| d.to_string()).collect());
    }
    s
}

#[test]
fn test_resolve_order_respects_dependencies() {
    let mut config = ComposeConfig::new();
    config.services.push(("web".to_string(), with_deps(&["db", "cache"])));
    config.services.push(("db".to_string(), with_deps(&[])));
    config.services.push(("cache".to_string(), with_deps(&["db"])));

    let order = config.resolve_service_order().unwrap();
    assert_eq!(order.len(), 3);
    let pos = |name: &str| order.iter().position(|n| n == name).unwrap();
    assert!(pos("db") < pos("cache"));
    assert!(pos("db") < pos("web"));
    assert!(pos("cache") < pos("web"));
}

#[test]
fn test_resolve_order_cycle_detected() {
    let mut config = ComposeConfig::new();
    config.services.push(("a".to_string(), with_deps(&["b"])));
    config.services.push(("b".to_string(), with_deps(&["a"])));

    match config.resolve_service_order() {
        Err(DockerError::ValidationError(msg)) => {
            assert_eq!(msg, "Circular dependency detected");
        }
        _ => panic!("a dependency cycle must be rejected"),
    }
}

#[test]
fn test_resolve_order_unknown_dependency_is_leaf() {
    let mut config = ComposeConfig::new();
    config.services.push(("app".to_string(), with_deps(&["missing"])));
    let order = config.resolve_service_order().unwrap();
    assert_eq!(order, vec!["app".to_string()]);
}

#[test]
fn test_resolve_order_from_manifest() {
    let content = r#"version: "3"
services:
    prometheus:
        image: prom/prometheus
        depends_on:
            - reth
    reth:
        image: ghcr.io/paradigmxyz/reth:latest
    grafana:
        image: grafana/grafana
        depends_on:
            - prometheus
"#;
    let config = ComposeParser::new().parse(content).unwrap();
    let order = config.resolve_service_order().unwrap();
    let pos = |name: &str| order.iter().position(|n| n == name).unwrap();
    assert!(pos("reth") < pos("prometheus"));
    assert!(pos("prometheus") < pos("grafana"));
}

#[test]
fn test_container_status_words() {
    assert!(ContainerStatus::from_str("running").unwrap().is_active());
    assert!(!ContainerStatus::from_str("exited").unwrap().is_active());
    assert!(ContainerStatus::from_str("paused").unwrap().is_usable());
    assert!(!ContainerStatus::from_str("dead").unwrap().is_usable());
    assert!(!ContainerStatus::from_str("removing").unwrap().is_usable());
    match ContainerStatus::from_str("zombie") {
        Err(DockerError::ValidationError(msg)) => {
            assert_eq!(msg, "Found an invalid status for the container: `zombie`");
        }
        _ => panic!("an unknown status word must be rejected"),
    }
}

#[test]
fn test_required_env_validation() {
    let content = r#"version: "3"
services:
    app:
        environment:
            PORT: "8080"
"#;
    let config = ComposeParser::new().parse(content).unwrap();
    assert!(config.validate_required_env_vars(&vec!["PORT".to_string()]).is_ok());
    match config.validate_required_env_vars(&vec!["TOKEN".to_string()]) {
        Err(DockerError::ValidationError(msg)) => {
            assert_eq!(
                msg,
                "Service 'app' is missing required environment variable: TOKEN"
            );
        }
        _ => panic!("a missing variable must be reported"),
    }
}
