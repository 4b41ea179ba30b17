use docktopus::{ComposeConfig, ComposeParser, EnvironmentVars, Service, Volume};
use docktopus::parser::env::substitute_env_vars;
use docktopus::config::resolve::resolve_env_value;
use docktopus::config::requirements::parse_memory_string;
use docktopus::error::DockerError;

fn service_of<'a>(config: &'a ComposeConfig, name: &str) -> &'a Service {
    config.get_service(name).expect("service should exist")
}

#[test]
fn test_compose_parsing() {
    let yaml = r#"
        version: "3.8"
        services:
          reth:
            image: ghcr.io/paradigmxyz/reth:latest
            ports:
              - "8545:8545"
              - "9000:9000"
            command: [
              "/reth/target/release/reth",
              "node",
              "--metrics",
              "reth:9000",
              "--debug.tip",
              "${RETH_TIP:-0x7d5a4369273c723454ac137f48a4f142b097aa2779464e6505f1b1c5e37b5382}",
              "--log.directory",
              "$HOME"
            ]
            volumes:
              - source: ./data
                target: /data
                type: bind
                read_only: false
    "#;

    let config = ComposeParser::new().parse(yaml).unwrap();
    let service = service_of(&config, "reth");

    assert!(service.command.is_some());
    let command = service.command.as_ref().unwrap();
    assert_eq!(command.len(), 8);
    assert_eq!(command[0], "/reth/target/release/reth");
    assert_eq!(command[1], "node");

    let volumes = service.volumes.as_ref().unwrap();
    assert_eq!(volumes.len(), 1);

    match &volumes[0] {
        Volume::Bind { source, target, read_only } => {
            assert_eq!(source, "./data");
            assert_eq!(target, "/data");
            assert!(!read_only);
        }
        _ => panic!("Expected bind mount"),
    }
}

#[test]
fn test_volume_validation() {
    let mut config = ComposeConfig {
        version: "3.8".to_string(),
        services: Vec::new(),
        volumes: Vec::new(),
    };

    let mut service = Service::new();
    service.volumes = Some(vec![
        Volume::Named("test-data:/data".to_string()),
        Volume::Bind {
            source: "/host".to_string(),
            target: "/container".to_string(),
            read_only: false,
        },
    ]);

    config.services.push(("test".to_string(), service));

    assert!(config.validate_required_volumes(&vec!["test-data".to_string()]).is_ok());
    assert!(config.validate_required_volumes(&vec!["/container".to_string()]).is_ok());
    assert!(config.validate_required_volumes(&vec!["missing".to_string()]).is_err());
    assert!(config.validate_required_volumes(&vec!["/missing".to_string()]).is_err());
}

#[test]
fn test_service_deployment() {
    let mut config = ComposeConfig::new();
    let mut service = Service::new();
    service.image = Some("nginx:latest".to_string());
    service.volumes = Some(vec![Volume::Bind {
        source: "/host/data".to_string(),
        target: "/container/data".to_string(),
        read_only: false,
    }]);

    config.services.push(("web".to_string(), service));
    assert!(config.get_service("web").is_some());
}

#[test]
fn test_full_compose_parsing() {
    let compose_content = r#"
        version: "3.8"
        services:
          web:
            image: nginx:${NGINX_VERSION:-latest}
            ports:
              - "${PORT:-80}:80"
        "#;

    let env_content = "NGINX_VERSION=1.21\nPORT=8080";

    let config = ComposeParser::new()
        .env_file_content(env_content)
        .parse(compose_content)
        .unwrap();

    let web_service = service_of(&config, "web");
    assert_eq!(web_service.image.as_deref().unwrap(), "nginx:1.21");
    assert_eq!(
        web_service.ports.as_ref().unwrap().first().unwrap(),
        "8080:80"
    );
}

#[test]
fn test_environment_variable_formats() {
    let content = r#"version: "3"
services:
    app1:
        environment:
            KEY1: value1
            KEY2: value2
    app2:
        environment:
            - KEY3=value3
            - KEY4=value4"#;

    let config = ComposeParser::new().parse(content).unwrap();

    let app1 = service_of(&config, "app1");
    if let Some(env) = &app1.environment {
        assert_eq!(env.get("KEY1").map(String::as_str), Some("value1"));
        assert_eq!(env.get("KEY2").map(String::as_str), Some("value2"));
    } else {
        panic!("app1 environment should be Some");
    }

    let app2 = service_of(&config, "app2");
    if let Some(env) = &app2.environment {
        assert_eq!(env.get("KEY3").map(String::as_str), Some("value3"));
        assert_eq!(env.get("KEY4").map(String::as_str), Some("value4"));
    } else {
        panic!("app2 environment should be Some");
    }
}

#[test]
fn test_environment_variable_edge_cases() {
    let content = r#"version: "3"
services:
    app1:
        environment:
            EMPTY: ""
            QUOTED: "quoted value"
            SPACES: "  value with spaces  "
    app2:
        environment:
            - EMPTY=
            - QUOTED="quoted value"
            - SPACES="  value with spaces  ""#;

    let config = ComposeParser::new().parse(content).unwrap();

    for service_name in ["app1", "app2"] {
        let service = service_of(&config, service_name);
        if let Some(env) = &service.environment {
            assert_eq!(env.get("EMPTY").map(String::as_str), Some(""));
            assert_eq!(env.get("QUOTED").map(String::as_str), Some("quoted value"));
            assert_eq!(
                env.get("SPACES").map(String::as_str),
                Some("  value with spaces  ")
            );
        } else {
            panic!("{} environment should be Some", service_name);
        }
    }
}

#[test]
fn test_memory_string_parsing() {
    assert_eq!(parse_memory_string("512M").unwrap(), 512 * 1024 * 1024);
    assert_eq!(parse_memory_string("1G").unwrap(), 1024 * 1024 * 1024);
    assert!(parse_memory_string("invalid").is_err());
}

#[test]
fn test_fractional_memory_rejected() {
    match parse_memory_string("12.5G") {
        Err(DockerError::InvalidResourceLimit(msg)) => {
            assert_eq!(msg, "Invalid memory value: 12.5G");
        }
        _ => panic!("a fractional magnitude must be rejected"),
    }
    match parse_memory_string("512X") {
        Err(DockerError::InvalidResourceLimit(msg)) => {
            assert_eq!(msg, "Invalid memory unit: X");
        }
        _ => panic!("an unknown unit must be rejected"),
    }
    assert_eq!(parse_memory_string("2k").unwrap(), 2048);
}

#[test]
fn test_version_default_substitution() {
    let content = r#"version: "3"
services:
    app:
        image: nginx:${VERSION:-latest}"#;

    let config = ComposeParser::new().parse(content).unwrap();
    assert_eq!(service_of(&config, "app").image.as_deref(), Some("nginx:latest"));

    let mut vars = EnvironmentVars::new();
    vars.insert("VERSION".to_string(), "1.21".to_string());
    let config = ComposeParser::new().env_vars(vars).parse(content).unwrap();
    assert_eq!(service_of(&config, "app").image.as_deref(), Some("nginx:1.21"));
}

#[test]
fn test_short_volume_forms() {
    let content = r#"version: "3"
services:
    app:
        volumes:
            - "./data:/data"
            - "cache:/var/cache:ro"
            - "/abs:/mnt:ro"
"#;
    let config = ComposeParser::new().parse(content).unwrap();
    let vols = service_of(&config, "app").volumes.as_ref().unwrap();
    assert!(matches!(
        &vols[0],
        Volume::Bind { source, target, read_only: false }
            if source == "./data" && target == "/data"
    ));
    assert!(matches!(&vols[1], Volume::Named(name) if name == "cache:/var/cache:ro"));
    assert!(matches!(
        &vols[2],
        Volume::Bind { source, target, read_only: true }
            if source == "/abs" && target == "/mnt"
    ));
    assert_eq!(
        vols[2].to_short_string().as_deref(),
        Some("/abs:/mnt:ro")
    );
}

#[test]
fn test_invalid_volume_type() {
    let content = r#"version: "3"
services:
    app:
        volumes:
            - source: ./d
              target: /d
              type: tmpfs
"#;
    match ComposeParser::new().parse(content) {
        Err(DockerError::YamlError(msg)) => {
            assert_eq!(msg, "Invalid volume type: tmpfs");
        }
        _ => panic!("an unknown volume type must be rejected"),
    }
}

#[test]
fn test_missing_required_variable() {
    let content = r#"version: "3"
services:
    app:
        environment:
            TOKEN: "${}"
"#;
    match ComposeParser::new().parse(content) {
        Err(DockerError::ValidationError(msg)) => {
            assert!(msg.contains("Missing required environment variables"));
            assert!(msg.contains("TOKEN"));
        }
        _ => panic!("a still-required variable must be reported"),
    }
}

#[test]
fn test_environment_variable_substitution() {
    let content = r#"version: "3"
services:
    app1:
        image: nginx:${VERSION:-latest}
        environment:
            PORT: "${PORT:-8080}"
            DEBUG: "${DEBUG:-false}""#;

    let mut env_vars = EnvironmentVars::new();
    env_vars.insert("VERSION".to_string(), "1.21".to_string());
    env_vars.insert("DEBUG".to_string(), "true".to_string());

    let processed = substitute_env_vars(content, &env_vars);
    let mut config = ComposeParser::new().parse(&processed).unwrap();
    config.resolve_env(&env_vars);

    let app1 = service_of(&config, "app1");
    assert_eq!(app1.image.as_deref(), Some("nginx:1.21"));
    if let Some(env) = &app1.environment {
        assert_eq!(env.get("PORT").map(String::as_str), Some("8080"));
        assert_eq!(env.get("DEBUG").map(String::as_str), Some("true"));
    } else {
        panic!("app1 environment should be Some");
    }
}

#[test]
fn test_resolve_env_volumes() {
    let mut config = ComposeConfig::new();
    let mut service = Service::new();
    service.volumes = Some(vec![Volume::Named("${DATA}:/data".to_string())]);
    config.services.push(("app".to_string(), service));

    let mut vars = EnvironmentVars::new();
    vars.insert("DATA".to_string(), "blocks".to_string());
    config.resolve_env(&vars);

    let vols = service_of(&config, "app").volumes.as_ref().unwrap();
    assert!(matches!(&vols[0], Volume::Named(name) if name == "blocks:/data"));
}

#[test]
fn test_collect_volumes_lifts_named() {
    let mut config = ComposeConfig::new();
    let mut service = Service::new();
    service.volumes = Some(vec![
        Volume::Named("data:/data".to_string()),
        Volume::Bind {
            source: "/host".to_string(),
            target: "/mnt".to_string(),
            read_only: false,
        },
    ]);
    config.services.push(("app".to_string(), service));

    config.collect_volumes();
    assert_eq!(config.volumes.len(), 1);
    assert_eq!(config.volumes[0].0, "data");
    assert!(matches!(&config.volumes[0].1, Volume::Named(name) if name == "data:/data"));

    config.collect_volumes();
    assert_eq!(config.volumes.len(), 1, "an entry already present is kept, not duplicated");
}

#[test]
fn test_missing_variable_message_lists_keys() {
    let content = r#"version: "3"
services:
    app:
        environment:
            TOKEN: "${}"
            OTHER: "${}"
"#;
    match ComposeParser::new().parse(content) {
        Err(DockerError::ValidationError(msg)) => {
            assert_eq!(
                msg,
                "Missing required environment variables: [\"TOKEN\", \"OTHER\"]"
            );
        }
        _ => panic!("still-required variables must be reported"),
    }
}

#[test]
fn test_fractional_command_rejected() {
    let content = r#"version: "3"
services:
    app:
        command: 1.5
"#;
    match ComposeParser::new().parse(content) {
        Err(DockerError::YamlError(msg)) => {
            assert_eq!(msg, "Invalid command format");
        }
        _ => panic!("a fractional command must be rejected"),
    }
}

#[test]
fn test_resolve_env_empty_value_uses_default() {
    let mut config = ComposeConfig::new();
    let mut service = Service::new();
    let mut env = EnvironmentVars::new();
    env.insert("TAG".to_string(), "${X:-d}".to_string());
    service.environment = Some(env);
    config.services.push(("app".to_string(), service));

    let mut vars = EnvironmentVars::new();
    vars.insert("X".to_string(), String::new());
    config.resolve_env(&vars);

    let env = service_of(&config, "app").environment.as_ref().unwrap();
    assert_eq!(env.get("TAG").map(String::as_str), Some("d"));

    assert_eq!(resolve_env_value("${X:-d}", &vars), "d");
    let empty = EnvironmentVars::new();
    assert_eq!(resolve_env_value("${X:-d}", &empty), "d");
    let mut set = EnvironmentVars::new();
    set.insert("X".to_string(), "v".to_string());
    assert_eq!(resolve_env_value("${X:-d}", &set), "v");
}

#[test]
fn test_is_well_formed_checks_unique_names() {
    let mut config = ComposeConfig::new();
    config.services.push(("app".to_string(), Service::new()));
    assert!(config.is_well_formed());
    config.services.push(("app".to_string(), Service::new()));
    assert!(!config.is_well_formed());
}
