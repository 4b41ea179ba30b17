use docktopus::EnvironmentVars;
use docktopus::parser::env::{parse_env_file, substitute_env_vars};

#[test]
fn test_basic_env_substitution() {
    let mut env_vars = EnvironmentVars::new();
    env_vars.insert("IMAGE_TAG__L2GETH".to_string(), "v1.0.0".to_string());
    env_vars.insert("SIMPLE_VAR".to_string(), "value".to_string());

    let content = r"
        services:
          l2geth:
            image: ethereumoptimism/l2geth:${IMAGE_TAG__L2GETH:-latest}
          other:
            image: something:${UNDEFINED_VAR:-default}
          simple:
            value: $SIMPLE_VAR
        ";

    let result = substitute_env_vars(content, &env_vars);

    assert!(result.contains("ethereumoptimism/l2geth:v1.0.0"));
    assert!(result.contains("something:default"));
    assert!(result.contains("value: value"));
}

#[test]
fn test_nested_env_substitution() {
    let mut env_vars = EnvironmentVars::new();
    env_vars.insert("PORT".to_string(), "8545".to_string());
    env_vars.insert("HOST".to_string(), "localhost".to_string());

    let content = r#"
        services:
          geth:
            ports:
              - "${PORT:-3000}:${PORT:-3000}"
            environment:
              - URL=http://${HOST:-127.0.0.1}:${PORT:-3000}
              - SIMPLE=$HOST:$PORT
        "#;

    let result = substitute_env_vars(content, &env_vars);

    assert!(result.contains("8545:8545"));
    assert!(result.contains("http://localhost:8545"));
    assert!(result.contains("SIMPLE=localhost:8545"));
}

#[test]
fn test_env_file_parsing() {
    let env_content = r#"
        # Comment line
        EMPTY=
        QUOTED="quoted value"
        UNQUOTED=unquoted value
        WITH_SPACES=  spaced value
        "#;

    let vars = parse_env_file(env_content);

    assert_eq!(vars.get("EMPTY").unwrap(), "");
    assert_eq!(vars.get("QUOTED").unwrap(), "quoted value");
    assert_eq!(vars.get("UNQUOTED").unwrap(), "unquoted value");
    assert_eq!(vars.get("WITH_SPACES").unwrap(), "spaced value");
}

#[test]
fn test_complex_substitutions() {
    let mut env_vars = EnvironmentVars::new();
    env_vars.insert("VERSION".to_string(), "1.0".to_string());
    env_vars.insert("MEMORY".to_string(), "1G".to_string());

    let content = r"
        services:
          app:
            image: myapp:${VERSION:-latest}
            deploy:
              requirements:
                limits:
                  memory: ${MEMORY:-512M}
                  cpus: ${CPUS:-1.0}
            environment:
              - CONFIG=${CONFIG_PATH:-/etc/config}
              - COMBINED=${VERSION:-0.0.1}-${MEMORY:-256M}
        ";

    let result = substitute_env_vars(content, &env_vars);

    assert!(result.contains("myapp:1.0"));
    assert!(result.contains("memory: 1G"));
    assert!(result.contains("cpus: 1.0"));
    assert!(result.contains("CONFIG=/etc/config"));
    assert!(result.contains("COMBINED=1.0-1G"));
}

#[test]
fn test_invalid_env_file() {
    let env_content = r"
        VALID_KEY=value
        INVALID+KEY=value
        123INVALID=value
        _VALID=value
        ALSO-INVALID=value
        ";
    let vars = parse_env_file(env_content);

    assert!(vars.contains_key("VALID_KEY"));
    assert!(vars.contains_key("_VALID"));
    assert!(!vars.contains_key("INVALID+KEY"));
    assert!(!vars.contains_key("123INVALID"));
    assert!(!vars.contains_key("ALSO-INVALID"));
    assert_eq!(vars.len(), 2);
}

#[test]
fn test_empty_and_missing_variables() {
    let mut env_vars = EnvironmentVars::new();
    env_vars.insert("EMPTY".to_string(), String::new());

    let content = r"
        services:
          app:
            image: test:${EMPTY:-default}
            command: ${MISSING}
            environment:
              - UNSET=${UNDEFINED:-}
              - WITH_DEFAULT=${UNDEFINED:-default_value}
        ";

    let result = substitute_env_vars(content, &env_vars);

    assert!(
        result.contains("test:default"),
        "Empty var should use default"
    );
    assert!(result.contains("command: "), "Missing var should be empty");
    assert!(
        result.contains("UNSET="),
        "Undefined with empty default should be empty"
    );
    assert!(
        result.contains("WITH_DEFAULT=default_value"),
        "Undefined should use default value"
    );
}

#[test]
fn test_empty_default_values() {
    let env_vars = EnvironmentVars::new();
    let content = r"
        TEST1=${VAR:-}
        TEST2=${OTHER_VAR:-default}
        ";

    let result = substitute_env_vars(content, &env_vars);
    assert!(result.contains("TEST1="));
    assert!(result.contains("TEST2=default"));
}

#[test]
fn test_substitution_default_rules() {
    let empty = EnvironmentVars::new();
    assert_eq!(substitute_env_vars("${X:-d}", &empty), "d");

    let mut with_empty = EnvironmentVars::new();
    with_empty.insert("X".to_string(), String::new());
    assert_eq!(substitute_env_vars("${X:-d}", &with_empty), "d");

    let mut with_value = EnvironmentVars::new();
    with_value.insert("X".to_string(), "v".to_string());
    assert_eq!(substitute_env_vars("${X:-d}", &with_value), "v");
}

#[test]
fn test_substitution_precedence() {
    let mut vars = EnvironmentVars::new();
    vars.insert("A".to_string(), "x".to_string());
    vars.insert("B".to_string(), "y".to_string());
    assert_eq!(substitute_env_vars("$A:$B", &vars), "x:y");
}

#[test]
fn test_environment_vars_overrides() {
    let mut vars = EnvironmentVars::new();
    vars.insert("K".to_string(), "one".to_string());
    vars.insert("K".to_string(), "two".to_string());
    assert_eq!(vars.get("K").map(String::as_str), Some("two"));
    assert_eq!(vars.len(), 1);

    let mut other = EnvironmentVars::new();
    other.insert("K".to_string(), "three".to_string());
    other.insert("L".to_string(), "four".to_string());
    vars.extend(&other);
    assert_eq!(vars.get("K").map(String::as_str), Some("three"));
    assert_eq!(vars.get("L").map(String::as_str), Some("four"));
    assert_eq!(vars.len(), 2);
}
