use docktopus::config::docker_file::{DockerCommand, DockerfileConfig};
use docktopus::error::DockerError;
use docktopus::DockerfileParser;

fn parse_err(content: &str) -> String {
    match DockerfileConfig::parse(content) {
        Err(DockerError::DockerfileError(msg)) => msg,
        _ => panic!("expected a build-script error"),
    }
}

#[test]
fn test_all_dockerfile_commands() {
    let content = r#"
        FROM ubuntu:22.04
        LABEL version="1.0" description="Test image"
        MAINTAINER Test User <test@example.com>
        ARG BUILD_VERSION
        ARG DEBUG=false
        ENV APP_VERSION=${BUILD_VERSION}
        ENV DEBUG_MODE=${DEBUG}
        WORKDIR /app
        ADD --chown=user:group http://example.com/file.tar.gz /app/
        ADD ["file1.txt", "file2.txt", "/app/"]
        COPY --chown=user:group src/ /app/
        RUN apt-get update && \
            apt-get install -y python3
        EXPOSE 8080/tcp
        EXPOSE 8081
        USER myuser:mygroup
        VOLUME ["/data", "/config"]
        HEALTHCHECK --interval=30s --timeout=10s --retries=3 CMD curl -f http://localhost/ || exit 1
        SHELL ["/bin/bash", "-c"]
        STOPSIGNAL SIGTERM
        ONBUILD ADD . /app/src
        ENTRYPOINT ["./entrypoint.sh"]
        CMD ["--help"]
    "#;

    let config = DockerfileConfig::parse(content).unwrap();
    assert_eq!(config.base_image, "ubuntu:22.04");

    let mut commands_iter = config.commands.iter();

    if let Some(DockerCommand::Label { labels }) = commands_iter.next() {
        let get = |key: &str| {
            labels
                .iter()
                .find(|(k, _)| k == key)
                .map(|(_, v)| v.clone())
        };
        assert_eq!(get("version").unwrap(), "1.0");
        assert_eq!(get("description").unwrap(), "Test image");
    } else {
        panic!("Expected LABEL command");
    }

    if let Some(DockerCommand::Maintainer { name }) = commands_iter.next() {
        assert_eq!(name, "Test User <test@example.com>");
    } else {
        panic!("Expected MAINTAINER command");
    }

    if let Some(DockerCommand::Arg { name, default_value }) = commands_iter.next() {
        assert_eq!(name, "BUILD_VERSION");
        assert!(default_value.is_none());
    } else {
        panic!("Expected ARG command");
    }

    if let Some(DockerCommand::Arg { name, default_value }) = commands_iter.next() {
        assert_eq!(name, "DEBUG");
        assert_eq!(default_value.as_deref(), Some("false"));
    } else {
        panic!("Expected ARG command");
    }

    if let Some(DockerCommand::Env { key, value }) = commands_iter.next() {
        assert_eq!(key, "APP_VERSION");
        assert_eq!(value, "${BUILD_VERSION}");
    } else {
        panic!("Expected ENV command");
    }

    if let Some(DockerCommand::Env { key, value }) = commands_iter.next() {
        assert_eq!(key, "DEBUG_MODE");
        assert_eq!(value, "${DEBUG}");
    } else {
        panic!("Expected ENV command");
    }

    if let Some(DockerCommand::Workdir { path }) = commands_iter.next() {
        assert_eq!(path, "/app");
    } else {
        panic!("Expected WORKDIR command");
    }

    if let Some(DockerCommand::Add { sources, dest, chown }) = commands_iter.next() {
        assert_eq!(*sources, vec!["http://example.com/file.tar.gz"]);
        assert_eq!(dest, "/app/");
        assert_eq!(chown.as_deref(), Some("user:group"));
    } else {
        panic!("Expected ADD command");
    }

    if let Some(DockerCommand::Add { sources, dest, chown }) = commands_iter.next() {
        assert_eq!(*sources, vec!["file1.txt", "file2.txt"]);
        assert_eq!(dest, "/app/");
        assert!(chown.is_none());
    } else {
        panic!("Expected ADD command");
    }

    if let Some(DockerCommand::Copy { source, dest, chown }) = commands_iter.next() {
        assert_eq!(source, "src/");
        assert_eq!(dest, "/app/");
        assert_eq!(chown.as_deref(), Some("user:group"));
    } else {
        panic!("Expected COPY command");
    }

    if let Some(DockerCommand::Run { command }) = commands_iter.next() {
        assert_eq!(command, "apt-get update &&  apt-get install -y python3");
    } else {
        panic!("Expected RUN command");
    }

    if let Some(DockerCommand::Expose { port, protocol }) = commands_iter.next() {
        assert_eq!(*port, 8080);
        assert_eq!(protocol.as_deref(), Some("tcp"));
    } else {
        panic!("Expected EXPOSE command");
    }

    if let Some(DockerCommand::Expose { port, protocol }) = commands_iter.next() {
        assert_eq!(*port, 8081);
        assert!(protocol.is_none());
    } else {
        panic!("Expected EXPOSE command");
    }

    if let Some(DockerCommand::User { user, group }) = commands_iter.next() {
        assert_eq!(user, "myuser");
        assert_eq!(group.as_deref(), Some("mygroup"));
    } else {
        panic!("Expected USER command");
    }

    if let Some(DockerCommand::Volume { paths }) = commands_iter.next() {
        assert_eq!(*paths, vec!["/data", "/config"]);
    } else {
        panic!("Expected VOLUME command");
    }

    if let Some(DockerCommand::Healthcheck { command, interval, timeout, retries, .. }) =
        commands_iter.next()
    {
        assert_eq!(
            *command,
            vec!["curl", "-f", "http://localhost/", "||", "exit", "1"]
        );
        assert_eq!(interval.as_deref(), Some("30s"));
        assert_eq!(timeout.as_deref(), Some("10s"));
        assert_eq!(*retries, Some(3));
    } else {
        panic!("Expected HEALTHCHECK command");
    }

    if let Some(DockerCommand::Shell { shell }) = commands_iter.next() {
        assert_eq!(*shell, vec!["/bin/bash", "-c"]);
    } else {
        panic!("Expected SHELL command");
    }

    if let Some(DockerCommand::StopSignal { signal }) = commands_iter.next() {
        assert_eq!(signal, "SIGTERM");
    } else {
        panic!("Expected STOPSIGNAL command");
    }

    if let Some(DockerCommand::Onbuild { command }) = commands_iter.next() {
        match command.as_ref() {
            DockerCommand::Add { sources, dest, chown } => {
                assert_eq!(*sources, vec!["."]);
                assert_eq!(dest, "/app/src");
                assert!(chown.is_none());
            }
            _ => panic!("Expected ONBUILD ADD command"),
        }
    } else {
        panic!("Expected ONBUILD command");
    }

    if let Some(DockerCommand::Entrypoint { command }) = commands_iter.next() {
        assert_eq!(*command, vec!["./entrypoint.sh"]);
    } else {
        panic!("Expected ENTRYPOINT command");
    }

    if let Some(DockerCommand::Cmd { command }) = commands_iter.next() {
        assert_eq!(*command, vec!["--help"]);
    } else {
        panic!("Expected CMD command");
    }
}

#[test]
fn test_dockerfile_content_generation() {
    let config = DockerfileConfig {
        base_image: "rust:1.70".to_string(),
        commands: vec![
            DockerCommand::Run { command: "cargo build".to_string() },
            DockerCommand::Copy {
                source: "./target".to_string(),
                dest: "/app".to_string(),
                chown: None,
            },
            DockerCommand::Env {
                key: "RUST_LOG".to_string(),
                value: "debug".to_string(),
            },
            DockerCommand::Workdir { path: "/app".to_string() },
            DockerCommand::Expose { port: 8080, protocol: None },
        ],
    };

    let content = config.to_dockerfile_content();
    let expected = "FROM rust:1.70\nRUN cargo build\nCOPY ./target /app\nENV RUST_LOG=debug\nWORKDIR /app\nEXPOSE 8080\n";
    assert_eq!(content, expected);
}

#[test]
fn test_invalid_dockerfile_syntax() {
    assert_eq!(parse_err("COPY"), "Invalid command syntax");
    assert_eq!(parse_err("COPY src"), "COPY requires source and destination");
    assert_eq!(parse_err("UNKNOWN command"), "Unknown command: UNKNOWN");
}

#[test]
fn test_invalid_onbuild() {
    assert_eq!(parse_err("ONBUILD"), "Invalid command syntax");
    assert_eq!(parse_err("ONBUILD INVALID something"), "Unknown command: INVALID");

    let config = DockerfileConfig::parse("ONBUILD ADD . /usr/src/app").unwrap();
    match &config.commands[0] {
        DockerCommand::Onbuild { command } => match command.as_ref() {
            DockerCommand::Add { sources, dest, chown } => {
                assert_eq!(sources, &vec!["."]);
                assert_eq!(dest, "/usr/src/app");
                assert!(chown.is_none());
            }
            _ => panic!("Expected ADD command inside ONBUILD"),
        },
        _ => panic!("Expected ONBUILD command"),
    }

    let config = DockerfileConfig::parse("ONBUILD RUN mvn install").unwrap();
    match &config.commands[0] {
        DockerCommand::Onbuild { command } => match command.as_ref() {
            DockerCommand::Run { command } => {
                assert_eq!(command, "mvn install");
            }
            _ => panic!("Expected RUN command inside ONBUILD"),
        },
        _ => panic!("Expected ONBUILD command"),
    }
}

#[test]
fn test_invalid_healthcheck() {
    assert_eq!(
        parse_err("HEALTHCHECK --invalid-flag CMD curl localhost"),
        "Invalid HEALTHCHECK flag: --invalid-flag"
    );
    assert_eq!(
        parse_err("HEALTHCHECK --interval"),
        "Missing value for --interval flag"
    );
    assert_eq!(
        parse_err("HEALTHCHECK --interval 30s"),
        "HEALTHCHECK must include CMD"
    );
}

#[test]
fn test_empty_dockerfile() {
    let config = DockerfileConfig::parse("").unwrap();
    assert!(config.base_image.is_empty());
    assert!(config.commands.is_empty());
}

#[test]
fn test_comments_and_empty_lines() {
    let content = r#"
        # This is a comment
        FROM ubuntu:22.04

        # Another comment
        RUN echo "test"

        # Final comment
    "#;

    let config = DockerfileConfig::parse(content).unwrap();
    assert_eq!(config.base_image, "ubuntu:22.04");
    assert_eq!(config.commands.len(), 1);
}

#[test]
fn test_expose_multiple_ports() {
    let config = DockerfileConfig::parse("EXPOSE 30333 9933 9944 9615").unwrap();
    let expected_ports = [30333u16, 9933, 9944, 9615];
    assert_eq!(config.commands.len(), expected_ports.len());
    for (i, port) in expected_ports.iter().enumerate() {
        match &config.commands[i] {
            DockerCommand::Expose { port: p, protocol } => {
                assert_eq!(p, port);
                assert!(protocol.is_none());
            }
            _ => panic!("Expected EXPOSE command"),
        }
    }

    let config = DockerfileConfig::parse("EXPOSE 80/tcp 443 8080/udp 9000").unwrap();
    assert_eq!(config.commands.len(), 4);
    let expected = [
        (80u16, Some("tcp")),
        (443, None),
        (8080, Some("udp")),
        (9000, None),
    ];
    for (i, (port, protocol)) in expected.iter().enumerate() {
        match &config.commands[i] {
            DockerCommand::Expose { port: p, protocol: proto } => {
                assert_eq!(p, port);
                assert_eq!(proto.as_deref(), *protocol);
            }
            _ => panic!("Expected EXPOSE command"),
        }
    }
}

#[test]
fn test_tangle_expose_format() {
    let config = DockerfileConfig::parse("EXPOSE 30333 9933 9944 9615").unwrap();
    let expected_ports = [30333u16, 9933, 9944, 9615];
    assert_eq!(config.commands.len(), expected_ports.len());
    for (i, expected_port) in expected_ports.iter().enumerate() {
        match &config.commands[i] {
            DockerCommand::Expose { port, protocol } => {
                assert_eq!(port, expected_port);
                assert!(protocol.is_none());
            }
            _ => panic!("Expected EXPOSE command"),
        }
    }

    let result = DockerfileConfig::parse("EXPOSE 30333 invalid 9944");
    assert!(matches!(
        result,
        Err(DockerError::DockerfileError(msg)) if msg == "Invalid port number: invalid"
    ));
}

#[test]
fn test_volume_formats() {
    let config = DockerfileConfig::parse("VOLUME /data /config /cache").unwrap();
    match &config.commands[0] {
        DockerCommand::Volume { paths } => {
            assert_eq!(paths, &vec!["/data", "/config", "/cache"]);
        }
        _ => panic!("Expected VOLUME command"),
    }

    let config = DockerfileConfig::parse(r#"VOLUME ["/data", "/config"]"#).unwrap();
    match &config.commands[0] {
        DockerCommand::Volume { paths } => {
            assert_eq!(paths, &vec!["/data", "/config"]);
        }
        _ => panic!("Expected VOLUME command"),
    }

    let result = DockerfileConfig::parse("VOLUME [invalid json");
    assert!(matches!(
        result,
        Err(DockerError::DockerfileError(msg)) if msg.contains("Invalid JSON array")
    ));
}

#[test]
fn test_parse_expose_scenario() {
    let config = DockerfileConfig::parse("FROM ubuntu:22.04\nEXPOSE 80 443/tcp\n").unwrap();
    assert_eq!(config.base_image, "ubuntu:22.04");
    assert_eq!(config.commands.len(), 2);
    assert!(matches!(
        &config.commands[0],
        DockerCommand::Expose { port: 80, protocol: None }
    ));
    match &config.commands[1] {
        DockerCommand::Expose { port, protocol } => {
            assert_eq!(*port, 443);
            assert_eq!(protocol.as_deref(), Some("tcp"));
        }
        _ => panic!("Expected EXPOSE command"),
    }
}

#[test]
fn test_render_reparse_round_trip() {
    let content = "FROM alpine:3.20\nRUN apk add curl\nENV MODE=fast\nWORKDIR /srv\nEXPOSE 9090/tcp\nUSER app:app\nSTOPSIGNAL SIGTERM\nCMD [\"run\", \"--now\"]\n";
    let first = DockerfileConfig::parse(content).unwrap();
    let rendered = first.to_dockerfile_content();
    let second = DockerfileConfig::parse(rendered.as_str()).unwrap();
    assert_eq!(rendered, second.to_dockerfile_content());
    assert_eq!(first.base_image, second.base_image);
    assert_eq!(first.commands.len(), second.commands.len());
}

#[test]
fn test_shell_words_quoting() {
    let config = DockerfileConfig::parse("FROM busybox\nCMD echo \"a b\" c").unwrap();
    match &config.commands[0] {
        DockerCommand::Cmd { command } => {
            assert_eq!(*command, vec!["echo", "a b", "c"]);
        }
        _ => panic!("Expected CMD command"),
    }
    let rendered = config.to_dockerfile_content();
    let again = DockerfileConfig::parse(rendered.as_str()).unwrap();
    match &again.commands[0] {
        DockerCommand::Cmd { command } => {
            assert_eq!(*command, vec!["echo", "a b", "c"]);
        }
        _ => panic!("Expected CMD command"),
    }
}

#[test]
fn test_simple_parser_subset() {
    let config =
        DockerfileParser::parse("FROM debian\nRUN make\nCOPY a b\nEXPOSE 8000\nLABEL x=y\n")
            .unwrap();
    assert_eq!(config.base_image, "debian");
    assert_eq!(config.commands.len(), 3);
    assert!(matches!(&config.commands[0], DockerCommand::Run { command } if command == "make"));
    assert!(matches!(
        &config.commands[1],
        DockerCommand::Copy { source, dest, chown: None } if source == "a" && dest == "b"
    ));
    assert!(matches!(
        &config.commands[2],
        DockerCommand::Expose { port: 8000, protocol: None }
    ));
}

#[test]
fn test_label_repeated_key_last_wins() {
    let config = DockerfileConfig::parse("FROM x\nLABEL a=1 a=2 b=3").unwrap();
    match &config.commands[0] {
        DockerCommand::Label { labels } => {
            assert_eq!(labels.len(), 2);
            assert_eq!(labels[0], ("a".to_string(), "2".to_string()));
            assert_eq!(labels[1], ("b".to_string(), "3".to_string()));
        }
        _ => panic!("Expected LABEL command"),
    }
}
