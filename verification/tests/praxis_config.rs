use praxis::proxy::{PraxisConfig, cargo_command, docker_command};

#[test]
fn praxis_config_command() {
    let config = PraxisConfig {
        config: String::from("/tmp/test.yaml"),
        address: "127.0.0.1:9090".into(),
        image: None,
    };

    assert_eq!(config.name(), "praxis");
    assert_eq!(config.listen_address(), "127.0.0.1:9090");

    let (cmd, args) = config.start_command(&config.config);
    assert_eq!(cmd, "cargo");
    assert!(
        args.contains(&"--release".to_owned()),
        "start command should include --release flag"
    );
    assert!(
        args.contains(&"-c".to_owned()),
        "start command should include -c config flag"
    );
}

#[test]
fn cargo_command_exact_arguments() {
    let (cmd, args) = cargo_command("/etc/p.yaml");
    assert_eq!(cmd, "cargo");
    assert_eq!(args, vec!["run", "--release", "-p", "praxis", "--", "-c", "/etc/p.yaml"]);
}

#[test]
fn docker_command_exact_arguments() {
    let (cmd, args) = docker_command("/abs/c.yaml", "praxis:latest");
    assert_eq!(cmd, "docker");
    assert_eq!(
        args,
        vec![
            "run",
            "--rm",
            "--name",
            "praxis-bench-praxis",
            "--network",
            "host",
            "--cpus=4.0",
            "--memory=2g",
            "-v",
            "/abs/c.yaml:/etc/praxis/config.yaml:ro",
            "praxis:latest",
        ]
    );
}

#[test]
fn image_selects_docker_and_container_name() {
    let config = PraxisConfig {
        config: String::from("/tmp/x.yaml"),
        address: "127.0.0.1:8080".into(),
        image: Some("img:1".into()),
    };
    assert_eq!(config.container_name(), Some("praxis-bench-praxis"));
    assert_eq!(config.config_path(), "/tmp/x.yaml");
    let (cmd, args) = config.start_command("/abs/x.yaml");
    assert_eq!(cmd, "docker");
    assert_eq!(args.last().map(String::as_str), Some("img:1"));
    assert_eq!(args[9], "/abs/x.yaml:/etc/praxis/config.yaml:ro");

    let plain = PraxisConfig { image: None, ..config };
    assert_eq!(plain.container_name(), None);
}
