use yunxi_webdisk::cli::{brings_up_server, parse_command, Command};

fn parse(args: &[&str]) -> Command {
    let mut all = vec!["webdisk".to_string()];
    all.extend(args.iter().map(|s| s.to_string()));
    parse_command(&all)
}

#[test]
fn no_argument_serves() {
    assert!(matches!(parse(&[]), Command::Serve));
    assert!(matches!(parse_command(&[]), Command::Serve));
    assert!(brings_up_server(&Command::Serve));
    assert!(brings_up_server(&Command::Run));
    assert!(!brings_up_server(&Command::Start));
    assert!(!brings_up_server(&Command::Help));
}

#[test]
fn help_and_version() {
    assert!(matches!(parse(&["-h"]), Command::Help));
    assert!(matches!(parse(&["--help"]), Command::Help));
    assert!(matches!(parse(&["--help", "more"]), Command::Help));
    assert!(matches!(parse(&["-v"]), Command::Version));
    assert!(matches!(parse(&["--version"]), Command::Version));
}

#[test]
fn host_takes_a_key_and_a_value() {
    assert!(matches!(parse(&["--host", "port", "80"]), Command::Host { key, value } if key == "port" && value == "80"));
    assert!(matches!(parse(&["--host", "port"]), Command::BadFormat));
    assert!(matches!(parse(&["--host"]), Command::BadFormat));
    assert!(matches!(parse(&["--host", "port", "80", "x"]), Command::BadFormat));
}

#[test]
fn config_takes_default_or_a_path() {
    assert!(matches!(parse(&["--config", "default"]), Command::ConfigDefault));
    assert!(matches!(parse(&["--config", "my.yaml"]), Command::ConfigFile { path } if path == "my.yaml"));
    assert!(matches!(parse(&["--config"]), Command::BadFormat));
    assert!(matches!(parse(&["--config", "a", "b"]), Command::BadFormat));
}

#[test]
fn service_commands() {
    assert!(matches!(parse(&["start"]), Command::Start));
    assert!(matches!(parse(&["stop"]), Command::Stop));
    assert!(matches!(parse(&["run"]), Command::Run));
    assert!(matches!(parse(&["--webdav"]), Command::Webdav));
    assert!(matches!(parse(&["--webdav", "add", "x"]), Command::Webdav));
}

#[test]
fn anything_else_is_unknown() {
    assert!(matches!(parse(&["serve"]), Command::Unknown));
    assert!(matches!(parse(&["START"]), Command::Unknown));
    assert!(matches!(parse(&[""]), Command::Unknown));
    assert!(matches!(parse(&["-x"]), Command::Unknown));
}
