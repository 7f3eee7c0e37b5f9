use anything_cli::cli::{internal_command, split_arguments, Cli, InternalCommand};

fn strings(items: &[&str]) -> Vec<String> {
    items.iter().map(|s| s.to_string()).collect()
}

#[test]
fn test_cli_parsing_empty() {
    let cli = Cli::try_parse_from(&["test"]).unwrap();
    assert!(cli.commands.is_empty());
}

#[test]
fn test_cli_parsing_single_command() {
    let cli = Cli::try_parse_from(&["test", "hello"]).unwrap();
    assert_eq!(cli.commands, vec!["hello"]);
}

#[test]
fn test_cli_parsing_multiple_commands() {
    let cli = Cli::try_parse_from(&["test", "hello", "world", "test"]).unwrap();
    assert_eq!(cli.commands, vec!["hello", "world", "test"]);
}

#[test]
fn test_cli_parsing_with_flags() {
    let cli = Cli::try_parse_from(&["test", "command", "--flag", "value", "-v"]).unwrap();
    assert_eq!(cli.commands, vec!["command", "--flag", "value", "-v"]);
}

#[test]
fn test_cli_parsing_hyphen_values() {
    let cli = Cli::try_parse_from(&["test", "command", "--negative-value", "-123"]).unwrap();
    assert_eq!(cli.commands, vec!["command", "--negative-value", "-123"]);
}

#[test]
fn split_keeps_long_flag_values() {
    let s = split_arguments(&strings(&["users", "--name", "bob", "-v", "list", "--all", "--x=1"]));
    assert_eq!(s.commands, vec!["users", "list"]);
    assert_eq!(s.flags, vec!["--name", "bob", "-v", "--all", "--x=1"]);
}

#[test]
fn version_requested_without_segments() {
    assert!(split_arguments(&strings(&["--version"])).wants_version());
    assert!(split_arguments(&strings(&["-v"])).wants_version());
    assert!(!split_arguments(&strings(&["users", "-v"])).wants_version());
    assert!(!split_arguments(&strings(&["--verbose"])).wants_version());
}

#[test]
fn internal_commands_are_recognised() {
    assert_eq!(
        internal_command(&strings(&["self:set-header", "k", "v"])),
        Some(InternalCommand::SetHeader)
    );
    assert_eq!(
        internal_command(&strings(&["self:set-base-url", "http://x"])),
        Some(InternalCommand::SetBaseUrl)
    );
    assert_eq!(internal_command(&strings(&["self:uninstall"])), Some(InternalCommand::Uninstall));
    assert_eq!(internal_command(&strings(&["self:invalid-command"])), None);
    assert_eq!(internal_command(&strings(&[])), None);
}
