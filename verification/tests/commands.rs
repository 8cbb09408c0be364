use process_invoker::command::{CommandSpec, Routing};
use process_invoker::outcome::InvokeError;

fn texts(items: &[&str]) -> Vec<String> {
    items.iter().map(|item| String::from(*item)).collect()
}

fn pair(name: &str, value: &str) -> (String, String) {
    (String::from(name), String::from(value))
}

#[test]
fn new_request_has_defaults() {
    let spec = CommandSpec::new("ls");
    assert_eq!(spec.program(), "ls");
    assert!(spec.arguments().is_empty());
    assert_eq!(spec.working_dir(), None);
    assert!(spec.env_overrides().is_empty());
    assert_eq!(spec.stdin_routing(), Routing::Inherit);
    assert_eq!(spec.stdout_routing(), Routing::Inherit);
    assert_eq!(spec.stderr_routing(), Routing::Inherit);
}

#[test]
fn arguments_keep_their_order() {
    let spec = CommandSpec::new("ping").arg("google.com").arg("-c").arg("4");
    assert_eq!(spec.program(), "ping");
    assert_eq!(spec.arguments(), &texts(&["google.com", "-c", "4"]));
}

#[test]
fn args_appends_after_existing_arguments() {
    let spec = CommandSpec::new("printf").arg("%s").args(&["abc\ndef\n", "x"]).args(&[]);
    assert_eq!(spec.arguments(), &texts(&["%s", "abc\ndef\n", "x"]));
}

#[test]
fn with_args_is_program_and_arguments() {
    let spec = CommandSpec::with_args("ls", &["-l"]);
    assert_eq!(spec.program(), "ls");
    assert_eq!(spec.arguments(), &texts(&["-l"]));
    assert_eq!(spec, CommandSpec::new("ls").arg("-l"));
}

#[test]
fn arguments_are_not_tokenized() {
    let spec = CommandSpec::with_args("echo", &["a b", "c|d", "$HOME; rm"]);
    assert_eq!(spec.arguments(), &texts(&["a b", "c|d", "$HOME; rm"]));
}

#[test]
fn shell_hands_the_string_over_as_one_argument() {
    let spec = CommandSpec::shell("ls -l | grep rust | wc -l");
    assert_eq!(spec.program(), "sh");
    assert_eq!(spec.arguments(), &texts(&["-c", "ls -l | grep rust | wc -l"]));
    assert_eq!(spec.working_dir(), None);
    assert!(spec.env_overrides().is_empty());
}

#[test]
fn shell_does_not_escape() {
    let command = "echo 'Current directory:' && pwd && echo \"$X\" > /dev/null";
    let spec = CommandSpec::shell(command);
    assert_eq!(spec.arguments()[1], command);
    assert_eq!(spec.arguments().len(), 2);
}

#[test]
fn working_directory_is_set_and_replaced() {
    let spec = CommandSpec::new("ls").current_dir("/tmp");
    assert_eq!(spec.working_dir(), Some(&String::from("/tmp")));
    let spec = spec.current_dir("/var");
    assert_eq!(spec.working_dir(), Some(&String::from("/var")));
}

#[test]
fn environment_variables_are_set() {
    let spec = CommandSpec::shell("echo $CUSTOM_VAR").env("CUSTOM_VAR", "Hello from Rust!");
    assert_eq!(spec.env_overrides(), &vec![pair("CUSTOM_VAR", "Hello from Rust!")]);
    assert_eq!(spec.env_value("CUSTOM_VAR"), Some(&String::from("Hello from Rust!")));
    assert_eq!(spec.env_value("OTHER"), None);
}

#[test]
fn setting_a_name_again_replaces_its_value() {
    let spec = CommandSpec::new("env").env("A", "1").env("B", "2").env("A", "3");
    assert_eq!(spec.env_overrides(), &vec![pair("A", "3"), pair("B", "2")]);
    assert_eq!(spec.env_value("A"), Some(&String::from("3")));
    assert_eq!(spec.env_value("B"), Some(&String::from("2")));
}

#[test]
fn environment_names_are_case_sensitive() {
    let spec = CommandSpec::new("env").env("path", "x").env("PATH", "y");
    assert_eq!(spec.env_overrides().len(), 2);
    assert_eq!(spec.env_value("path"), Some(&String::from("x")));
    assert_eq!(spec.env_value("PATH"), Some(&String::from("y")));
    assert_eq!(spec.env_value("Path"), None);
}

#[test]
fn empty_value_is_still_set() {
    let spec = CommandSpec::new("env").env("EMPTY", "");
    assert_eq!(spec.env_value("EMPTY"), Some(&String::new()));
}

#[test]
fn builders_leave_other_parts_alone() {
    let spec = CommandSpec::new("prog")
        .arg("a")
        .current_dir("/tmp")
        .env("K", "V")
        .stdin(Routing::Capture)
        .stdout(Routing::Capture)
        .stderr(Routing::Capture)
        .arg("b")
        .env("L", "W");
    assert_eq!(spec.program(), "prog");
    assert_eq!(spec.arguments(), &texts(&["a", "b"]));
    assert_eq!(spec.working_dir(), Some(&String::from("/tmp")));
    assert_eq!(spec.env_overrides(), &vec![pair("K", "V"), pair("L", "W")]);
    assert_eq!(spec.stdin_routing(), Routing::Capture);
    assert_eq!(spec.stdout_routing(), Routing::Capture);
    assert_eq!(spec.stderr_routing(), Routing::Capture);
}

#[test]
fn routing_setters_set_one_stream_each() {
    let spec = CommandSpec::new("p").stdin(Routing::Connect);
    assert_eq!(spec.stdin_routing(), Routing::Connect);
    assert_eq!(spec.stdout_routing(), Routing::Inherit);
    assert_eq!(spec.stderr_routing(), Routing::Inherit);
    let spec = CommandSpec::new("p").stdout(Routing::Capture);
    assert_eq!(spec.stdin_routing(), Routing::Inherit);
    assert_eq!(spec.stdout_routing(), Routing::Capture);
    assert_eq!(spec.stderr_routing(), Routing::Inherit);
    let spec = CommandSpec::new("p").stderr(Routing::Capture);
    assert_eq!(spec.stdin_routing(), Routing::Inherit);
    assert_eq!(spec.stdout_routing(), Routing::Inherit);
    assert_eq!(spec.stderr_routing(), Routing::Capture);
}

#[test]
fn captured_routes_both_outputs_to_buffers() {
    let spec = CommandSpec::with_args("ls", &["-l"]).stdin(Routing::Capture).captured();
    assert_eq!(spec.stdin_routing(), Routing::Capture);
    assert_eq!(spec.stdout_routing(), Routing::Capture);
    assert_eq!(spec.stderr_routing(), Routing::Capture);
    assert_eq!(spec.arguments(), &texts(&["-l"]));
}

#[test]
fn streamed_routes_only_standard_output() {
    let spec = CommandSpec::new("ping").streamed();
    assert_eq!(spec.stdin_routing(), Routing::Inherit);
    assert_eq!(spec.stdout_routing(), Routing::Capture);
    assert_eq!(spec.stderr_routing(), Routing::Inherit);
}

#[test]
fn plain_request_is_launchable_alone() {
    assert_eq!(CommandSpec::new("ls").check_routing(false), Ok(()));
    assert_eq!(CommandSpec::new("ls").captured().check_routing(false), Ok(()));
    assert_eq!(CommandSpec::new("ls").stdin(Routing::Capture).check_routing(false), Ok(()));
}

#[test]
fn connected_input_needs_a_stream() {
    let spec = CommandSpec::new("grep").stdin(Routing::Connect);
    assert_eq!(spec.check_routing(true), Ok(()));
    assert!(matches!(spec.check_routing(false), Err(InvokeError::Launch { .. })));
}

#[test]
fn a_stream_needs_connected_input() {
    let spec = CommandSpec::new("grep");
    assert!(matches!(spec.check_routing(true), Err(InvokeError::Launch { .. })));
    let spec = CommandSpec::new("grep").stdin(Routing::Capture);
    assert!(matches!(spec.check_routing(true), Err(InvokeError::Launch { .. })));
}

#[test]
fn outputs_cannot_be_connected() {
    let spec = CommandSpec::new("ls").stdout(Routing::Connect);
    assert!(matches!(spec.check_routing(false), Err(InvokeError::Launch { .. })));
    assert!(matches!(spec.check_routing(true), Err(InvokeError::Launch { .. })));
    let spec = CommandSpec::new("ls").stderr(Routing::Connect).stdin(Routing::Connect);
    assert!(matches!(spec.check_routing(false), Err(InvokeError::Launch { .. })));
    assert!(matches!(spec.check_routing(true), Err(InvokeError::Launch { .. })));
}
