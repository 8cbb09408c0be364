use process_invoker::command::{CommandSpec, Routing};
use process_invoker::handle::{ChildHandle, TakeError};
use process_invoker::outcome::InvokeError;
use process_invoker::pipeline::PipelineSpec;

#[test]
fn handle_keeps_the_process_identifier() {
    let handle: ChildHandle<Vec<u8>> = ChildHandle::new(4711, None);
    assert_eq!(handle.pid(), 4711);
    let handle = ChildHandle::new(u32::MAX, Some(vec![1u8]));
    assert_eq!(handle.pid(), u32::MAX);
}

#[test]
fn captured_output_can_be_taken() {
    let mut handle = ChildHandle::new(1, Some(String::from("the stream")));
    assert!(handle.has_output());
    assert_eq!(handle.take_output(), Ok(String::from("the stream")));
    assert!(!handle.has_output());
    assert_eq!(handle.pid(), 1);
}

#[test]
fn output_cannot_be_taken_twice() {
    let mut handle = ChildHandle::new(1, Some(7u8));
    assert_eq!(handle.take_output(), Ok(7u8));
    assert_eq!(handle.take_output(), Err(TakeError::AlreadyTaken));
    assert_eq!(handle.take_output(), Err(TakeError::AlreadyTaken));
    assert!(!handle.has_output());
}

#[test]
fn uncaptured_output_cannot_be_taken() {
    let mut handle: ChildHandle<u8> = ChildHandle::new(1, None);
    assert!(!handle.has_output());
    assert_eq!(handle.take_output(), Err(TakeError::NotCaptured));
    assert_eq!(handle.take_output(), Err(TakeError::NotCaptured));
}

#[test]
fn pipeline_forces_the_routing_between_its_stages() {
    let pipeline = PipelineSpec::new(
        CommandSpec::with_args("ls", &["-l"]),
        CommandSpec::with_args("grep", &["rust"]).stdout(Routing::Capture),
    );
    assert_eq!(pipeline.first().stdout_routing(), Routing::Capture);
    assert_eq!(pipeline.second().stdin_routing(), Routing::Connect);
    assert_eq!(pipeline.first().program(), "ls");
    assert_eq!(pipeline.first().arguments(), &vec![String::from("-l")]);
    assert_eq!(pipeline.first().stdin_routing(), Routing::Inherit);
    assert_eq!(pipeline.first().stderr_routing(), Routing::Inherit);
    assert_eq!(pipeline.second().program(), "grep");
    assert_eq!(pipeline.second().arguments(), &vec![String::from("rust")]);
    assert_eq!(pipeline.second().stdout_routing(), Routing::Capture);
    assert_eq!(pipeline.second().stderr_routing(), Routing::Inherit);
}

#[test]
fn pipeline_overrides_contrary_routing() {
    let pipeline = PipelineSpec::new(
        CommandSpec::new("a").stdout(Routing::Inherit),
        CommandSpec::new("b").stdin(Routing::Capture),
    );
    assert_eq!(pipeline.first().stdout_routing(), Routing::Capture);
    assert_eq!(pipeline.second().stdin_routing(), Routing::Connect);
}

#[test]
fn pipeline_keeps_everything_else() {
    let pipeline = PipelineSpec::new(
        CommandSpec::new("a").current_dir("/tmp").env("K", "V"),
        CommandSpec::new("b").arg("x").stderr(Routing::Capture),
    );
    assert_eq!(pipeline.first().working_dir(), Some(&String::from("/tmp")));
    assert_eq!(pipeline.first().env_value("K"), Some(&String::from("V")));
    assert_eq!(pipeline.second().arguments(), &vec![String::from("x")]);
    assert_eq!(pipeline.second().stderr_routing(), Routing::Capture);
    assert_eq!(pipeline.second().working_dir(), None);
}

#[test]
fn pipeline_stages_pass_the_routing_check() {
    let pipeline = PipelineSpec::new(CommandSpec::new("ls"), CommandSpec::new("grep"));
    assert_eq!(pipeline.first().check_routing(false), Ok(()));
    assert_eq!(pipeline.second().check_routing(true), Ok(()));
    assert!(matches!(
        pipeline.second().check_routing(false),
        Err(InvokeError::Launch { .. })
    ));
}

#[test]
fn connect_moves_the_stream_to_the_second_stage() {
    let mut first = ChildHandle::new(10, Some(String::from("pipe")));
    assert_eq!(PipelineSpec::connect(&mut first), Ok(String::from("pipe")));
    assert!(!first.has_output());
    assert_eq!(first.take_output(), Err(TakeError::AlreadyTaken));
    assert_eq!(first.pid(), 10);
}

#[test]
fn connect_twice_is_a_launch_error() {
    let mut first = ChildHandle::new(10, Some(1u8));
    assert_eq!(PipelineSpec::connect(&mut first), Ok(1u8));
    assert_eq!(
        PipelineSpec::connect(&mut first),
        Err(InvokeError::Launch {
            detail: String::from("the first stage's output was already taken"),
        })
    );
}

#[test]
fn connect_after_streaming_is_a_launch_error() {
    let mut first = ChildHandle::new(10, Some(1u8));
    assert_eq!(first.take_output(), Ok(1u8));
    assert!(matches!(PipelineSpec::connect(&mut first), Err(InvokeError::Launch { .. })));
}

#[test]
fn connect_without_captured_output_is_a_launch_error() {
    let mut first: ChildHandle<u8> = ChildHandle::new(10, None);
    assert_eq!(
        PipelineSpec::connect(&mut first),
        Err(InvokeError::Launch {
            detail: String::from("the first stage's output is not captured"),
        })
    );
    assert_eq!(first.take_output(), Err(TakeError::NotCaptured));
}
