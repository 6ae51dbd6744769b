use stdio_monitor::supervise::final_exit_code;
use stdio_monitor::supervise::sink_directive;
use stdio_monitor::supervise::validate_command;
use stdio_monitor::supervise::CommandError;
use stdio_monitor::supervise::Phase;
use stdio_monitor::supervise::SinkDirective;
use stdio_monitor::supervise::Supervisor;
use stdio_monitor::supervise::FAILURE_EXIT_CODE;

#[test]
fn child_success_maps_to_exit_code_zero() {
    assert_eq!(final_exit_code(true), 0);
}

#[test]
fn child_failure_maps_to_fixed_nonzero_exit_code() {
    let code = final_exit_code(false);
    assert_ne!(code, 0);
    assert_eq!(code, FAILURE_EXIT_CODE);
    assert_eq!(code, -1);
}

#[test]
fn empty_command_is_invalid() {
    let fault = validate_command(&Vec::new()).unwrap_err();
    assert!(matches!(fault, CommandError::InvalidCommand));
}

#[test]
fn nonempty_command_is_accepted() {
    let command = vec!["echo".to_string(), "hello".to_string()];
    assert!(validate_command(&command).is_ok());
}

#[test]
fn omitted_log_path_resolves_to_default_sink() {
    let directive = sink_directive(None);
    assert!(matches!(directive, SinkDirective::Default));
}

#[test]
fn given_log_path_resolves_to_that_file() {
    let directive = sink_directive(Some("out.log".to_string()));
    match directive {
        SinkDirective::Path(path) => assert_eq!(path, "out.log"),
        SinkDirective::Default => panic!("expected a file directive"),
    }
}

#[test]
fn full_run_with_successful_child_exits_zero() {
    let command = vec!["echo".to_string(), "hello".to_string()];
    let mut run = Supervisor::new(&command).unwrap();
    assert_eq!(run.current_phase(), Phase::Created);
    run.note_spawned();
    run.note_streams_wired();
    run.note_tasks_running();
    run.note_child_exit(true);
    run.note_outputs_joined();
    assert_eq!(run.current_phase(), Phase::OutputTasksJoined);
    assert_eq!(run.finish(), 0);
    assert_eq!(run.current_phase(), Phase::Terminated);
}

#[test]
fn full_run_with_failing_child_exits_nonzero() {
    let command = vec!["false".to_string()];
    let mut run = Supervisor::new(&command).unwrap();
    run.note_spawned();
    run.note_streams_wired();
    run.note_tasks_running();
    run.note_child_exit(false);
    run.note_outputs_joined();
    assert_eq!(run.finish(), FAILURE_EXIT_CODE);
}

#[test]
fn spawn_failure_aborts_with_nonzero_exit_code() {
    let command = vec!["no-such-program".to_string()];
    let mut run = Supervisor::new(&command).unwrap();
    let code = run.abort();
    assert_ne!(code, 0);
    assert_eq!(code, FAILURE_EXIT_CODE);
    assert_eq!(run.current_phase(), Phase::Terminated);
}

#[test]
fn empty_command_never_starts_a_run() {
    let fault = Supervisor::new(&Vec::new()).unwrap_err();
    assert!(matches!(fault, CommandError::InvalidCommand));
}
