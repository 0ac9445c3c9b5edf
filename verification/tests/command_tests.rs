use halo::command::{
    CommandLog, CommandManager, CommandRequest, CommandUpdate, Error, LaunchFailure, LaunchPlan,
    SpawnError, StdioMode,
};
use halo::stream::StreamOrigin;
use halo::supervisor::SupervisorEvent;
use tokio::sync::oneshot;
use tokio::sync::oneshot::error::TryRecvError;

fn refused() -> LaunchFailure {
    LaunchFailure::Refused("No such file or directory (os error 2)".to_string())
}

fn spawn_error() -> SpawnError {
    SpawnError {
        program: "no-such-program".to_string(),
        reason: "No such file or directory (os error 2)".to_string(),
    }
}

#[test]
fn command_log_new_has_no_result_yet() {
    let log = CommandLog::new("ls".to_string(), "out".to_string(), true, "/tmp".to_string());
    assert_eq!(log.command, "ls");
    assert_eq!(log.output, "out");
    assert!(log.is_running);
    assert_eq!(log.cwd, "/tmp");
    assert_eq!(log.exit_code, None);
    assert_eq!(log.duration_ms, None);
}

#[test]
fn spawn_error_message_names_the_program() {
    assert_eq!(
        spawn_error().message(),
        "no-such-program: No such file or directory (os error 2)"
    );
}

#[test]
fn error_wraps_a_spawn_error() {
    let error = Error::Spawn(spawn_error());
    assert_eq!(error, Error::Spawn(spawn_error()));
}

#[test]
fn command_request_holds_program_arguments_and_directory() {
    let request = CommandRequest {
        program: "echo".to_string(),
        args: vec!["hello".to_string()],
        cwd: "/".to_string(),
    };
    assert_eq!(request.clone(), request);
}

#[test]
fn kill_with_no_command_running_succeeds_and_changes_nothing() {
    let mut manager = CommandManager::new();
    assert_eq!(manager.kill_running_command(), Ok(()));
    assert_eq!(manager.kill_running_command(), Ok(()));
    let mut fresh = CommandManager::default();
    assert_eq!(fresh.kill_running_command(), Ok(()));
}

#[test]
fn failed_spawn_returns_the_error_and_occupies_no_slot() {
    let mut manager = CommandManager::new();
    let (earlier, mut earlier_rx) = oneshot::channel::<()>();
    assert!(manager.spawn_command("sleep", Ok(earlier)).is_ok());
    let result = manager.spawn_command("no-such-program", Err(refused()));
    assert_eq!(result.err(), Some(spawn_error()));
    // The earlier command is still the one that is cancelled.
    assert_eq!(manager.kill_running_command(), Ok(()));
    assert_eq!(earlier_rx.try_recv(), Ok(()));
}

#[test]
fn failed_spawn_on_an_empty_manager_leaves_nothing_to_cancel() {
    let mut manager = CommandManager::new();
    assert!(manager.spawn_command("no-such-program", Err(refused())).is_err());
    assert_eq!(manager.kill_running_command(), Ok(()));
}

#[test]
fn successful_spawn_gives_fresh_units() {
    let mut manager = CommandManager::new();
    let (sender, _receiver) = oneshot::channel::<()>();
    let mut running = manager.spawn_command("sleep", Ok(sender)).unwrap();
    assert!(!running.stdout.is_stopped());
    assert!(!running.stderr.is_stopped());
    assert!(!running.supervisor.is_done());
    assert_eq!(running.stdout.feed(b"a\n"), vec![CommandUpdate::NewLine("a".to_string())]);
    assert_eq!(
        running.stderr.feed(b"b\n"),
        vec![CommandUpdate::NewLine("[stderr] b".to_string())]
    );
    running.supervisor.step(SupervisorEvent::Exited(Some(0)));
    assert!(running.supervisor.is_done());
}

#[test]
fn kill_fires_the_stored_signal_once() {
    let mut manager = CommandManager::new();
    let (sender, mut receiver) = oneshot::channel::<()>();
    assert!(manager.spawn_command("sleep", Ok(sender)).is_ok());
    assert_eq!(receiver.try_recv(), Err(TryRecvError::Empty));
    assert_eq!(manager.kill_running_command(), Ok(()));
    assert_eq!(receiver.try_recv(), Ok(()));
    // The signal is used up: a second request is a no-op.
    assert_eq!(manager.kill_running_command(), Ok(()));
}

#[test]
fn kill_after_the_command_finished_is_tolerated() {
    let mut manager = CommandManager::new();
    let (sender, receiver) = oneshot::channel::<()>();
    assert!(manager.spawn_command("sleep", Ok(sender)).is_ok());
    drop(receiver);
    assert_eq!(manager.kill_running_command(), Ok(()));
}

#[test]
fn second_spawn_overwrites_the_slot() {
    let mut manager = CommandManager::new();
    let (first, mut first_rx) = oneshot::channel::<()>();
    let (second, mut second_rx) = oneshot::channel::<()>();
    assert!(manager.spawn_command("sleep", Ok(first)).is_ok());
    assert!(manager.spawn_command("sleep", Ok(second)).is_ok());
    assert_eq!(manager.kill_running_command(), Ok(()));
    assert_eq!(second_rx.try_recv(), Ok(()));
    // The first command can no longer be cancelled: its signal never comes.
    assert_eq!(first_rx.try_recv(), Err(TryRecvError::Closed));
}

#[test]
fn a_program_is_started_with_captured_output_and_no_input() {
    let request = CommandRequest {
        program: "echo".to_string(),
        args: vec!["a b".to_string(), "c".to_string()],
        cwd: "/tmp".to_string(),
    };
    assert_eq!(
        request.launch_plan(),
        LaunchPlan {
            program: "echo".to_string(),
            args: vec!["a b".to_string(), "c".to_string()],
            cwd: "/tmp".to_string(),
            stdin: StdioMode::Null,
            stdout: StdioMode::Piped,
            stderr: StdioMode::Piped,
            kill_on_drop: true,
        }
    );
}

#[test]
fn the_spawn_error_names_the_program_that_was_asked_for() {
    let mut manager = CommandManager::new();
    let error = manager.spawn_command("first", Err(refused())).err().unwrap();
    assert_eq!(error.program, "first");
    assert_eq!(error.reason, "No such file or directory (os error 2)");
    assert_eq!(error.message(), "first: No such file or directory (os error 2)");
    let failure = LaunchFailure::Uncaptured(StreamOrigin::Stderr);
    let error = manager.spawn_command("second", Err(failure)).err().unwrap();
    assert_eq!(error.program, "second");
    assert_eq!(error.reason, "Failed to capture stderr for command: second");
    let error = SpawnError::for_program("third", LaunchFailure::Uncaptured(StreamOrigin::Stdout));
    assert_eq!(error.program, "third");
    assert_eq!(error.reason, "Failed to capture stdout for command: third");
}

#[test]
fn an_uncaptured_stream_is_a_spawn_error() {
    let error = SpawnError::uncaptured("cat", StreamOrigin::Stdout);
    assert_eq!(error.program, "cat");
    assert_eq!(error.reason, "Failed to capture stdout for command: cat");
    let error = SpawnError::uncaptured("cat", StreamOrigin::Stderr);
    assert_eq!(error.reason, "Failed to capture stderr for command: cat");
    assert_eq!(error.message(), "cat: Failed to capture stderr for command: cat");
}
