use rlhelp::supervisor::{supervise_step, PollStatus, StepAction, POLL_INTERVAL_MS};
use rlhelp::Error;

#[test]
fn successful_exit_delivers_the_captured_output() {
    match supervise_step(PollStatus::ExitedOk("usage: ...".to_string()), 120, 1000) {
        StepAction::Deliver(text) => assert_eq!(text, "usage: ..."),
        _ => panic!("a successful exit must deliver its output"),
    }
}

#[test]
fn failed_exit_is_command_failed() {
    assert!(matches!(
        supervise_step(PollStatus::ExitedErr, 10, 1000),
        StepAction::Fail(Error::CommandFailed)
    ));
}

#[test]
fn running_past_the_budget_kills_with_timeout() {
    // one millisecond over a one-second budget: kill and report Timeout
    assert!(matches!(
        supervise_step(PollStatus::Running, 1001, 1000),
        StepAction::KillChild(Error::Timeout)
    ));
}

#[test]
fn running_at_the_budget_keeps_polling() {
    assert!(matches!(supervise_step(PollStatus::Running, 1000, 1000), StepAction::Sleep));
    assert!(matches!(supervise_step(PollStatus::Running, 0, 1000), StepAction::Sleep));
}

#[test]
fn poll_interval_is_fifty_milliseconds() {
    assert_eq!(POLL_INTERVAL_MS, 50);
}
