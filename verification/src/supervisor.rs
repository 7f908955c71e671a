//! Supervision of a child process under a hard wall-clock budget.
//!
//! The crate never spawns or kills a process itself. Instead the caller runs
//! a poll loop on a fixed cadence: it checks the child without blocking,
//! reports the outcome as a [`PollStatus`], and this module decides — via
//! [`supervise_step`] — whether to return the output, fail, kill the child,
//! or sleep one interval and poll again.

use vstd::prelude::*;

use crate::Error;

verus! {

/// Milliseconds slept between two liveness polls of a supervised process.
pub const POLL_INTERVAL_MS: u64 = 50;

/// What a non-blocking liveness check of the child reported.
pub enum PollStatus {
    /// The process has not exited yet.
    Running,
    /// The process exited with a success status; the captured stdout follows.
    ExitedOk(String),
    /// The process exited with a non-success status.
    ExitedErr,
}

/// What the poll loop must do next.
pub enum StepAction {
    /// Supervision is over: return this captured output.
    Deliver(String),
    /// Supervision is over: fail with this error.
    Fail(Error),
    /// Forcibly terminate the child, then fail with this error.
    KillChild(Error),
    /// Sleep one poll interval and poll again.
    Sleep,
}

/// The supervision rule: exit with success returns the output, exit with
/// failure reports `CommandFailed`, and a process still running past its
/// budget is killed and reported as `Timeout`; otherwise keep polling.
pub open spec fn spec_supervise_step(
    status: PollStatus,
    elapsed_ms: u64,
    timeout_ms: u64,
) -> StepAction {
    match status {
        PollStatus::ExitedOk(text) => StepAction::Deliver(text),
        PollStatus::ExitedErr => StepAction::Fail(Error::CommandFailed),
        PollStatus::Running => if elapsed_ms > timeout_ms {
            StepAction::KillChild(Error::Timeout)
        } else {
            StepAction::Sleep
        },
    }
}

/// One decision of the supervision loop, given the latest liveness check and
/// the wall-clock time elapsed since the process was spawned.
pub fn supervise_step(status: PollStatus, elapsed_ms: u64, timeout_ms: u64) -> (action: StepAction)
    ensures
        action == spec_supervise_step(status, elapsed_ms, timeout_ms),
{
    match status {
        PollStatus::ExitedOk(text) => StepAction::Deliver(text),
        PollStatus::ExitedErr => StepAction::Fail(Error::CommandFailed),
        PollStatus::Running => if elapsed_ms > timeout_ms {
            StepAction::KillChild(Error::Timeout)
        } else {
            StepAction::Sleep
        },
    }
}

/// An environment variable set on a spawned child (never on the calling
/// process itself).
#[derive(Clone, Debug)]
pub struct EnvVar {
    pub name: String,
    pub value: String,
}

/// Model of an [`EnvVar`]: the pair of its texts.
#[verifier::ext_equal]
pub struct EnvVarView {
    pub name: Seq<char>,
    pub value: Seq<char>,
}

impl View for EnvVar {
    type V = EnvVarView;

    open spec fn view(&self) -> EnvVarView {
        EnvVarView { name: self.name@, value: self.value@ }
    }
}

impl DeepView for EnvVar {
    type V = EnvVarView;

    open spec fn deep_view(&self) -> EnvVarView {
        self.view()
    }
}

/// Everything needed to run one supervised child: program, arguments, the
/// environment overrides attached to it, and its wall-clock budget.
#[derive(Clone, Debug)]
pub struct CommandSpec {
    pub program: String,
    pub args: Vec<String>,
    pub env: Vec<EnvVar>,
    pub timeout_ms: u64,
}

/// Model of a [`CommandSpec`].
#[verifier::ext_equal]
pub struct CommandSpecView {
    pub program: Seq<char>,
    pub args: Seq<Seq<char>>,
    pub env: Seq<EnvVarView>,
    pub timeout_ms: u64,
}

impl View for CommandSpec {
    type V = CommandSpecView;

    open spec fn view(&self) -> CommandSpecView {
        CommandSpecView {
            program: self.program@,
            args: self.args.deep_view(),
            env: self.env.deep_view(),
            timeout_ms: self.timeout_ms,
        }
    }
}

} // verus!
