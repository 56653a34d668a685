//! The vocabulary of the supervision state machine: the phases it moves
//! through, the events the driver feeds it, the actions it asks the driver to
//! perform, and the notification hooks it fires.

use vstd::prelude::*;

verus! {

/// Where the machine stands inside one spawn cycle.
#[derive(Clone, Copy, Debug, PartialEq, Eq, Structural)]
pub enum Phase {
    /// The external process must be (re)launched.
    Launching,
    /// The process is presumed healthy; the next test round starts after one
    /// check interval.
    Waiting,
    /// A test round is under way; the check at index `next` is to be
    /// evaluated next.
    Testing { next: usize },
    /// A check failed this round; the process is being terminated before the
    /// restart decision.
    Deciding,
    /// A restart was granted; the backoff delay runs before the relaunch.
    Backoff,
    /// Terminal: the restart budget is exhausted and supervision has ended,
    /// by design.
    Stopped,
    /// Terminal: the process could not be launched.
    Failed,
}

/// What happened in the outside world, reported by the driver.
#[derive(Clone, Copy, Debug, PartialEq, Eq, Structural)]
pub enum Event {
    /// A launch attempt finished; `true` means a live process handle exists.
    Spawned(bool),
    /// The sleep the machine asked for has elapsed.
    Slept,
    /// The health check the machine asked for returned this verdict
    /// (`true` means healthy).
    TestResult(bool),
    /// The terminate request was issued (its outcome is deliberately
    /// ignored: the process may already be gone).
    Killed,
}

/// What the driver must do next.
#[derive(Clone, Copy, Debug, PartialEq, Eq, Structural)]
pub enum Action {
    /// Launch the external process and report `Event::Spawned`.
    Spawn,
    /// Sleep for the check interval and report `Event::Slept`.
    SleepCheckInterval,
    /// Evaluate the health check at this index against the live handle and
    /// report `Event::TestResult`.
    EvalTest(usize),
    /// Terminate the live process, ignore the outcome, and report
    /// `Event::Killed`.
    Kill,
    /// Sleep for the backoff delay and report `Event::Slept`.
    SleepBackoff,
    /// Supervision is over; return success.
    Stop,
    /// The launch failed; return `RunError::LaunchFailure`.
    Fail,
}

/// A notification to deliver to the configured callbacks. Each value stands
/// for exactly one occurrence of its event.
#[derive(Debug, PartialEq, Eq)]
pub enum Hook {
    /// A test round is starting.
    TestRoundStart,
    /// The named check was evaluated and passed.
    TestOk(String),
    /// The named check was evaluated and failed.
    TestError(String),
    /// Every check of this round passed.
    AllTestsPassing,
    /// A restart was granted; the relaunch is about to happen.
    Restart,
    /// The restart budget is exhausted; supervision ends.
    NoRestart,
}

/// The mathematical value of a [`Hook`]: names as character sequences.
pub enum HookView {
    TestRoundStart,
    TestOk(Seq<char>),
    TestError(Seq<char>),
    AllTestsPassing,
    Restart,
    NoRestart,
}

impl View for Hook {
    type V = HookView;

    open spec fn view(&self) -> HookView {
        match self {
            Hook::TestRoundStart => HookView::TestRoundStart,
            Hook::TestOk(name) => HookView::TestOk(name@),
            Hook::TestError(name) => HookView::TestError(name@),
            Hook::AllTestsPassing => HookView::AllTestsPassing,
            Hook::Restart => HookView::Restart,
            Hook::NoRestart => HookView::NoRestart,
        }
    }
}

/// The views of a sequence of hooks, in order.
pub open spec fn hook_views(hooks: Seq<Hook>) -> Seq<HookView> {
    hooks.map_values(|h: Hook| h@)
}

} // verus!
