//! The supervisor configuration and its state machine.
//!
//! [`SupervisedProcess`] holds the immutable configuration (command,
//! arguments, check interval, backoff delay, named health checks), the one
//! mutable policy field (the remaining restart budget), and the current
//! [`Phase`]. The machine is driven by [`SupervisedProcess::step`]: one event
//! in, a list of hooks to fire and the next action out, exactly as the pure
//! transition function [`spec_step`] prescribes.

use vstd::prelude::*;

use crate::event::{hook_views, Action, Event, Hook, HookView, Phase};
use crate::time::Duration;

verus! {

/// The mathematical value of a [`SupervisedProcess`].
#[verifier::ext_equal]
pub struct MachineView {
    /// The command to launch.
    pub process: Seq<char>,
    /// The command's arguments, in order.
    pub args: Seq<Seq<char>>,
    /// `None`: unlimited restarts; `Some(n)`: at most `n` further restarts.
    pub restart_times: Option<u64>,
    /// Milliseconds between test rounds while the process is alive.
    pub check_interval: u64,
    /// Milliseconds between killing a failed process and relaunching it.
    pub backoff_time: u64,
    /// The names of the health checks, in evaluation order.
    pub tests: Seq<Seq<char>>,
    /// Where the machine stands.
    pub phase: Phase,
}

impl MachineView {
    /// The phase never points past the registered checks.
    pub open spec fn wf(self) -> bool {
        match self.phase {
            Phase::Testing { next } => next < self.tests.len(),
            _ => true,
        }
    }

    /// Which event the machine is prepared to consume. The two terminal
    /// phases accept none.
    pub open spec fn accepts(self, ev: Event) -> bool {
        match self.phase {
            Phase::Launching => ev is Spawned,
            Phase::Waiting => ev is Slept,
            Phase::Testing { .. } => ev is TestResult,
            Phase::Deciding => ev is Killed,
            Phase::Backoff => ev is Slept,
            Phase::Stopped => false,
            Phase::Failed => false,
        }
    }

    /// This view with only the phase replaced.
    pub open spec fn with_phase(self, phase: Phase) -> MachineView {
        MachineView { phase, ..self }
    }
}

/// One transition's outcome: the machine after the event, the hooks it
/// fires (in order), and the action the driver must perform next.
#[verifier::ext_equal]
pub struct StepOutcome {
    pub state: MachineView,
    pub hooks: Seq<HookView>,
    pub action: Action,
}

/// The pure transition function of the supervision state machine.
///
/// - `Launching`: a successful spawn moves to `Waiting` (sleep one check
///   interval); a failed spawn is fatal and fires no hook.
/// - `Waiting`: when the interval has elapsed, a test round starts
///   (`TestRoundStart`); with no checks registered the round passes at once.
/// - `Testing { next }`: a passing check fires `TestOk(name)` and moves to
///   the following check, or — after the last — fires `AllTestsPassing` and
///   returns to `Waiting`. A failing check fires `TestError(name)` and moves
///   to `Deciding`; later checks are not evaluated (short circuit).
/// - `Deciding` (process killed, outcome ignored): a budget of `Some(0)`
///   fires `NoRestart` and stops, with no backoff; otherwise the budget is
///   decremented if finite and the backoff delay runs.
/// - `Backoff`: when the delay has elapsed, `Restart` fires and the machine
///   relaunches.
pub open spec fn spec_step(s: MachineView, ev: Event) -> StepOutcome {
    match (s.phase, ev) {
        (Phase::Launching, Event::Spawned(ok)) => if ok {
            StepOutcome {
                state: s.with_phase(Phase::Waiting),
                hooks: seq![],
                action: Action::SleepCheckInterval,
            }
        } else {
            StepOutcome { state: s.with_phase(Phase::Failed), hooks: seq![], action: Action::Fail }
        },
        (Phase::Waiting, Event::Slept) => if s.tests.len() == 0 {
            StepOutcome {
                state: s.with_phase(Phase::Waiting),
                hooks: seq![HookView::TestRoundStart, HookView::AllTestsPassing],
                action: Action::SleepCheckInterval,
            }
        } else {
            StepOutcome {
                state: s.with_phase(Phase::Testing { next: 0 }),
                hooks: seq![HookView::TestRoundStart],
                action: Action::EvalTest(0),
            }
        },
        (Phase::Testing { next }, Event::TestResult(healthy)) => if healthy {
            if next + 1 == s.tests.len() {
                StepOutcome {
                    state: s.with_phase(Phase::Waiting),
                    hooks: seq![
                        HookView::TestOk(s.tests[next as int]),
                        HookView::AllTestsPassing,
                    ],
                    action: Action::SleepCheckInterval,
                }
            } else {
                StepOutcome {
                    state: s.with_phase(Phase::Testing { next: (next + 1) as usize }),
                    hooks: seq![HookView::TestOk(s.tests[next as int])],
                    action: Action::EvalTest((next + 1) as usize),
                }
            }
        } else {
            StepOutcome {
                state: s.with_phase(Phase::Deciding),
                hooks: seq![HookView::TestError(s.tests[next as int])],
                action: Action::Kill,
            }
        },
        (Phase::Deciding, Event::Killed) => match s.restart_times {
            Option::Some(0u64) => StepOutcome {
                state: s.with_phase(Phase::Stopped),
                hooks: seq![HookView::NoRestart],
                action: Action::Stop,
            },
            Option::Some(times) => StepOutcome {
                state: MachineView {
                    restart_times: Option::Some((times - 1) as u64),
                    phase: Phase::Backoff,
                    ..s
                },
                hooks: seq![],
                action: Action::SleepBackoff,
            },
            Option::None => StepOutcome {
                state: s.with_phase(Phase::Backoff),
                hooks: seq![],
                action: Action::SleepBackoff,
            },
        },
        (Phase::Backoff, Event::Slept) => StepOutcome {
            state: s.with_phase(Phase::Launching),
            hooks: seq![HookView::Restart],
            action: Action::Spawn,
        },
        _ => StepOutcome { state: s, hooks: seq![], action: Action::Stop },
    }
}

/// One step never changes the configuration: the command, the arguments,
/// the intervals and the registered checks are the same after every step.
/// Only the phase and the restart budget move.
pub proof fn lemma_step_config_constant(s: MachineView, ev: Event)
    requires
        s.wf(),
        s.accepts(ev),
    ensures
        spec_step(s, ev).state.process == s.process,
        spec_step(s, ev).state.args == s.args,
        spec_step(s, ev).state.check_interval == s.check_interval,
        spec_step(s, ev).state.backoff_time == s.backoff_time,
        spec_step(s, ev).state.tests == s.tests,
{
}

/// A supervisor for one external process: configuration, restart budget and
/// current phase. Built with the `with_*` / `add_test` / `new` methods and
/// then driven by [`SupervisedProcess::step`].
pub struct SupervisedProcess {
    process: String,
    args: Vec<String>,
    restart_times: Option<u64>,
    check_interval: Duration,
    backoff_time: Duration,
    tests: Vec<String>,
    phase: Phase,
}

impl View for SupervisedProcess {
    type V = MachineView;

    closed spec fn view(&self) -> MachineView {
        MachineView {
            process: self.process@,
            args: self.args@.map_values(|a: String| a@),
            restart_times: self.restart_times,
            check_interval: self.check_interval.millis,
            backoff_time: self.backoff_time.millis,
            tests: self.tests@.map_values(|t: String| t@),
            phase: self.phase,
        }
    }
}

impl SupervisedProcess {
    /// A supervisor for `process`, with no arguments, no checks, an
    /// unlimited restart budget, and 30-second check interval and backoff.
    pub fn new(process: String) -> (r: SupervisedProcess)
        ensures
            r@.process == process@,
            r@.args.len() == 0,
            r@.restart_times is None,
            r@.check_interval == 30_000u64,
            r@.backoff_time == 30_000u64,
            r@.tests.len() == 0,
            r@.phase == Phase::Launching,
            r@.wf(),
    {
        let r = SupervisedProcess {
            process,
            args: Vec::new(),
            restart_times: Option::None,
            check_interval: Duration::from_millis(30_000),
            backoff_time: Duration::from_millis(30_000),
            tests: Vec::new(),
            phase: Phase::Launching,
        };
        proof {
            assert(r@.args =~= Seq::<Seq<char>>::empty());
            assert(r@.tests =~= Seq::<Seq<char>>::empty());
        }
        r
    }

    /// The same supervisor with the check interval replaced.
    pub fn with_check_interval(self, check_interval: Duration) -> (r: SupervisedProcess)
        ensures
            r@ == (MachineView { check_interval: check_interval.millis, ..self@ }),
    {
        SupervisedProcess { check_interval, ..self }
    }

    /// The same supervisor with the backoff delay replaced.
    pub fn with_backoff_time(self, backoff_time: Duration) -> (r: SupervisedProcess)
        ensures
            r@ == (MachineView { backoff_time: backoff_time.millis, ..self@ }),
    {
        SupervisedProcess { backoff_time, ..self }
    }

    /// The same supervisor with a finite restart budget: at most
    /// `restart_times` further relaunches will be granted.
    pub fn with_restart_times(self, restart_times: u64) -> (r: SupervisedProcess)
        ensures
            r@ == (MachineView { restart_times: Option::Some(restart_times), ..self@ }),
    {
        SupervisedProcess { restart_times: Option::Some(restart_times), ..self }
    }

    /// The same supervisor with the argument list replaced.
    pub fn with_args(self, args: Vec<String>) -> (r: SupervisedProcess)
        ensures
            r@ == (MachineView { args: args@.map_values(|a: String| a@), ..self@ }),
    {
        SupervisedProcess { args, ..self }
    }

    /// The same supervisor with one more named health check, appended at the
    /// end of the evaluation order. The predicate itself lives with the
    /// driver, aligned by index.
    pub fn add_test(self, name: &str) -> (r: SupervisedProcess)
        ensures
            r@ == (MachineView { tests: self@.tests.push(name@), ..self@ }),
    {
        let mut tests = self.tests;
        tests.push(name.to_owned());
        let r = SupervisedProcess { tests, ..self };
        proof {
            assert(r@.tests =~= self@.tests.push(name@));
            assert(r@ =~= (MachineView { tests: self@.tests.push(name@), ..self@ }));
        }
        r
    }

    /// Consult and update the restart budget: an unlimited budget always
    /// grants a restart; a positive budget grants one and is decremented; an
    /// exhausted budget refuses. Nothing else changes.
    pub fn should_restart(&mut self) -> (r: bool)
        ensures
            r == !(old(self)@.restart_times == Option::Some(0u64)),
            final(self)@ == (MachineView {
                restart_times: match old(self)@.restart_times {
                    Option::None => Option::None,
                    Option::Some(times) => if times == 0 {
                        Option::Some(0u64)
                    } else {
                        Option::Some((times - 1) as u64)
                    },
                },
                ..old(self)@
            }),
    {
        match self.restart_times {
            Option::None => true,
            Option::Some(0u64) => false,
            Option::Some(times) => {
                self.restart_times = Option::Some(times - 1);
                true
            },
        }
    }

    /// Whether the machine is prepared to consume `ev` in its current phase.
    /// A driver guards each call to [`SupervisedProcess::step`] with this.
    pub fn accepts_event(&self, ev: Event) -> (r: bool)
        ensures
            r == self@.accepts(ev),
    {
        match self.phase {
            Phase::Launching => matches!(ev, Event::Spawned(_)),
            Phase::Waiting => matches!(ev, Event::Slept),
            Phase::Testing { .. } => matches!(ev, Event::TestResult(_)),
            Phase::Deciding => matches!(ev, Event::Killed),
            Phase::Backoff => matches!(ev, Event::Slept),
            Phase::Stopped => false,
            Phase::Failed => false,
        }
    }

    /// Consume one event: move to the next phase, return the hooks to fire
    /// (in order) and the action the driver must perform next — exactly as
    /// [`spec_step`] prescribes.
    pub fn step(&mut self, ev: Event) -> (r: (Vec<Hook>, Action))
        requires
            old(self)@.wf(),
            old(self)@.accepts(ev),
        ensures
            final(self)@ == spec_step(old(self)@, ev).state,
            hook_views(r.0@) == spec_step(old(self)@, ev).hooks,
            r.0@.len() == spec_step(old(self)@, ev).hooks.len(),
            forall|j: int|
                0 <= j < r.0@.len() ==> (#[trigger] r.0@[j])@ == spec_step(old(self)@, ev).hooks[j],
            r.1 == spec_step(old(self)@, ev).action,
            final(self)@.wf(),
    {
        let ghost outcome = spec_step(old(self)@, ev);
        let mut hooks: Vec<Hook> = Vec::new();
        let action: Action;
        match (self.phase, ev) {
            (Phase::Launching, Event::Spawned(true)) => {
                self.phase = Phase::Waiting;
                action = Action::SleepCheckInterval;
            },
            (Phase::Launching, Event::Spawned(false)) => {
                self.phase = Phase::Failed;
                action = Action::Fail;
            },
            (Phase::Waiting, Event::Slept) => {
                hooks.push(Hook::TestRoundStart);
                if self.tests.len() == 0 {
                    hooks.push(Hook::AllTestsPassing);
                    self.phase = Phase::Waiting;
                    action = Action::SleepCheckInterval;
                } else {
                    self.phase = Phase::Testing { next: 0 };
                    action = Action::EvalTest(0);
                }
            },
            (Phase::Testing { next }, Event::TestResult(healthy)) => {
                proof {
                    assert(self@.tests.len() == self.tests@.len());
                    assert(next < self.tests@.len());
                }
                let len = self.tests.len();
                let name = self.tests[next].clone();
                if healthy {
                    hooks.push(Hook::TestOk(name));
                    if next + 1 == len {
                        hooks.push(Hook::AllTestsPassing);
                        self.phase = Phase::Waiting;
                        action = Action::SleepCheckInterval;
                    } else {
                        self.phase = Phase::Testing { next: next + 1 };
                        action = Action::EvalTest(next + 1);
                    }
                } else {
                    hooks.push(Hook::TestError(name));
                    self.phase = Phase::Deciding;
                    action = Action::Kill;
                }
            },
            (Phase::Deciding, Event::Killed) => {
                if self.should_restart() {
                    self.phase = Phase::Backoff;
                    action = Action::SleepBackoff;
                } else {
                    hooks.push(Hook::NoRestart);
                    self.phase = Phase::Stopped;
                    action = Action::Stop;
                }
            },
            (Phase::Backoff, Event::Slept) => {
                hooks.push(Hook::Restart);
                self.phase = Phase::Launching;
                action = Action::Spawn;
            },
            _ => {
                proof {
                    assert(false);
                }
                action = Action::Stop;
            },
        }
        proof {
            assert(self@ =~= outcome.state);
            assert(hook_views(hooks@) =~= outcome.hooks);
        }
        (hooks, action)
    }

    /// The configured check interval.
    pub fn check_interval(&self) -> (r: Duration)
        ensures
            r.millis == self@.check_interval,
    {
        self.check_interval
    }

    /// The configured backoff delay.
    pub fn backoff_time(&self) -> (r: Duration)
        ensures
            r.millis == self@.backoff_time,
    {
        self.backoff_time
    }

    /// The remaining restart budget (`None`: unlimited).
    pub fn restart_times(&self) -> (r: Option<u64>)
        ensures
            r == self@.restart_times,
    {
        self.restart_times
    }

    /// The command to launch.
    pub fn process(&self) -> (r: &String)
        ensures
            r@ == self@.process,
    {
        &self.process
    }

    /// The command's arguments, in order.
    pub fn args(&self) -> (r: &Vec<String>)
        ensures
            r@.map_values(|a: String| a@) == self@.args,
    {
        &self.args
    }

    /// The names of the registered health checks, in evaluation order.
    pub fn test_names(&self) -> (r: &Vec<String>)
        ensures
            r@.map_values(|t: String| t@) == self@.tests,
    {
        &self.tests
    }

    /// The machine's current phase.
    pub fn phase(&self) -> (r: Phase)
        ensures
            r == self@.phase,
    {
        self.phase
    }
}

} // verus!
