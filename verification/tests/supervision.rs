use supervisor::event::{Action, Event, Hook, Phase};
use supervisor::machine::SupervisedProcess;
use supervisor::time::Duration;

/// The events of one spawn cycle whose single health check fails, with the
/// restart granted: launch, interval, failing verdict, kill, backoff.
fn failing_cycle_granted() -> Vec<Event> {
    vec![
        Event::Spawned(true),
        Event::Slept,
        Event::TestResult(false),
        Event::Killed,
        Event::Slept,
    ]
}

/// The same cycle under an exhausted budget: no backoff runs.
fn failing_cycle_refused() -> Vec<Event> {
    vec![Event::Spawned(true), Event::Slept, Event::TestResult(false), Event::Killed]
}

/// A full always-failing run against a budget of `n`.
fn always_failing_script(n: usize) -> Vec<Event> {
    let mut script = Vec::new();
    for _ in 0..n {
        script.extend(failing_cycle_granted());
    }
    script.extend(failing_cycle_refused());
    script
}

fn count(hooks: &[Hook], wanted: &Hook) -> usize {
    hooks.iter().filter(|h| *h == wanted).count()
}

#[test]
fn it_builds_a_process_with_check_interval() {
    let process =
        SupervisedProcess::new("test".to_string()).with_check_interval(Duration::from_secs(15));
    assert_eq!(process.check_interval(), Duration::from_secs(15));
}

#[test]
fn it_builds_a_process_with_backoff_time() {
    let process =
        SupervisedProcess::new("test".to_string()).with_backoff_time(Duration::from_secs(15));
    assert_eq!(process.backoff_time(), Duration::from_secs(15));
}

#[test]
fn it_builds_a_process_adding_a_test() {
    let process = SupervisedProcess::new("test".to_string()).add_test("always false");
    assert_eq!(process.test_names().len(), 1);
}

#[test]
fn builder_defaults() {
    let process = SupervisedProcess::new("test".to_string());
    assert_eq!(process.check_interval(), Duration::from_secs(30));
    assert_eq!(process.backoff_time(), Duration::from_secs(30));
    assert_eq!(process.restart_times(), None);
    assert_eq!(process.process(), &"test".to_string());
    assert!(process.args().is_empty());
    assert!(process.test_names().is_empty());
    assert_eq!(process.phase(), Phase::Launching);
}

#[test]
fn builder_sets_args_and_budget() {
    let process = SupervisedProcess::new("echo".to_string())
        .with_args(vec!["-n".to_string()])
        .with_restart_times(3);
    assert_eq!(process.args(), &vec!["-n".to_string()]);
    assert_eq!(process.restart_times(), Some(3));
}

#[test]
fn duration_conversions() {
    assert_eq!(Duration::from_secs(15), Duration::from_millis(15_000));
    assert_eq!(Duration::from_millis(80).as_millis(), 80);
}

#[test]
fn should_restart_counts_down() {
    let mut process = SupervisedProcess::new("echo".to_string()).with_restart_times(2);
    assert!(process.should_restart());
    assert_eq!(process.restart_times(), Some(1));
    assert!(process.should_restart());
    assert_eq!(process.restart_times(), Some(0));
    assert!(!process.should_restart());
    assert_eq!(process.restart_times(), Some(0));
}

#[test]
fn should_restart_unlimited_budget() {
    let mut process = SupervisedProcess::new("echo".to_string());
    for _ in 0..100 {
        assert!(process.should_restart());
    }
    assert_eq!(process.restart_times(), None);
}

#[test]
fn event_on_restart_fires_once_per_granted_restart() {
    let mut process = SupervisedProcess::new("echo".to_string())
        .with_args(vec!["-n".to_string()])
        .add_test("always false")
        .with_check_interval(Duration::from_millis(1))
        .with_backoff_time(Duration::from_millis(1))
        .with_restart_times(1);
    let hooks = process.run_script(&always_failing_script(1));
    assert_eq!(count(&hooks, &Hook::Restart), 1);
    assert_eq!(process.phase(), Phase::Stopped);
}

#[test]
fn event_on_no_restart_fires_once() {
    let mut process = SupervisedProcess::new("echo".to_string())
        .with_args(vec!["-n".to_string()])
        .add_test("always false")
        .with_check_interval(Duration::from_millis(1))
        .with_backoff_time(Duration::from_millis(1))
        .with_restart_times(1);
    let hooks = process.run_script(&always_failing_script(1));
    assert_eq!(count(&hooks, &Hook::NoRestart), 1);
}

#[test]
fn budget_exhaustion_counts_for_larger_budgets() {
    for n in 0..5usize {
        let mut process = SupervisedProcess::new("echo".to_string())
            .add_test("always false")
            .with_restart_times(n as u64);
        let hooks = process.run_script(&always_failing_script(n));
        assert_eq!(count(&hooks, &Hook::Restart), n);
        assert_eq!(count(&hooks, &Hook::NoRestart), 1);
        assert_eq!(count(&hooks, &Hook::AllTestsPassing), 0);
        assert_eq!(process.phase(), Phase::Stopped);
        assert_eq!(process.restart_times(), Some(0));
    }
}

#[test]
fn unlimited_budget_restarts_without_bound() {
    let mut process = SupervisedProcess::new("echo".to_string()).add_test("always false");
    let mut script = Vec::new();
    for _ in 0..25 {
        script.extend(failing_cycle_granted());
    }
    let hooks = process.run_script(&script);
    assert_eq!(count(&hooks, &Hook::Restart), 25);
    assert_eq!(count(&hooks, &Hook::NoRestart), 0);
    assert_eq!(process.phase(), Phase::Launching);
    assert_eq!(process.restart_times(), None);
}

#[test]
fn event_on_test_error_carries_the_name() {
    let mut process = SupervisedProcess::new("echo".to_string())
        .with_args(vec!["-n".to_string()])
        .add_test("always false")
        .with_check_interval(Duration::from_millis(1))
        .with_backoff_time(Duration::from_millis(1))
        .with_restart_times(0);
    let hooks = process.run_script(&always_failing_script(0));
    assert_eq!(
        hooks,
        vec![
            Hook::TestRoundStart,
            Hook::TestError("always false".to_string()),
            Hook::NoRestart,
        ]
    );
}

#[test]
fn event_on_test_round_start_fires_each_round() {
    let mut process = SupervisedProcess::new("echo".to_string())
        .add_test("always false")
        .with_restart_times(1);
    let hooks = process.run_script(&always_failing_script(1));
    assert_eq!(count(&hooks, &Hook::TestRoundStart), 2);
}

#[test]
fn all_tests_passing_fires_once_per_interval() {
    let mut process = SupervisedProcess::new("sleep".to_string())
        .with_args(vec!["0.1".to_string()])
        .add_test("not running")
        .with_check_interval(Duration::from_millis(80));
    let mut script = vec![Event::Spawned(true)];
    for _ in 0..3 {
        script.push(Event::Slept);
        script.push(Event::TestResult(true));
    }
    let hooks = process.run_script(&script);
    assert_eq!(count(&hooks, &Hook::AllTestsPassing), 3);
    assert_eq!(count(&hooks, &Hook::Restart), 0);
    assert_eq!(count(&hooks, &Hook::NoRestart), 0);
    assert_eq!(count(&hooks, &Hook::TestOk("not running".to_string())), 3);
    assert_eq!(process.phase(), Phase::Waiting);
}

#[test]
fn round_with_no_tests_passes_at_once() {
    let mut process = SupervisedProcess::new("echo".to_string());
    let hooks = process.run_script(&vec![Event::Spawned(true), Event::Slept]);
    assert_eq!(hooks, vec![Hook::TestRoundStart, Hook::AllTestsPassing]);
    assert_eq!(process.phase(), Phase::Waiting);
}

#[test]
fn short_circuit_skips_checks_after_the_failure() {
    let mut process = SupervisedProcess::new("echo".to_string())
        .add_test("A")
        .add_test("B")
        .add_test("C");
    let hooks = process.run_script(&vec![
        Event::Spawned(true),
        Event::Slept,
        Event::TestResult(true),
    ]);
    assert_eq!(hooks, vec![Hook::TestRoundStart, Hook::TestOk("A".to_string())]);
    let (hooks, action) = process.step(Event::TestResult(false));
    assert_eq!(hooks, vec![Hook::TestError("B".to_string())]);
    assert_eq!(action, Action::Kill);
    assert_eq!(process.phase(), Phase::Deciding);
}

#[test]
fn launch_failure_fires_no_hook() {
    let mut process = SupervisedProcess::new("nonexistent-command".to_string())
        .add_test("always false")
        .with_restart_times(5);
    let (hooks, action) = process.step(Event::Spawned(false));
    assert!(hooks.is_empty());
    assert_eq!(action, Action::Fail);
    assert_eq!(process.phase(), Phase::Failed);
    assert!(!process.accepts_event(Event::Slept));
    assert!(!process.accepts_event(Event::Spawned(true)));
}

#[test]
fn identical_configurations_run_identically() {
    let build = || {
        SupervisedProcess::new("echo".to_string())
            .with_args(vec!["-n".to_string()])
            .add_test("always false")
            .with_check_interval(Duration::from_millis(1))
            .with_backoff_time(Duration::from_millis(1))
            .with_restart_times(2)
    };
    let script = always_failing_script(2);
    let mut first = build();
    let mut second = build();
    let first_hooks = first.run_script(&script);
    let second_hooks = second.run_script(&script);
    assert_eq!(first_hooks, second_hooks);
    assert_eq!(first.phase(), second.phase());
    assert_eq!(first.restart_times(), second.restart_times());
}

#[test]
fn expected_hook_trace_for_budget_one() {
    let mut process = SupervisedProcess::new("echo".to_string())
        .with_args(vec!["-n".to_string()])
        .add_test("always-false")
        .with_check_interval(Duration::from_millis(1))
        .with_backoff_time(Duration::from_millis(1))
        .with_restart_times(1);
    let hooks = process.run_script(&always_failing_script(1));
    assert_eq!(
        hooks,
        vec![
            Hook::TestRoundStart,
            Hook::TestError("always-false".to_string()),
            Hook::Restart,
            Hook::TestRoundStart,
            Hook::TestError("always-false".to_string()),
            Hook::NoRestart,
        ]
    );
    assert_eq!(process.phase(), Phase::Stopped);
}

#[test]
fn terminal_phases_accept_no_event() {
    let mut process = SupervisedProcess::new("echo".to_string())
        .add_test("always false")
        .with_restart_times(0);
    process.run_script(&always_failing_script(0));
    assert_eq!(process.phase(), Phase::Stopped);
    assert!(!process.accepts_event(Event::Spawned(true)));
    assert!(!process.accepts_event(Event::Slept));
    assert!(!process.accepts_event(Event::TestResult(true)));
    assert!(!process.accepts_event(Event::Killed));
}

#[test]
fn accepts_follows_the_phase() {
    let mut process = SupervisedProcess::new("echo".to_string()).add_test("t");
    assert!(process.accepts_event(Event::Spawned(true)));
    assert!(!process.accepts_event(Event::Slept));
    process.step(Event::Spawned(true));
    assert!(process.accepts_event(Event::Slept));
    assert!(!process.accepts_event(Event::Killed));
    process.step(Event::Slept);
    assert!(process.accepts_event(Event::TestResult(false)));
    process.step(Event::TestResult(false));
    assert!(process.accepts_event(Event::Killed));
    process.step(Event::Killed);
    assert!(process.accepts_event(Event::Slept));
    process.step(Event::Slept);
    assert_eq!(process.phase(), Phase::Launching);
    assert_eq!(process.restart_times(), None);
}
