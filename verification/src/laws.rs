//! The laws of the supervision policy, stated over the trace semantics and
//! proved once and for all: budget exhaustion, unbounded restarts under an
//! unlimited budget, quiet rounds under passing checks, short-circuit
//! evaluation, hook-free launch failure, and determinism of whole runs.

use vstd::prelude::*;

use crate::event::{Action, Event, HookView, Phase};
use crate::machine::{spec_step, MachineView};
use crate::trace::{lemma_script_concat, lemma_script_snoc, script_end, script_hooks, script_ok};

verus! {

/// The payload-free kind of a hook, for counting occurrences in a trace.
pub enum HookKind {
    TestRoundStart,
    TestOk,
    TestError,
    AllTestsPassing,
    Restart,
    NoRestart,
}

/// The kind of a hook, with its name (if any) forgotten.
pub open spec fn kind_of(h: HookView) -> HookKind {
    match h {
        HookView::TestRoundStart => HookKind::TestRoundStart,
        HookView::TestOk(_) => HookKind::TestOk,
        HookView::TestError(_) => HookKind::TestError,
        HookView::AllTestsPassing => HookKind::AllTestsPassing,
        HookView::Restart => HookKind::Restart,
        HookView::NoRestart => HookKind::NoRestart,
    }
}

/// How many hooks of kind `k` a trace holds.
pub open spec fn count_kind(hs: Seq<HookView>, k: HookKind) -> nat
    decreases hs.len(),
{
    if hs.len() == 0 {
        0
    } else {
        (if kind_of(hs[0]) == k {
            1nat
        } else {
            0nat
        }) + count_kind(hs.drop_first(), k)
    }
}

/// Counting distributes over concatenation of traces.
pub proof fn lemma_count_kind_concat(a: Seq<HookView>, b: Seq<HookView>, k: HookKind)
    ensures
        count_kind(a + b, k) == count_kind(a, k) + count_kind(b, k),
    decreases a.len(),
{
    if a.len() == 0 {
        assert(a + b =~= b);
    } else {
        assert((a + b)[0] == a[0]);
        assert((a + b).drop_first() =~= a.drop_first() + b);
        lemma_count_kind_concat(a.drop_first(), b, k);
    }
}

/// The count in a one-hook trace.
pub proof fn lemma_count_kind_single(h: HookView, k: HookKind)
    ensures
        count_kind(seq![h], k) == if kind_of(h) == k {
            1nat
        } else {
            0nat
        },
{
    assert(seq![h].drop_first() =~= Seq::<HookView>::empty());
    assert(count_kind(Seq::<HookView>::empty(), k) == 0);
    assert(seq![h][0] == h);
}

/// The count in a three-hook trace.
pub proof fn lemma_count_kind_three(x: HookView, y: HookView, z: HookView, k: HookKind)
    ensures
        count_kind(seq![x, y, z], k) == (if kind_of(x) == k {
            1nat
        } else {
            0nat
        }) + (if kind_of(y) == k {
            1nat
        } else {
            0nat
        }) + (if kind_of(z) == k {
            1nat
        } else {
            0nat
        }),
{
    assert(seq![x, y, z] =~= seq![x] + (seq![y] + seq![z]));
    lemma_count_kind_concat(seq![x], seq![y] + seq![z], k);
    lemma_count_kind_concat(seq![y], seq![z], k);
    lemma_count_kind_single(x, k);
    lemma_count_kind_single(y, k);
    lemma_count_kind_single(z, k);
}

/// A trace with no hook of kind `k` counts zero.
pub proof fn lemma_count_kind_none(hs: Seq<HookView>, k: HookKind)
    requires
        forall|j: int| 0 <= j < hs.len() ==> kind_of(hs[j]) != k,
    ensures
        count_kind(hs, k) == 0,
    decreases hs.len(),
{
    if hs.len() != 0 {
        lemma_count_kind_none(hs.drop_first(), k);
    }
}

/// One restart granted: a finite budget falls by one, an unlimited budget
/// stays unlimited.
pub open spec fn spend_one(budget: Option<u64>) -> Option<u64> {
    match budget {
        Option::None => Option::None,
        Option::Some(times) => Option::Some((times - 1) as u64),
    }
}

/// The events of one spawn cycle whose first health check fails and whose
/// restart is granted: launch, one check interval, the failing verdict, the
/// kill, and the backoff delay.
pub open spec fn failing_cycle_granted() -> Seq<Event> {
    seq![
        Event::Spawned(true),
        Event::Slept,
        Event::TestResult(false),
        Event::Killed,
        Event::Slept,
    ]
}

/// The events of the last spawn cycle under an exhausted budget: as above,
/// but no backoff runs — no relaunch is coming.
pub open spec fn failing_cycle_refused() -> Seq<Event> {
    seq![Event::Spawned(true), Event::Slept, Event::TestResult(false), Event::Killed]
}

/// One failing cycle with budget left: the trace is exactly
/// `TestRoundStart, TestError(first check), Restart`; the budget falls by
/// one (if finite) and the machine is back at `Launching`.
pub proof fn lemma_failing_cycle_granted(s: MachineView)
    requires
        s.wf(),
        s.phase == Phase::Launching,
        s.tests.len() >= 1,
        s.restart_times != Option::Some(0u64),
    ensures
        script_ok(s, failing_cycle_granted()),
        script_hooks(s, failing_cycle_granted()) == seq![
            HookView::TestRoundStart,
            HookView::TestError(s.tests[0]),
            HookView::Restart,
        ],
        script_end(s, failing_cycle_granted()) == (MachineView {
            restart_times: spend_one(s.restart_times),
            ..s
        }),
{
    let e0 = Event::Spawned(true);
    let e1 = Event::Slept;
    let e2 = Event::TestResult(false);
    let e3 = Event::Killed;
    let e4 = Event::Slept;
    let p0 = Seq::<Event>::empty();
    let p1 = p0.push(e0);
    let p2 = p1.push(e1);
    let p3 = p2.push(e2);
    let p4 = p3.push(e3);
    let p5 = p4.push(e4);
    assert(failing_cycle_granted() =~= p5);
    lemma_script_snoc(s, p0, e0);
    let s1 = spec_step(s, e0).state;
    lemma_script_snoc(s, p1, e1);
    let s2 = spec_step(s1, e1).state;
    lemma_script_snoc(s, p2, e2);
    let s3 = spec_step(s2, e2).state;
    lemma_script_snoc(s, p3, e3);
    let s4 = spec_step(s3, e3).state;
    lemma_script_snoc(s, p4, e4);
    assert(script_hooks(s, p5) =~= seq![
        HookView::TestRoundStart,
        HookView::TestError(s.tests[0]),
        HookView::Restart,
    ]);
    assert(script_end(s, p5) =~= (MachineView { restart_times: spend_one(s.restart_times), ..s }));
}

/// One failing cycle with the budget exhausted: the trace is exactly
/// `TestRoundStart, TestError(first check), NoRestart`, no backoff runs, and
/// the machine stops for good.
pub proof fn lemma_failing_cycle_refused(s: MachineView)
    requires
        s.wf(),
        s.phase == Phase::Launching,
        s.tests.len() >= 1,
        s.restart_times == Option::Some(0u64),
    ensures
        script_ok(s, failing_cycle_refused()),
        script_hooks(s, failing_cycle_refused()) == seq![
            HookView::TestRoundStart,
            HookView::TestError(s.tests[0]),
            HookView::NoRestart,
        ],
        script_end(s, failing_cycle_refused()) == s.with_phase(Phase::Stopped),
{
    let e0 = Event::Spawned(true);
    let e1 = Event::Slept;
    let e2 = Event::TestResult(false);
    let e3 = Event::Killed;
    let p0 = Seq::<Event>::empty();
    let p1 = p0.push(e0);
    let p2 = p1.push(e1);
    let p3 = p2.push(e2);
    let p4 = p3.push(e3);
    assert(failing_cycle_refused() =~= p4);
    lemma_script_snoc(s, p0, e0);
    let s1 = spec_step(s, e0).state;
    lemma_script_snoc(s, p1, e1);
    let s2 = spec_step(s1, e1).state;
    lemma_script_snoc(s, p2, e2);
    let s3 = spec_step(s2, e2).state;
    lemma_script_snoc(s, p3, e3);
    assert(script_hooks(s, p4) =~= seq![
        HookView::TestRoundStart,
        HookView::TestError(s.tests[0]),
        HookView::NoRestart,
    ]);
    assert(script_end(s, p4) =~= s.with_phase(Phase::Stopped));
}

/// The events of a whole run under always-failing checks and a budget of
/// `n`: `n` granted cycles, then the refused one.
pub open spec fn always_failing_events(n: nat) -> Seq<Event>
    decreases n,
{
    if n == 0 {
        failing_cycle_refused()
    } else {
        failing_cycle_granted() + always_failing_events((n - 1) as nat)
    }
}

/// Budget exhaustion: under a finite restart budget `n` and health checks
/// that always fail, the process is relaunched exactly `n` times —
/// `Restart` fires exactly `n` times and `NoRestart` exactly once — and the
/// machine then stops for good (the driver's `run` returns success).
pub proof fn lemma_budget_exhaustion(s: MachineView, n: u64)
    requires
        s.wf(),
        s.phase == Phase::Launching,
        s.tests.len() >= 1,
        s.restart_times == Option::Some(n),
    ensures
        script_ok(s, always_failing_events(n as nat)),
        count_kind(script_hooks(s, always_failing_events(n as nat)), HookKind::Restart) == n,
        count_kind(script_hooks(s, always_failing_events(n as nat)), HookKind::NoRestart) == 1,
        count_kind(script_hooks(s, always_failing_events(n as nat)), HookKind::AllTestsPassing)
            == 0,
        script_end(s, always_failing_events(n as nat)) == (MachineView {
            restart_times: Option::Some(0u64),
            phase: Phase::Stopped,
            ..s
        }),
    decreases n,
{
    if n == 0 {
        lemma_failing_cycle_refused(s);
        lemma_count_kind_three(
            HookView::TestRoundStart,
            HookView::TestError(s.tests[0]),
            HookView::NoRestart,
            HookKind::Restart,
        );
        lemma_count_kind_three(
            HookView::TestRoundStart,
            HookView::TestError(s.tests[0]),
            HookView::NoRestart,
            HookKind::NoRestart,
        );
        lemma_count_kind_three(
            HookView::TestRoundStart,
            HookView::TestError(s.tests[0]),
            HookView::NoRestart,
            HookKind::AllTestsPassing,
        );
        assert(script_end(s, always_failing_events(0)) =~= (MachineView {
            restart_times: Option::Some(0u64),
            phase: Phase::Stopped,
            ..s
        }));
    } else {
        lemma_failing_cycle_granted(s);
        let mid = script_end(s, failing_cycle_granted());
        lemma_budget_exhaustion(mid, (n - 1) as u64);
        lemma_script_concat(s, failing_cycle_granted(), always_failing_events((n - 1) as nat));
        lemma_count_kind_concat(
            script_hooks(s, failing_cycle_granted()),
            script_hooks(mid, always_failing_events((n - 1) as nat)),
            HookKind::Restart,
        );
        lemma_count_kind_concat(
            script_hooks(s, failing_cycle_granted()),
            script_hooks(mid, always_failing_events((n - 1) as nat)),
            HookKind::NoRestart,
        );
        lemma_count_kind_concat(
            script_hooks(s, failing_cycle_granted()),
            script_hooks(mid, always_failing_events((n - 1) as nat)),
            HookKind::AllTestsPassing,
        );
        lemma_count_kind_three(
            HookView::TestRoundStart,
            HookView::TestError(s.tests[0]),
            HookView::Restart,
            HookKind::Restart,
        );
        lemma_count_kind_three(
            HookView::TestRoundStart,
            HookView::TestError(s.tests[0]),
            HookView::Restart,
            HookKind::NoRestart,
        );
        lemma_count_kind_three(
            HookView::TestRoundStart,
            HookView::TestError(s.tests[0]),
            HookView::Restart,
            HookKind::AllTestsPassing,
        );
        assert(script_end(s, always_failing_events(n as nat)) =~= (MachineView {
            restart_times: Option::Some(0u64),
            phase: Phase::Stopped,
            ..s
        }));
    }
}

/// The events of `k` granted cycles under always-failing checks and an
/// unlimited budget.
pub open spec fn unlimited_failing_events(k: nat) -> Seq<Event>
    decreases k,
{
    if k == 0 {
        seq![]
    } else {
        failing_cycle_granted() + unlimited_failing_events((k - 1) as nat)
    }
}

/// Unbounded restarts: under an unlimited budget and always-failing checks,
/// after any number `k` of cycles `Restart` has fired exactly `k` times,
/// `NoRestart` never, and the machine is exactly where it started — ready
/// for the next cycle, without bound.
pub proof fn lemma_unlimited_restarts(s: MachineView, k: nat)
    requires
        s.wf(),
        s.phase == Phase::Launching,
        s.tests.len() >= 1,
        s.restart_times == Option::None::<u64>,
    ensures
        script_ok(s, unlimited_failing_events(k)),
        count_kind(script_hooks(s, unlimited_failing_events(k)), HookKind::Restart) == k,
        count_kind(script_hooks(s, unlimited_failing_events(k)), HookKind::NoRestart) == 0,
        script_end(s, unlimited_failing_events(k)) == s,
    decreases k,
{
    if k == 0 {
    } else {
        lemma_failing_cycle_granted(s);
        let mid = script_end(s, failing_cycle_granted());
        assert(mid =~= s);
        lemma_unlimited_restarts(s, (k - 1) as nat);
        lemma_script_concat(s, failing_cycle_granted(), unlimited_failing_events((k - 1) as nat));
        lemma_count_kind_concat(
            script_hooks(s, failing_cycle_granted()),
            script_hooks(s, unlimited_failing_events((k - 1) as nat)),
            HookKind::Restart,
        );
        lemma_count_kind_concat(
            script_hooks(s, failing_cycle_granted()),
            script_hooks(s, unlimited_failing_events((k - 1) as nat)),
            HookKind::NoRestart,
        );
        lemma_count_kind_three(
            HookView::TestRoundStart,
            HookView::TestError(s.tests[0]),
            HookView::Restart,
            HookKind::Restart,
        );
        lemma_count_kind_three(
            HookView::TestRoundStart,
            HookView::TestError(s.tests[0]),
            HookView::Restart,
            HookKind::NoRestart,
        );
    }
}

/// A failed launch is fatal and silent: it fires no hook, the machine moves
/// to its failed terminal phase, and the driver is told to surface the
/// launch failure.
pub proof fn lemma_launch_failure_fires_no_hook(s: MachineView)
    requires
        s.wf(),
        s.phase == Phase::Launching,
    ensures
        script_ok(s, seq![Event::Spawned(false)]),
        script_hooks(s, seq![Event::Spawned(false)]) == Seq::<HookView>::empty(),
        script_end(s, seq![Event::Spawned(false)]) == s.with_phase(Phase::Failed),
        spec_step(s, Event::Spawned(false)).action == Action::Fail,
{
    let p1 = Seq::<Event>::empty().push(Event::Spawned(false));
    assert(seq![Event::Spawned(false)] =~= p1);
    lemma_script_snoc(s, Seq::<Event>::empty(), Event::Spawned(false));
    assert(script_hooks(s, p1) =~= Seq::<HookView>::empty());
}

/// `k` healthy verdicts in a row.
pub open spec fn passing_results(k: nat) -> Seq<Event> {
    Seq::new(k, |i: int| Event::TestResult(true))
}

/// The `TestOk` hooks for checks `lo`, `lo + 1`, ..., `lo + n - 1`.
pub open spec fn test_ok_hooks(tests: Seq<Seq<char>>, lo: int, n: nat) -> Seq<HookView> {
    Seq::new(n, |k: int| HookView::TestOk(tests[lo + k]))
}

/// From the middle of a round in which every remaining check passes: each
/// check from `i` on fires its `TestOk`, then `AllTestsPassing` fires once,
/// and the machine returns to `Waiting` with nothing else changed.
pub proof fn lemma_testing_tail_passes(s: MachineView, i: usize)
    requires
        s.wf(),
        s.tests.len() <= usize::MAX,
        s.phase == (Phase::Testing { next: i }),
    ensures
        script_ok(s, passing_results((s.tests.len() - i) as nat)),
        script_hooks(s, passing_results((s.tests.len() - i) as nat)) == test_ok_hooks(
            s.tests,
            i as int,
            (s.tests.len() - i) as nat,
        ).push(HookView::AllTestsPassing),
        script_end(s, passing_results((s.tests.len() - i) as nat)) == s.with_phase(Phase::Waiting),
    decreases s.tests.len() - i,
{
    let m = (s.tests.len() - i) as nat;
    let evs = passing_results(m);
    assert(evs[0] == Event::TestResult(true));
    let s1 = spec_step(s, evs[0]).state;
    if i + 1 == s.tests.len() {
        assert(evs.drop_first() =~= Seq::<Event>::empty());
        assert(script_ok(s1, Seq::<Event>::empty()));
        assert(script_hooks(s1, Seq::<Event>::empty()) =~= Seq::<HookView>::empty());
        assert(script_hooks(s, evs) =~= spec_step(s, evs[0]).hooks);
        assert(script_hooks(s, evs) =~= test_ok_hooks(s.tests, i as int, m).push(
            HookView::AllTestsPassing,
        ));
        assert(script_end(s1, Seq::<Event>::empty()) == s1);
        assert(script_end(s, evs) == s1);
        assert(s1 =~= s.with_phase(Phase::Waiting));
    } else {
        assert(s1 =~= s.with_phase(Phase::Testing { next: (i + 1) as usize }));
        lemma_testing_tail_passes(s1, (i + 1) as usize);
        assert(evs.drop_first() =~= passing_results((s.tests.len() - i - 1) as nat));
        assert(script_hooks(s, evs) =~= test_ok_hooks(s.tests, i as int, m).push(
            HookView::AllTestsPassing,
        ));
        assert(script_end(s, evs) =~= s.with_phase(Phase::Waiting));
    }
}

/// The events of one full test round in which every check passes: the check
/// interval elapses, then every registered check reports healthy.
pub open spec fn passing_round_events(num_tests: nat) -> Seq<Event> {
    seq![Event::Slept] + passing_results(num_tests)
}

/// A quiet round: with every check passing, the round fires exactly
/// `TestRoundStart`, one `TestOk` per check in evaluation order, and one
/// `AllTestsPassing`; `Restart` and `NoRestart` never fire, and the machine
/// — budget included — is exactly where it started.
pub proof fn lemma_passing_round(s: MachineView)
    requires
        s.wf(),
        s.tests.len() <= usize::MAX,
        s.phase == Phase::Waiting,
    ensures
        script_ok(s, passing_round_events(s.tests.len())),
        script_hooks(s, passing_round_events(s.tests.len())) == (seq![
            HookView::TestRoundStart,
        ] + test_ok_hooks(s.tests, 0, s.tests.len())).push(HookView::AllTestsPassing),
        count_kind(
            script_hooks(s, passing_round_events(s.tests.len())),
            HookKind::AllTestsPassing,
        ) == 1,
        count_kind(script_hooks(s, passing_round_events(s.tests.len())), HookKind::Restart) == 0,
        count_kind(script_hooks(s, passing_round_events(s.tests.len())), HookKind::NoRestart)
            == 0,
        script_end(s, passing_round_events(s.tests.len())) == s,
{
    let evs = passing_round_events(s.tests.len());
    let hooks = (seq![HookView::TestRoundStart] + test_ok_hooks(s.tests, 0, s.tests.len())).push(
        HookView::AllTestsPassing,
    );
    assert(evs[0] == Event::Slept);
    let s1 = spec_step(s, Event::Slept).state;
    if s.tests.len() == 0 {
        assert(evs.drop_first() =~= Seq::<Event>::empty());
        assert(script_ok(s1, Seq::<Event>::empty()));
        assert(script_hooks(s1, Seq::<Event>::empty()) =~= Seq::<HookView>::empty());
        assert(script_hooks(s, evs) =~= spec_step(s, Event::Slept).hooks);
        assert(script_hooks(s, evs) =~= hooks);
        assert(script_end(s1, Seq::<Event>::empty()) == s1);
        assert(script_end(s, evs) == s1);
        assert(s1 =~= s);
    } else {
        assert(s1 =~= s.with_phase(Phase::Testing { next: 0 }));
        lemma_testing_tail_passes(s1, 0);
        assert(evs.drop_first() =~= passing_results(s.tests.len()));
        assert(script_hooks(s, evs) =~= hooks);
        assert(script_end(s, evs) =~= s);
    }
    assert(hooks =~= seq![HookView::TestRoundStart] + (test_ok_hooks(s.tests, 0, s.tests.len())
        + seq![HookView::AllTestsPassing]));
    lemma_count_kind_counts_in_round(s.tests, HookKind::AllTestsPassing);
    lemma_count_kind_counts_in_round(s.tests, HookKind::Restart);
    lemma_count_kind_counts_in_round(s.tests, HookKind::NoRestart);
}

/// Counting one round's hooks, kind by kind, for kinds that are neither
/// `TestRoundStart` nor `TestOk`.
proof fn lemma_count_kind_counts_in_round(tests: Seq<Seq<char>>, k: HookKind)
    requires
        k != HookKind::TestRoundStart,
        k != HookKind::TestOk,
    ensures
        count_kind(
            (seq![HookView::TestRoundStart] + test_ok_hooks(tests, 0, tests.len())).push(
                HookView::AllTestsPassing,
            ),
            k,
        ) == if k == HookKind::AllTestsPassing {
            1nat
        } else {
            0nat
        },
{
    let oks = test_ok_hooks(tests, 0, tests.len());
    let whole = (seq![HookView::TestRoundStart] + oks).push(HookView::AllTestsPassing);
    assert(whole =~= seq![HookView::TestRoundStart] + (oks + seq![HookView::AllTestsPassing]));
    lemma_count_kind_concat(
        seq![HookView::TestRoundStart],
        oks + seq![HookView::AllTestsPassing],
        k,
    );
    lemma_count_kind_concat(oks, seq![HookView::AllTestsPassing], k);
    lemma_count_kind_single(HookView::TestRoundStart, k);
    lemma_count_kind_single(HookView::AllTestsPassing, k);
    lemma_count_kind_none(oks, k);
}

/// The events of `k` quiet rounds in a row.
pub open spec fn passing_rounds_events(num_tests: nat, k: nat) -> Seq<Event>
    decreases k,
{
    if k == 0 {
        seq![]
    } else {
        passing_round_events(num_tests) + passing_rounds_events(num_tests, (k - 1) as nat)
    }
}

/// Quiet supervision: with every check always passing, `AllTestsPassing`
/// fires exactly once per elapsed check interval — once per round — while
/// `Restart` and `NoRestart` never fire, for any number of rounds.
pub proof fn lemma_passing_rounds(s: MachineView, k: nat)
    requires
        s.wf(),
        s.tests.len() <= usize::MAX,
        s.phase == Phase::Waiting,
    ensures
        script_ok(s, passing_rounds_events(s.tests.len(), k)),
        count_kind(
            script_hooks(s, passing_rounds_events(s.tests.len(), k)),
            HookKind::AllTestsPassing,
        ) == k,
        count_kind(script_hooks(s, passing_rounds_events(s.tests.len(), k)), HookKind::Restart)
            == 0,
        count_kind(script_hooks(s, passing_rounds_events(s.tests.len(), k)), HookKind::NoRestart)
            == 0,
        script_end(s, passing_rounds_events(s.tests.len(), k)) == s,
    decreases k,
{
    if k == 0 {
    } else {
        lemma_passing_round(s);
        lemma_passing_rounds(s, (k - 1) as nat);
        lemma_script_concat(
            s,
            passing_round_events(s.tests.len()),
            passing_rounds_events(s.tests.len(), (k - 1) as nat),
        );
        lemma_count_kind_concat(
            script_hooks(s, passing_round_events(s.tests.len())),
            script_hooks(s, passing_rounds_events(s.tests.len(), (k - 1) as nat)),
            HookKind::AllTestsPassing,
        );
        lemma_count_kind_concat(
            script_hooks(s, passing_round_events(s.tests.len())),
            script_hooks(s, passing_rounds_events(s.tests.len(), (k - 1) as nat)),
            HookKind::Restart,
        );
        lemma_count_kind_concat(
            script_hooks(s, passing_round_events(s.tests.len())),
            script_hooks(s, passing_rounds_events(s.tests.len(), (k - 1) as nat)),
            HookKind::NoRestart,
        );
    }
}

/// From the middle of a round: the checks `i`, ..., `f - 1` pass and check
/// `f` fails. Exactly those checks fire hooks — `TestOk` each, then
/// `TestError(f)` — the round is cut short (later checks are never
/// evaluated), and the process is about to be killed.
pub proof fn lemma_testing_short_circuit(s: MachineView, i: usize, f: usize)
    requires
        s.wf(),
        s.tests.len() <= usize::MAX,
        s.phase == (Phase::Testing { next: i }),
        i <= f < s.tests.len(),
    ensures
        script_ok(s, passing_results((f - i) as nat).push(Event::TestResult(false))),
        script_hooks(s, passing_results((f - i) as nat).push(Event::TestResult(false)))
            == test_ok_hooks(s.tests, i as int, (f - i) as nat).push(
            HookView::TestError(s.tests[f as int]),
        ),
        script_end(s, passing_results((f - i) as nat).push(Event::TestResult(false)))
            == s.with_phase(Phase::Deciding),
        spec_step(s.with_phase(Phase::Testing { next: f }), Event::TestResult(false)).action
            == Action::Kill,
    decreases f - i,
{
    let evs = passing_results((f - i) as nat).push(Event::TestResult(false));
    if i == f {
        assert(evs =~= Seq::<Event>::empty().push(Event::TestResult(false)));
        lemma_script_snoc(s, Seq::<Event>::empty(), Event::TestResult(false));
        assert(script_hooks(s, evs) =~= test_ok_hooks(s.tests, i as int, 0).push(
            HookView::TestError(s.tests[f as int]),
        ));
        assert(s.with_phase(Phase::Testing { next: f }) =~= s);
    } else {
        assert(evs[0] == Event::TestResult(true));
        let s1 = spec_step(s, evs[0]).state;
        assert(s1 =~= s.with_phase(Phase::Testing { next: (i + 1) as usize }));
        lemma_testing_short_circuit(s1, (i + 1) as usize, f);
        assert(evs.drop_first() =~= passing_results((f - i - 1) as nat).push(
            Event::TestResult(false),
        ));
        assert(script_hooks(s, evs) =~= test_ok_hooks(s.tests, i as int, (f - i) as nat).push(
            HookView::TestError(s.tests[f as int]),
        ));
        assert(script_end(s, evs) =~= s.with_phase(Phase::Deciding));
        assert(s1.with_phase(Phase::Testing { next: f }) =~= s.with_phase(
            Phase::Testing { next: f },
        ));
    }
}

/// Short-circuit order for a whole round: the round starts, the checks
/// before the first failing one each fire `TestOk` in evaluation order, the
/// failing check fires `TestError`, and nothing more — checks after the
/// failure are never evaluated and fire no hook; the next action is to kill
/// the process.
pub proof fn lemma_short_circuit_round(s: MachineView, f: usize)
    requires
        s.wf(),
        s.tests.len() <= usize::MAX,
        s.phase == Phase::Waiting,
        f < s.tests.len(),
    ensures
        script_ok(s, seq![Event::Slept] + passing_results(f as nat).push(Event::TestResult(false))),
        script_hooks(
            s,
            seq![Event::Slept] + passing_results(f as nat).push(Event::TestResult(false)),
        ) == (seq![HookView::TestRoundStart] + test_ok_hooks(s.tests, 0, f as nat)).push(
            HookView::TestError(s.tests[f as int]),
        ),
        script_end(s, seq![Event::Slept] + passing_results(f as nat).push(Event::TestResult(false)))
            == s.with_phase(Phase::Deciding),
{
    let tail = passing_results(f as nat).push(Event::TestResult(false));
    let evs = seq![Event::Slept] + tail;
    assert(evs[0] == Event::Slept);
    let s1 = spec_step(s, Event::Slept).state;
    assert(s1 =~= s.with_phase(Phase::Testing { next: 0 }));
    lemma_testing_short_circuit(s1, 0, f);
    assert(evs.drop_first() =~= tail);
    assert(script_hooks(s, evs) =~= (seq![HookView::TestRoundStart] + test_ok_hooks(
        s.tests,
        0,
        f as nat,
    )).push(HookView::TestError(s.tests[f as int])));
    assert(script_end(s, evs) =~= s.with_phase(Phase::Deciding));
}

/// Supervision ends in exactly two ways. Deliberately: the machine stops —
/// and `run` returns success — precisely when a failed round finds the
/// restart budget exhausted. Fatally: the launch failure is surfaced
/// precisely when a spawn attempt fails. No other step is terminal.
pub proof fn lemma_terminal_outcomes(s: MachineView, ev: Event)
    requires
        s.wf(),
        s.accepts(ev),
    ensures
        (spec_step(s, ev).action == Action::Stop) <==> (s.phase == Phase::Deciding
            && s.restart_times == Option::Some(0u64)),
        (spec_step(s, ev).action == Action::Fail) <==> (s.phase == Phase::Launching && ev
            == Event::Spawned(false)),
        (spec_step(s, ev).state.phase == Phase::Stopped) <==> (spec_step(s, ev).action
            == Action::Stop),
        (spec_step(s, ev).state.phase == Phase::Failed) <==> (spec_step(s, ev).action
            == Action::Fail),
{
}

/// Determinism: the whole hook trace and the machine left behind are a
/// function of the starting configuration and the event script alone. Two
/// independently built machines with equal configurations, fed the same
/// events, fire the same hooks in the same order and end in the same state.
pub proof fn lemma_deterministic_runs(s1: MachineView, s2: MachineView, evs: Seq<Event>)
    requires
        s1 == s2,
    ensures
        script_ok(s1, evs) == script_ok(s2, evs),
        script_hooks(s1, evs) == script_hooks(s2, evs),
        script_end(s1, evs) == script_end(s2, evs),
{
}

} // verus!
