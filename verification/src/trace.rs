//! Trace semantics: running the machine over a whole script of events.
//!
//! `script_ok` says a sequence of events is consumed without ever handing the
//! machine an event it does not expect; `script_hooks` is the full hook trace
//! such a run fires, in order; `script_end` is the machine it leaves behind.
//! [`SupervisedProcess::run_script`] is the executable replay, proved to
//! produce exactly that trace.

use vstd::prelude::*;

use crate::event::{hook_views, Event, Hook, HookView};
use crate::machine::{spec_step, MachineView, SupervisedProcess};

verus! {

/// The machine, started at `s`, expects every event of `evs` in turn.
pub open spec fn script_ok(s: MachineView, evs: Seq<Event>) -> bool
    decreases evs.len(),
{
    evs.len() == 0 || (s.accepts(evs[0]) && script_ok(spec_step(s, evs[0]).state, evs.drop_first()))
}

/// The hooks fired, in order, when the machine consumes `evs` from `s`.
pub open spec fn script_hooks(s: MachineView, evs: Seq<Event>) -> Seq<HookView>
    decreases evs.len(),
{
    if evs.len() == 0 {
        seq![]
    } else {
        spec_step(s, evs[0]).hooks + script_hooks(spec_step(s, evs[0]).state, evs.drop_first())
    }
}

/// The machine left behind after consuming `evs` from `s`.
pub open spec fn script_end(s: MachineView, evs: Seq<Event>) -> MachineView
    decreases evs.len(),
{
    if evs.len() == 0 {
        s
    } else {
        script_end(spec_step(s, evs[0]).state, evs.drop_first())
    }
}

/// A script extended by one event: acceptance, trace and end state decompose
/// into the script's own and one more step at its end.
pub proof fn lemma_script_snoc(s: MachineView, evs: Seq<Event>, ev: Event)
    ensures
        script_ok(s, evs.push(ev)) == (script_ok(s, evs) && script_end(s, evs).accepts(ev)),
        script_ok(s, evs) ==> script_hooks(s, evs.push(ev)) == script_hooks(s, evs) + spec_step(
            script_end(s, evs),
            ev,
        ).hooks,
        script_end(s, evs.push(ev)) == spec_step(script_end(s, evs), ev).state,
    decreases evs.len(),
{
    if evs.len() == 0 {
        let s1 = spec_step(s, ev).state;
        assert(evs.push(ev)[0] == ev);
        assert(evs.push(ev).drop_first() =~= Seq::<Event>::empty());
        assert(script_ok(s1, Seq::<Event>::empty()));
        assert(script_hooks(s1, Seq::<Event>::empty()) =~= Seq::<HookView>::empty());
        assert(script_end(s1, Seq::<Event>::empty()) == s1);
        assert(script_hooks(s, evs.push(ev)) =~= spec_step(s, ev).hooks);
    } else {
        let s1 = spec_step(s, evs[0]).state;
        assert(evs.push(ev)[0] == evs[0]);
        assert(evs.push(ev).drop_first() =~= evs.drop_first().push(ev));
        lemma_script_snoc(s1, evs.drop_first(), ev);
        if script_ok(s, evs) {
            assert(script_hooks(s, evs.push(ev)) =~= script_hooks(s, evs) + spec_step(
                script_end(s, evs),
                ev,
            ).hooks);
        }
    }
}

/// Two scripts in a row: the trace of the whole is the traces of the parts,
/// and the end state is reached part by part.
pub proof fn lemma_script_concat(s: MachineView, evs1: Seq<Event>, evs2: Seq<Event>)
    ensures
        script_ok(s, evs1 + evs2) == (script_ok(s, evs1) && script_ok(script_end(s, evs1), evs2)),
        (script_ok(s, evs1) && script_ok(script_end(s, evs1), evs2)) ==> script_hooks(
            s,
            evs1 + evs2,
        ) == script_hooks(s, evs1) + script_hooks(script_end(s, evs1), evs2),
        script_end(s, evs1 + evs2) == script_end(script_end(s, evs1), evs2),
    decreases evs1.len(),
{
    if evs1.len() == 0 {
        assert(evs1 + evs2 =~= evs2);
        assert(script_hooks(s, evs1) + script_hooks(script_end(s, evs1), evs2) =~= script_hooks(
            s,
            evs2,
        ));
    } else {
        let s1 = spec_step(s, evs1[0]).state;
        assert((evs1 + evs2)[0] == evs1[0]);
        assert((evs1 + evs2).drop_first() =~= evs1.drop_first() + evs2);
        lemma_script_concat(s1, evs1.drop_first(), evs2);
        if script_ok(s, evs1) && script_ok(script_end(s, evs1), evs2) {
            assert(script_hooks(s, evs1 + evs2) =~= script_hooks(s, evs1) + script_hooks(
                script_end(s, evs1),
                evs2,
            ));
        }
    }
}

impl SupervisedProcess {
    /// Replay a whole script of events, collecting every hook fired, in
    /// order. The trace and the machine left behind are exactly those of the
    /// script semantics — in particular, they are a function of the starting
    /// configuration and the events alone.
    pub fn run_script(&mut self, events: &Vec<Event>) -> (hooks: Vec<Hook>)
        requires
            old(self)@.wf(),
            script_ok(old(self)@, events@),
        ensures
            hook_views(hooks@) == script_hooks(old(self)@, events@),
            hooks@.len() == script_hooks(old(self)@, events@).len(),
            forall|j: int|
                0 <= j < hooks@.len() ==> (#[trigger] hooks@[j])@ == script_hooks(
                    old(self)@,
                    events@,
                )[j],
            final(self)@ == script_end(old(self)@, events@),
            final(self)@.wf(),
    {
        let ghost s0 = self@;
        let mut hooks: Vec<Hook> = Vec::new();
        proof {
            assert(events@.take(0) =~= Seq::<Event>::empty());
            assert(hook_views(hooks@) =~= script_hooks(s0, events@.take(0)));
        }
        let n = events.len();
        let mut i: usize = 0;
        while i < n
            invariant
                n == events@.len(),
                i <= n,
                self@.wf(),
                script_ok(s0, events@),
                self@ == script_end(s0, events@.take(i as int)),
                hook_views(hooks@) == script_hooks(s0, events@.take(i as int)),
            decreases n - i,
        {
            proof {
                assert(events@.take(i as int).push(events@[i as int]) =~= events@.take(i + 1));
                lemma_script_prefix_ok(s0, events@, i as int);
                lemma_script_snoc(s0, events@.take(i as int), events@[i as int]);
            }
            let (mut fired, _action) = self.step(events[i]);
            proof {
                assert(hook_views(hooks@ + fired@) =~= hook_views(hooks@) + hook_views(fired@));
            }
            hooks.append(&mut fired);
            i = i + 1;
        }
        proof {
            assert(events@.take(n as int) =~= events@);
        }
        hooks
    }
}

/// Every prefix of an accepted script is itself accepted, and the event
/// right after the prefix is expected where the prefix ends.
pub proof fn lemma_script_prefix_ok(s: MachineView, evs: Seq<Event>, i: int)
    requires
        0 <= i < evs.len(),
        script_ok(s, evs),
    ensures
        script_ok(s, evs.take(i)),
        script_end(s, evs.take(i)).accepts(evs[i]),
        script_ok(s, evs.take(i + 1)),
    decreases i,
{
    if i == 0 {
        assert(evs.take(0) =~= Seq::<Event>::empty());
        assert(evs.take(1) =~= Seq::<Event>::empty().push(evs[0]));
        lemma_script_snoc(s, Seq::<Event>::empty(), evs[0]);
    } else {
        let s1 = spec_step(s, evs[0]).state;
        lemma_script_prefix_ok(s1, evs.drop_first(), i - 1);
        assert(evs.take(i)[0] == evs[0]);
        assert(evs.take(i).drop_first() =~= evs.drop_first().take(i - 1));
        assert(evs.take(i + 1)[0] == evs[0]);
        assert(evs.take(i + 1).drop_first() =~= evs.drop_first().take(i));
        assert(evs.drop_first()[i - 1] == evs[i]);
    }
}

} // verus!
