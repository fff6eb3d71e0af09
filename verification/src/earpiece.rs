//! Hook decoder: turns the hook contact's level into pickup and
//! put-down events.
//!
//! The hook switch is active-low: a low pin level means the earpiece
//! rests on the hook, a high level that it has been picked up.  The
//! decoder keeps a baseline taken from the level sampled at worker
//! start; no event is emitted for that initial level.  Each later sample
//! that differs from the baseline emits exactly one event — picked-up
//! when the contact opened, put-down when it closed — and moves the
//! baseline.  The worker loop around the decoder owns the blocking wait
//! and the event channel; [`HookState::wake`] makes every decision the
//! worker needs.

use vstd::prelude::*;

use crate::bits::spec_bit;
use crate::gpio::InputPin;
use crate::sim::SimEnvironment;
use crate::sim::SimInputPin;
use crate::Directive;
use crate::Event;

verus! {

/// The worker state of the hook decoder: the level the last event was
/// emitted for (or the initial sample), `true` meaning picked up.
#[derive(Clone, Copy, Debug, PartialEq, Eq, Structural)]
pub struct HookState {
    /// Whether the earpiece is currently considered picked up.
    pub picked_up: bool,
}

/// One decoding step on a sampled level: the successor baseline and the
/// event emitted, if any.
pub open spec fn spec_hook_step(picked_up: bool, level: bool) -> (bool, Option<Event>) {
    if level != picked_up {
        (
            level,
            Some(
                if level {
                    Event::EarpiecePickedUp
                } else {
                    Event::EarpiecePutDown
                },
            ),
        )
    } else {
        (picked_up, None::<Event>)
    }
}

/// The decoder run over a sequence of sampled levels: the final
/// baseline and the events emitted along the way, in order.
pub open spec fn spec_hook_run(picked_up: bool, levels: Seq<bool>) -> (bool, Seq<Event>)
    decreases levels.len(),
{
    if levels.len() == 0 {
        (picked_up, Seq::empty())
    } else {
        let first = spec_hook_step(picked_up, levels.first());
        let rest = spec_hook_run(first.0, levels.drop_first());
        (
            rest.0,
            match first.1 {
                Some(e) => seq![e] + rest.1,
                None => rest.1,
            },
        )
    }
}

impl HookState {
    /// A fresh hook decoder whose baseline is the level sampled at
    /// worker start; the initial sample itself emits nothing.
    pub fn new(initial_level: bool) -> (st: HookState)
        ensures
            st.picked_up == initial_level,
    {
        HookState { picked_up: initial_level }
    }

    /// Processes one sampled level and returns the event to emit, if
    /// any.
    pub fn step(&mut self, level: bool) -> (ev: Option<Event>)
        ensures
            (final(self).picked_up, ev) == spec_hook_step(old(self).picked_up, level),
    {
        if level != self.picked_up {
            self.picked_up = level;
            Some(
                if level {
                    Event::EarpiecePickedUp
                } else {
                    Event::EarpiecePutDown
                },
            )
        } else {
            None
        }
    }

    /// The decision a hook worker takes on one wake of its bounded
    /// wait: terminate on a shutdown request without emitting anything;
    /// stay idle on an expired wait; otherwise decode the sample just
    /// read.
    pub fn wake(&mut self, stop: bool, sample: Option<bool>) -> (d: Directive)
        ensures
            stop ==> d == Directive::Terminate && *final(self) == *old(self),
            !stop && sample is None ==> d == Directive::Idle && *final(self) == *old(self),
            !stop ==> (sample matches Some(level) ==> {
                let stepped = spec_hook_step(old(self).picked_up, level);
                &&& final(self).picked_up == stepped.0
                &&& d == match stepped.1 {
                    Some(e) => Directive::Emit(e),
                    None => Directive::Idle,
                }
            }),
    {
        if stop {
            return Directive::Terminate;
        }
        match sample {
            None => Directive::Idle,
            Some(level) => {
                match self.step(level) {
                    Some(e) => Directive::Emit(e),
                    None => Directive::Idle,
                }
            },
        }
    }
}

/// One full worker iteration against the simulated backend: a bounded
/// wait on the hook pin, then the decoder's decision on what was (or
/// was not) observed.
pub fn hook_poll(
    env: &mut SimEnvironment,
    pin: &SimInputPin,
    st: &mut HookState,
    stop: bool,
    timeout_ms: u64,
) -> (d: Directive)
    requires
        pin.wf_handle(),
    ensures
        final(env).pending() == old(env).pending() & !(1u64 << pin.id()),
        final(env).inputs() == old(env).inputs(),
        final(env).outputs() == old(env).outputs(),
        final(env).directions() == old(env).directions(),
        final(env).convertible() == old(env).convertible(),
        stop ==> d == Directive::Terminate && *final(st) == *old(st),
        !stop && !spec_bit(old(env).pending(), pin.id()) ==> d == Directive::Idle && *final(st)
            == *old(st),
        !stop && spec_bit(old(env).pending(), pin.id()) ==> ({
            let level = spec_bit(old(env).inputs(), pin.id());
            let stepped = spec_hook_step(old(st).picked_up, level);
            &&& final(st).picked_up == stepped.0
            &&& d == match stepped.1 {
                Some(e) => Directive::Emit(e),
                None => Directive::Idle,
            }
        }),
{
    let woke = pin.wait_timeout(env, timeout_ms);
    let sample = if woke {
        Some(pin.read(env))
    } else {
        None
    };
    st.wake(stop, sample)
}

/// Running one level sequence after another runs them in order: the
/// baselines chain and the emitted events concatenate.
pub proof fn lemma_hook_run_concat(picked_up: bool, s1: Seq<bool>, s2: Seq<bool>)
    ensures
        spec_hook_run(picked_up, s1 + s2).0 == spec_hook_run(
            spec_hook_run(picked_up, s1).0,
            s2,
        ).0,
        spec_hook_run(picked_up, s1 + s2).1 == spec_hook_run(picked_up, s1).1 + spec_hook_run(
            spec_hook_run(picked_up, s1).0,
            s2,
        ).1,
    decreases s1.len(),
{
    if s1.len() == 0 {
        assert(s1 + s2 =~= s2);
        assert(spec_hook_run(picked_up, s1).1 + spec_hook_run(picked_up, s2).1 =~= spec_hook_run(
            picked_up,
            s2,
        ).1);
    } else {
        let first = spec_hook_step(picked_up, s1.first());
        assert((s1 + s2).first() == s1.first());
        assert((s1 + s2).drop_first() =~= s1.drop_first() + s2);
        lemma_hook_run_concat(first.0, s1.drop_first(), s2);
        let tail_run = spec_hook_run(first.0, s1.drop_first());
        if first.1 is Some {
            let e = first.1.unwrap();
            assert(seq![e] + (tail_run.1 + spec_hook_run(tail_run.0, s2).1) =~= (seq![e]
                + tail_run.1) + spec_hook_run(tail_run.0, s2).1);
        }
    }
}

/// While the sampled level stays at the baseline, no event is emitted
/// and the baseline does not move; in particular the initial sampled
/// level itself never emits.
pub proof fn lemma_hook_steady_is_silent(picked_up: bool, levels: Seq<bool>)
    requires
        forall|i: int| 0 <= i < levels.len() ==> #[trigger] levels[i] == picked_up,
    ensures
        spec_hook_run(picked_up, levels).0 == picked_up,
        spec_hook_run(picked_up, levels).1 == Seq::<Event>::empty(),
    decreases levels.len(),
{
    if levels.len() == 0 {
    } else {
        assert(forall|i: int|
            0 <= i < levels.drop_first().len() ==> #[trigger] levels.drop_first()[i]
                == picked_up);
        lemma_hook_steady_is_silent(picked_up, levels.drop_first());
    }
}

/// A single transition of the hook contact emits exactly one event:
/// picked-up when the contact opens (level rises), put-down when it
/// closes — however long the level rested at the baseline before and
/// stays at the new level afterwards.
pub proof fn lemma_hook_transition_once(picked_up: bool, before: Seq<bool>, after: Seq<bool>)
    requires
        forall|i: int| 0 <= i < before.len() ==> #[trigger] before[i] == picked_up,
        forall|i: int| 0 <= i < after.len() ==> #[trigger] after[i] == !picked_up,
    ensures
        spec_hook_run(picked_up, before + seq![!picked_up] + after).0 == !picked_up,
        spec_hook_run(picked_up, before + seq![!picked_up] + after).1 == seq![
            if picked_up {
                Event::EarpiecePutDown
            } else {
                Event::EarpiecePickedUp
            },
        ],
{
    let flip = seq![!picked_up];
    let ev = if picked_up {
        Event::EarpiecePutDown
    } else {
        Event::EarpiecePickedUp
    };
    lemma_hook_steady_is_silent(picked_up, before);
    lemma_hook_run_concat(picked_up, before, flip + after);
    assert(before + seq![!picked_up] + after =~= before + (flip + after));

    let flip_step = spec_hook_step(picked_up, !picked_up);
    assert(flip_step.0 == !picked_up && flip_step.1 == Some(ev));
    assert((flip + after).first() == !picked_up);
    assert((flip + after).drop_first() =~= after);
    lemma_hook_steady_is_silent(!picked_up, after);
    assert(spec_hook_run(picked_up, flip + after).0 == !picked_up);
    assert(spec_hook_run(picked_up, flip + after).1 =~= seq![ev]);
    assert(spec_hook_run(picked_up, before + (flip + after)).1 =~= seq![ev]);
}

} // verus!
