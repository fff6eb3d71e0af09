//! Pulse-dial decoder: turns raw transitions on the dial-engaged contact
//! and the pulse contact into a validated dialed digit.
//!
//! The contact names follow the German rotary-dial convention: `NSA` is
//! the dial-engaged contact, closed while the dial is displaced from
//! rest, and `NSI` is the pulse contact, which opens and closes once per
//! unit of the dialed digit while the dial returns.  Both are active-low:
//! a low pin level means the contact is closed.
//!
//! The decoder is a small state machine stepped once per sample of the
//! two contacts.  Closing the dial-engaged contact starts a count; each
//! opening of the pulse contact not already flagged as mid-impulse
//! counts one pulse; reopening the dial-engaged contact ends the count
//! and validates it: 1 to 9 pulses dial that digit, 10 pulses dial 0,
//! and 0 or more than 10 pulses are discarded without an event.  The
//! worker loop around the decoder owns the blocking wait and the event
//! channel; [`DialState::wake`] makes every decision the worker needs.

use vstd::prelude::*;

use crate::bits::get_bit;
use crate::bits::spec_bit;
use crate::gpio::InputPinGroup;
use crate::sim::SimEnvironment;
use crate::sim::SimInputPinGroup;
use crate::Directive;
use crate::Event;

verus! {

/// Position of the dial-engaged contact in the decoder's pin group.
pub const NSA: usize = 0;

/// Position of the pulse contact in the decoder's pin group.
pub const NSI: usize = 1;

/// The count at which further pulses no longer matter: any count past
/// the largest valid one (10) is invalid, so counting saturates here.
pub const COUNT_CAP: u32 = 11;

/// The worker state of the pulse-dial decoder.
#[derive(Clone, Copy, Debug, PartialEq, Eq, Structural)]
pub struct DialState {
    /// Whether a pulse train is in progress: the dial-engaged contact
    /// was seen closed and has not reopened yet.
    pub counting: bool,
    /// Pulses counted in the current train, saturating at [`COUNT_CAP`].
    pub count: u32,
    /// Whether the pulse contact is mid-impulse: it was seen open and
    /// has not closed again, so another open sample must not count.
    pub impulse: bool,
}

/// The digit a completed count dials: 10 pulses dial 0, and 1 to 9
/// pulses dial that digit.
pub open spec fn spec_digit(count: u32) -> u32 {
    if count == 10 {
        0u32
    } else {
        count
    }
}

/// Whether a completed count is a valid pulse train: between 1 and 10
/// pulses.
pub open spec fn spec_valid_count(count: u32) -> bool {
    1 <= count <= 10
}

/// One decoding step on a sample of the two contacts, given as closure
/// flags (`true` means the contact is closed): the successor state and
/// the event emitted, if any.
pub open spec fn spec_step(st: DialState, engaged: bool, pulse: bool) -> (DialState, Option<
    Event,
>) {
    let started = if engaged && !st.counting {
        DialState { counting: true, count: 0, impulse: st.impulse }
    } else {
        st
    };
    let (ended, ev) = if !engaged && started.counting {
        (
            DialState { counting: false, count: started.count, impulse: started.impulse },
            if spec_valid_count(started.count) {
                Some(Event::Dialed(spec_digit(started.count)))
            } else {
                None::<Event>
            },
        )
    } else {
        (started, None::<Event>)
    };
    let pulsed = if ended.counting && !pulse && !ended.impulse {
        DialState {
            counting: ended.counting,
            count: if ended.count < COUNT_CAP {
                (ended.count + 1) as u32
            } else {
                ended.count
            },
            impulse: true,
        }
    } else if ended.counting && pulse && ended.impulse {
        DialState { counting: ended.counting, count: ended.count, impulse: false }
    } else {
        ended
    };
    (pulsed, ev)
}

/// The events of one optional emission, in emission order.
pub open spec fn opt_events(ev: Option<Event>) -> Seq<Event> {
    match ev {
        Some(e) => seq![e],
        None => Seq::empty(),
    }
}

/// The decoder run over a sequence of samples: the final state and the
/// events emitted along the way, in order.
pub open spec fn spec_run(st: DialState, samples: Seq<(bool, bool)>) -> (DialState, Seq<Event>)
    decreases samples.len(),
{
    if samples.len() == 0 {
        (st, Seq::empty())
    } else {
        let first = spec_step(st, samples.first().0, samples.first().1);
        let rest = spec_run(first.0, samples.drop_first());
        (rest.0, opt_events(first.1) + rest.1)
    }
}

impl DialState {
    /// The count never runs past its saturation cap.
    pub open spec fn wf(&self) -> bool {
        self.count <= COUNT_CAP
    }

    /// A fresh decoder: idle, nothing counted, not mid-impulse.
    pub fn new() -> (st: DialState)
        ensures
            st == (DialState { counting: false, count: 0u32, impulse: false }),
    {
        DialState { counting: false, count: 0, impulse: false }
    }

    /// Processes one sample of the two contacts (`true` means closed)
    /// and returns the event to emit, if any.
    pub fn step(&mut self, engaged: bool, pulse: bool) -> (ev: Option<Event>)
        requires
            old(self).wf(),
        ensures
            final(self).wf(),
            (*final(self), ev) == spec_step(*old(self), engaged, pulse),
    {
        let mut ev: Option<Event> = None;
        if engaged && !self.counting {
            self.counting = true;
            self.count = 0;
        } else if !engaged && self.counting {
            self.counting = false;
            if self.count != 0 && self.count <= 10 {
                let digit = if self.count == 10 {
                    0
                } else {
                    self.count
                };
                ev = Some(Event::Dialed(digit));
            }
        }
        if self.counting && !pulse && !self.impulse {
            self.impulse = true;
            if self.count < COUNT_CAP {
                self.count = self.count + 1;
            }
        } else if self.counting && pulse && self.impulse {
            self.impulse = false;
        }
        ev
    }

    /// The decision a dial worker takes on one wake of its bounded wait:
    /// terminate on a shutdown request without emitting anything; stay
    /// idle on an expired wait; otherwise decode the sample just read.
    pub fn wake(&mut self, stop: bool, sample: Option<(bool, bool)>) -> (d: Directive)
        requires
            old(self).wf(),
        ensures
            final(self).wf(),
            stop ==> d == Directive::Terminate && *final(self) == *old(self),
            !stop && sample is None ==> d == Directive::Idle && *final(self) == *old(self),
            !stop ==> (sample matches Some(s) ==> {
                let stepped = spec_step(*old(self), s.0, s.1);
                &&& *final(self) == stepped.0
                &&& d == match stepped.1 {
                    Some(e) => Directive::Emit(e),
                    None => Directive::Idle,
                }
            }),
    {
        if stop {
            return Directive::Terminate;
        }
        match sample {
            None => Directive::Idle,
            Some((engaged, pulse)) => {
                match self.step(engaged, pulse) {
                    Some(e) => Directive::Emit(e),
                    None => Directive::Idle,
                }
            },
        }
    }
}

/// Decodes one reading of the decoder's two-pin group into closure
/// flags: the contacts are active-low, so a low level means closed.
pub fn contacts_from_levels(levels: u64) -> (c: (bool, bool))
    ensures
        c.0 == !spec_bit(levels, NSA),
        c.1 == !spec_bit(levels, NSI),
{
    (!get_bit(levels, NSA), !get_bit(levels, NSI))
}

/// One full worker iteration against the simulated backend: a bounded
/// wait on the decoder's two-pin group, then the decoder's decision on
/// what was (or was not) observed.  The group holds the dial-engaged
/// contact's pin first and the pulse contact's pin second.
pub fn dial_poll(
    env: &mut SimEnvironment,
    group: &SimInputPinGroup,
    st: &mut DialState,
    stop: bool,
    timeout_ms: u64,
) -> (d: Directive)
    requires
        group.wf(),
        group.len_spec() == 2,
        old(st).wf(),
    ensures
        final(st).wf(),
        final(env).pending() == old(env).pending() & !group.mask(),
        final(env).inputs() == old(env).inputs(),
        final(env).outputs() == old(env).outputs(),
        final(env).directions() == old(env).directions(),
        final(env).convertible() == old(env).convertible(),
        stop ==> d == Directive::Terminate && *final(st) == *old(st),
        !stop && old(env).pending() & group.mask() == 0 ==> d == Directive::Idle && *final(st)
            == *old(st),
        !stop && old(env).pending() & group.mask() != 0 ==> ({
            let engaged = !spec_bit(old(env).inputs(), group.ids()[0]);
            let pulse = !spec_bit(old(env).inputs(), group.ids()[1]);
            let stepped = spec_step(*old(st), engaged, pulse);
            &&& *final(st) == stepped.0
            &&& d == match stepped.1 {
                Some(e) => Directive::Emit(e),
                None => Directive::Idle,
            }
        }),
{
    let changes = group.wait_timeout(env, timeout_ms);
    let sample = match changes {
        Some(_) => {
            let levels = group.read(env);
            Some(contacts_from_levels(levels))
        },
        None => None,
    };
    st.wake(stop, sample)
}

/// Running one sample sequence after another runs them in order: the
/// states chain and the emitted events concatenate.
pub proof fn lemma_run_concat(st: DialState, s1: Seq<(bool, bool)>, s2: Seq<(bool, bool)>)
    ensures
        spec_run(st, s1 + s2).0 == spec_run(spec_run(st, s1).0, s2).0,
        spec_run(st, s1 + s2).1 == spec_run(st, s1).1 + spec_run(spec_run(st, s1).0, s2).1,
    decreases s1.len(),
{
    if s1.len() == 0 {
        assert(s1 + s2 =~= s2);
        assert(spec_run(st, s1).1 + spec_run(st, s2).1 =~= spec_run(st, s2).1);
    } else {
        let first = spec_step(st, s1.first().0, s1.first().1);
        assert((s1 + s2).first() == s1.first());
        assert((s1 + s2).drop_first() =~= s1.drop_first() + s2);
        lemma_run_concat(first.0, s1.drop_first(), s2);
        let tail_run = spec_run(first.0, s1.drop_first());
        assert(opt_events(first.1) + (tail_run.1 + spec_run(tail_run.0, s2).1) =~= (opt_events(
            first.1,
        ) + tail_run.1) + spec_run(tail_run.0, s2).1);
    }
}

/// The samples of `k` pulse cycles while the dial stays engaged: each
/// cycle opens the pulse contact and closes it again.
pub open spec fn pulse_train(k: nat) -> Seq<(bool, bool)>
    decreases k,
{
    if k == 0 {
        Seq::empty()
    } else {
        pulse_train((k - 1) as nat) + seq![(true, false), (true, true)]
    }
}

/// While counting with no impulse in flight, a train of `k` pulse
/// cycles emits nothing and adds `k` to the count, saturating at the
/// cap.
pub proof fn lemma_pulse_train_counts(st: DialState, k: nat)
    requires
        st.wf(),
        st.counting,
        !st.impulse,
    ensures
        spec_run(st, pulse_train(k)).0.counting,
        !spec_run(st, pulse_train(k)).0.impulse,
        spec_run(st, pulse_train(k)).0.count == if st.count + k <= COUNT_CAP {
            st.count + k
        } else {
            COUNT_CAP as int
        },
        spec_run(st, pulse_train(k)).1 == Seq::<Event>::empty(),
    decreases k,
{
    if k == 0 {
    } else {
        let shorter = pulse_train((k - 1) as nat);
        let pair = seq![(true, false), (true, true)];
        lemma_pulse_train_counts(st, (k - 1) as nat);
        lemma_run_concat(st, shorter, pair);
        let mid = spec_run(st, shorter).0;
        let open_step = spec_step(mid, true, false);
        let after_open = open_step.0;
        let close_step = spec_step(after_open, true, true);
        assert(pair.first() == (true, false));
        assert(pair.drop_first() =~= seq![(true, true)]);
        assert(seq![(true, true)].first() == (true, true));
        assert(seq![(true, true)].drop_first() =~= Seq::<(bool, bool)>::empty());
        assert(spec_run(close_step.0, Seq::<(bool, bool)>::empty()) == (
            close_step.0,
            Seq::<Event>::empty(),
        ));
        assert(spec_run(after_open, seq![(true, true)]).0 == close_step.0);
        assert(spec_run(after_open, seq![(true, true)]).1 =~= opt_events(close_step.1));
        assert(spec_run(mid, pair).0 == close_step.0);
        assert(spec_run(mid, pair).1 =~= opt_events(open_step.1) + spec_run(
            after_open,
            seq![(true, true)],
        ).1);
        assert(open_step.1 is None && close_step.1 is None);
        assert(spec_run(st, pulse_train(k)).0 == close_step.0);
        assert(spec_run(st, pulse_train(k)).1 =~= Seq::<Event>::empty());
    }
}

/// For dial-engaged held closed while the pulse contact opens and
/// closes exactly `n` times, 1 ≤ n ≤ 10, exactly one `Dialed(n % 10)`
/// event is emitted, after dial-engaged reopens; the decoder is idle
/// again afterwards.
pub proof fn lemma_valid_train_dials_digit(st: DialState, n: nat)
    requires
        !st.counting,
        1 <= n <= 10,
    ensures
        spec_run(st, engagement_cycle(n)).1 == seq![Event::Dialed((n % 10) as u32)],
        !spec_run(st, engagement_cycle(n)).0.counting,
{
    lemma_engagement_cycle(st, n);
}

/// For a pulse train of `n = 0` or `n > 10` cycles, no event is emitted
/// for that engagement cycle; the decoder is idle again afterwards.
pub proof fn lemma_invalid_train_is_silent(st: DialState, n: nat)
    requires
        !st.counting,
        n == 0 || n > 10,
    ensures
        spec_run(st, engagement_cycle(n)).1 == Seq::<Event>::empty(),
        !spec_run(st, engagement_cycle(n)).0.counting,
{
    lemma_engagement_cycle(st, n);
}

/// One full engagement: the dial-engaged contact closes with the pulse
/// contact at rest (closed), `n` pulse cycles run, then dial-engaged
/// reopens.
pub open spec fn engagement_cycle(n: nat) -> Seq<(bool, bool)> {
    seq![(true, true)] + pulse_train(n) + seq![(false, true)]
}

/// The events of one engagement cycle with `n` pulses: exactly one
/// `Dialed(n % 10)` for a valid count, nothing otherwise.
proof fn lemma_engagement_cycle(st: DialState, n: nat)
    requires
        !st.counting,
    ensures
        spec_run(st, engagement_cycle(n)).1 == if 1 <= n <= 10 {
            seq![Event::Dialed((n % 10) as u32)]
        } else {
            Seq::<Event>::empty()
        },
        !spec_run(st, engagement_cycle(n)).0.counting,
{
    let engage = seq![(true, true)];
    let disengage = seq![(false, true)];
    let engage_step = spec_step(st, true, true);
    assert(engage.first() == (true, true));
    assert(engage.drop_first() =~= Seq::<(bool, bool)>::empty());
    assert(spec_run(engage_step.0, Seq::<(bool, bool)>::empty()) == (
        engage_step.0,
        Seq::<Event>::empty(),
    ));
    assert(spec_run(st, engage).0 == engage_step.0);
    assert(spec_run(st, engage).1 =~= Seq::<Event>::empty());
    let counting_start = engage_step.0;
    assert(counting_start.counting && counting_start.count == 0 && !counting_start.impulse);

    lemma_run_concat(st, engage, pulse_train(n));
    lemma_pulse_train_counts(counting_start, n);
    let counted = spec_run(counting_start, pulse_train(n)).0;

    lemma_run_concat(st, engage + pulse_train(n), disengage);
    assert(engagement_cycle(n) =~= (engage + pulse_train(n)) + disengage);
    assert(spec_run(st, engage + pulse_train(n)).0 == counted);
    assert(spec_run(st, engage + pulse_train(n)).1 =~= Seq::<Event>::empty());

    let end_step = spec_step(counted, false, true);
    assert(disengage.first() == (false, true));
    assert(disengage.drop_first() =~= Seq::<(bool, bool)>::empty());
    assert(spec_run(end_step.0, Seq::<(bool, bool)>::empty()) == (
        end_step.0,
        Seq::<Event>::empty(),
    ));
    assert(spec_run(counted, disengage).0 == end_step.0);
    assert(spec_run(counted, disengage).1 =~= opt_events(end_step.1) + Seq::<Event>::empty());
    assert(spec_run(counted, disengage).1 =~= opt_events(end_step.1));

    if 1 <= n <= 10 {
        assert(counted.count == n);
        assert(spec_digit(counted.count) == (n % 10) as u32);
        assert(spec_run(st, engagement_cycle(n)).1 =~= seq![Event::Dialed((n % 10) as u32)]);
    } else {
        assert(!spec_valid_count(counted.count));
        assert(spec_run(st, engagement_cycle(n)).1 =~= Seq::<Event>::empty());
    }
}

/// Every digit the decoder ever emits is in `0..=9`.
pub proof fn lemma_dialed_digit_in_range(st: DialState, engaged: bool, pulse: bool)
    ensures
        spec_step(st, engaged, pulse).1 matches Some(e) ==> (e matches Event::Dialed(d) && d
            <= 9),
{
}

/// Pulse-contact toggling while dial-engaged stays open never emits an
/// event and leaves the decoder's state exactly as it was.
pub proof fn lemma_disengaged_is_silent(st: DialState, samples: Seq<(bool, bool)>)
    requires
        !st.counting,
        forall|i: int| 0 <= i < samples.len() ==> !(#[trigger] samples[i]).0,
    ensures
        spec_run(st, samples).0 == st,
        spec_run(st, samples).1 == Seq::<Event>::empty(),
    decreases samples.len(),
{
    if samples.len() == 0 {
    } else {
        let first = spec_step(st, samples.first().0, samples.first().1);
        assert(first.0 == st && first.1 is None);
        assert(forall|i: int|
            0 <= i < samples.drop_first().len() ==> !(#[trigger] samples.drop_first()[i]).0);
        lemma_disengaged_is_silent(st, samples.drop_first());
        assert(spec_run(st, samples).1 =~= Seq::<Event>::empty());
    }
}

} // verus!
