//! Simulated hardware backend: a deterministic, in-process stand-in for
//! physical GPIO.
//!
//! One [`SimEnvironment`] holds the whole backend state: an input-level
//! word, an output-level word, a pending-change word and per-index
//! capability flags, each a `u64` bit vector indexed by pin number.  Pin
//! and group handles carry only pin indices; every operation takes the
//! environment it acts on explicitly, so the contracts state exactly how
//! each call reads and rewrites the state.
//!
//! Waits are modeled on the pending-change word alone: a wait consumes the
//! pending bits under its mask, and a bounded wait with no relevant bit
//! recorded reports an expired wait at once.  The racing of a deadline
//! against a wake notification belongs to the thread harness around the
//! library, not to this state model.

use vstd::prelude::*;

use crate::bits::get_bit;
use crate::bits::lemma_and_bit;
use crate::bits::lemma_and_not_bit;
use crate::bits::lemma_or_bit;
use crate::bits::lemma_set_bit_effect;
use crate::bits::lemma_single_bit;
use crate::bits::set_bit;
use crate::bits::spec_bit;
use crate::bits::spec_set_bit;
use crate::gpio::InputPin;
use crate::gpio::InputPinGroup;
use crate::gpio::OutputPin;

verus! {

/// The combined wait mask of a sequence of pin indices: the word with
/// exactly the members' bits set.
pub open spec fn spec_mask(ids: Seq<usize>) -> u64
    decreases ids.len(),
{
    if ids.len() == 0 {
        0u64
    } else {
        spec_mask(ids.drop_last()) | (1u64 << ids.last())
    }
}

/// Every member index of a mask has its bit set in the mask.
pub proof fn lemma_mask_has_member(ids: Seq<usize>, j: int)
    requires
        0 <= j < ids.len(),
        forall|k: int| 0 <= k < ids.len() ==> ids[k] < 64,
    ensures
        spec_bit(spec_mask(ids), ids[j]),
    decreases ids.len(),
{
    let last = ids.last();
    let rest = ids.drop_last();
    lemma_or_bit(spec_mask(rest), 1u64 << last, ids[j]);
    if j == ids.len() - 1 {
        lemma_single_bit(last, ids[j]);
    } else {
        lemma_mask_has_member(rest, j);
    }
}

/// Simulated device environment: the shared state of one backend
/// instance, from which input and output pins are created and driven.
pub struct SimEnvironment {
    input_state: u64,
    output_state: u64,
    input_changed: u64,
    is_output: u64,
    can_change_type: u64,
}

/// Simulated input pin: an index into the environment it was created from.
pub struct SimInputPin {
    index: usize,
}

/// Simulated group of input pins: the member indices in group order,
/// together with their combined wait mask.
pub struct SimInputPinGroup {
    indices: Vec<usize>,
    mask: u64,
}

/// Simulated output pin: an index into the environment it was created from.
pub struct SimOutputPin {
    index: usize,
}

impl SimEnvironment {
    /// The input-level word: bit `i` is the level of pin `i`.
    pub closed spec fn inputs(&self) -> u64 {
        self.input_state
    }

    /// The output-level word: bit `i` is the level written to pin `i`.
    pub closed spec fn outputs(&self) -> u64 {
        self.output_state
    }

    /// The pending-change word: bit `i` records a change of input `i`
    /// that no waiter has consumed yet.
    pub closed spec fn pending(&self) -> u64 {
        self.input_changed
    }

    /// The direction word: bit `i` is set when pin `i` is an output.
    pub closed spec fn directions(&self) -> u64 {
        self.is_output
    }

    /// The capability word: bit `i` is set when pin `i` may change
    /// direction.
    pub closed spec fn convertible(&self) -> u64 {
        self.can_change_type
    }

    /// Creates a fresh environment with all levels low, nothing pending
    /// and no capabilities granted.
    pub fn new() -> (env: SimEnvironment)
        ensures
            env.inputs() == 0u64,
            env.outputs() == 0u64,
            env.pending() == 0u64,
            env.directions() == 0u64,
            env.convertible() == 0u64,
    {
        SimEnvironment {
            input_state: 0,
            output_state: 0,
            input_changed: 0,
            is_output: 0,
            can_change_type: 0,
        }
    }

    /// Registers `index` as an input pin, records whether it may change
    /// direction, resets its levels and its pending bit, and returns a
    /// handle for it.  Re-registering an index overwrites its prior role.
    pub fn create_input_pin(&mut self, index: usize, can_change_type: bool) -> (pin: SimInputPin)
        requires
            index < 64,
        ensures
            pin.wf_handle(),
            pin.id() == index,
            final(self).inputs() == spec_set_bit(old(self).inputs(), index, false),
            final(self).outputs() == spec_set_bit(old(self).outputs(), index, false),
            final(self).pending() == spec_set_bit(old(self).pending(), index, false),
            final(self).directions() == spec_set_bit(old(self).directions(), index, false),
            final(self).convertible() == spec_set_bit(old(self).convertible(), index, can_change_type),
    {
        self.can_change_type = set_bit(self.can_change_type, index, can_change_type);
        self.is_output = set_bit(self.is_output, index, false);
        self.input_state = set_bit(self.input_state, index, false);
        self.output_state = set_bit(self.output_state, index, false);
        self.input_changed = set_bit(self.input_changed, index, false);
        SimInputPin { index }
    }

    /// Registers `index` as an output pin; otherwise as
    /// [`SimEnvironment::create_input_pin`].
    pub fn create_output_pin(&mut self, index: usize, can_change_type: bool) -> (pin: SimOutputPin)
        requires
            index < 64,
        ensures
            pin.wf_handle(),
            pin.id() == index,
            final(self).inputs() == spec_set_bit(old(self).inputs(), index, false),
            final(self).outputs() == spec_set_bit(old(self).outputs(), index, false),
            final(self).pending() == spec_set_bit(old(self).pending(), index, false),
            final(self).directions() == spec_set_bit(old(self).directions(), index, true),
            final(self).convertible() == spec_set_bit(old(self).convertible(), index, can_change_type),
    {
        self.can_change_type = set_bit(self.can_change_type, index, can_change_type);
        self.is_output = set_bit(self.is_output, index, true);
        self.input_state = set_bit(self.input_state, index, false);
        self.output_state = set_bit(self.output_state, index, false);
        self.input_changed = set_bit(self.input_changed, index, false);
        SimOutputPin { index }
    }

    /// Drives input `index` to `value` and records the change as pending,
    /// in one step, so no waiter can observe the new level without also
    /// seeing the pending bit.  This is the only way test code drives
    /// simulated inputs.
    pub fn write_input(&mut self, index: usize, value: bool)
        requires
            index < 64,
        ensures
            final(self).inputs() == spec_set_bit(old(self).inputs(), index, value),
            final(self).pending() == spec_set_bit(old(self).pending(), index, true),
            final(self).outputs() == old(self).outputs(),
            final(self).directions() == old(self).directions(),
            final(self).convertible() == old(self).convertible(),
    {
        self.input_state = set_bit(self.input_state, index, value);
        self.input_changed = set_bit(self.input_changed, index, true);
    }

    /// Returns the output level last written to `index`, for tests that
    /// assert on driven outputs.
    pub fn read_output(&self, index: usize) -> (r: bool)
        requires
            index < 64,
        ensures
            r == spec_bit(self.outputs(), index),
    {
        get_bit(self.output_state, index)
    }

    /// Consumes the pending changes under `mask`.  A caller establishes
    /// that a relevant change is pending; the blocking form of this wait
    /// belongs to the thread harness around the library.
    pub fn wait(&mut self, mask: u64)
        requires
            old(self).pending() & mask != 0,
        ensures
            final(self).pending() == old(self).pending() & !mask,
            final(self).inputs() == old(self).inputs(),
            final(self).outputs() == old(self).outputs(),
            final(self).directions() == old(self).directions(),
            final(self).convertible() == old(self).convertible(),
    {
        self.input_changed = self.input_changed & !mask;
    }

    /// Consumes and returns the pending changes under `mask` if there are
    /// any; with no relevant change recorded, reports an expired wait and
    /// leaves the state untouched.
    pub fn wait_timeout(&mut self, mask: u64) -> (r: Option<u64>)
        ensures
            old(self).pending() & mask != 0 ==> r == Some(old(self).pending() & mask),
            old(self).pending() & mask == 0 ==> r is None,
            final(self).pending() == old(self).pending() & !mask,
            final(self).inputs() == old(self).inputs(),
            final(self).outputs() == old(self).outputs(),
            final(self).directions() == old(self).directions(),
            final(self).convertible() == old(self).convertible(),
    {
        let changed = self.input_changed & mask;
        if changed != 0 {
            self.input_changed = self.input_changed & !mask;
            Some(changed)
        } else {
            proof {
                let w = self.input_changed;
                assert(w & mask == 0 ==> w & !mask == w) by (bit_vector);
            }
            None
        }
    }
}

impl SimInputPin {
    /// The pin's index within its environment.
    pub closed spec fn id(&self) -> usize {
        self.index
    }

    /// The handle is well formed when its index fits the 64-bit state
    /// words.
    pub closed spec fn wf_handle(&self) -> bool {
        self.index < 64
    }
}

impl SimOutputPin {
    /// The pin's index within its environment.
    pub closed spec fn id(&self) -> usize {
        self.index
    }

    /// The handle is well formed when its index fits the 64-bit state
    /// words.
    pub closed spec fn wf_handle(&self) -> bool {
        self.index < 64
    }
}

impl SimInputPinGroup {
    /// The member indices in group order.
    pub closed spec fn ids(&self) -> Seq<usize> {
        self.indices@
    }

    /// The combined wait mask of the members.
    pub closed spec fn mask(&self) -> u64 {
        self.mask
    }

    /// Number of pins in the group.
    pub open spec fn len_spec(&self) -> nat {
        self.ids().len()
    }

    /// Maps a word indexed by pin index to a word indexed by group
    /// position: bit `j` of the result is bit `ids()[j]` of `changed`.
    pub fn indices_to_pin_bitmap(&self, changed: u64) -> (r: u64)
        requires
            self.wf(),
        ensures
            forall|j: usize|
                j < self.ids().len() ==> #[trigger] spec_bit(r, j) == spec_bit(
                    changed,
                    self.ids()[j as int],
                ),
            forall|j: usize| self.ids().len() <= j < 64 ==> !#[trigger] spec_bit(r, j),
    {
        let mut pins: u64 = 0;
        let mut i: usize = 0;
        proof {
            assert forall|j: usize| j < 64 implies !spec_bit(0u64, j) by {
                assert(j < 64 ==> !spec_bit(0u64, j)) by (bit_vector);
            }
        }
        while i < self.indices.len()
            invariant
                self.wf(),
                i <= self.ids().len(),
                forall|j: usize|
                    j < i ==> #[trigger] spec_bit(pins, j) == spec_bit(
                        changed,
                        self.ids()[j as int],
                    ),
                forall|j: usize| i <= j < 64 ==> !#[trigger] spec_bit(pins, j),
            decreases self.indices.len() - i,
        {
            let v = get_bit(changed, self.indices[i]);
            let next = set_bit(pins, i, v);
            proof {
                assert forall|j: usize| j < 64 implies #[trigger] spec_bit(next, j) == if j == i {
                    v
                } else {
                    spec_bit(pins, j)
                } by {
                    lemma_set_bit_effect(pins, i, j, v);
                }
            }
            pins = next;
            i = i + 1;
        }
        pins
    }
}

impl InputPin for SimInputPin {
    type Env = SimEnvironment;

    type Output = SimOutputPin;

    type Group = SimInputPinGroup;

    /// The handle is well formed when its index fits the 64-bit state
    /// words.
    open spec fn wf(&self) -> bool {
        self.wf_handle()
    }

    /// A change of this pin is pending when its bit of the pending word
    /// is set.
    open spec fn pending(&self, env: &SimEnvironment) -> bool {
        spec_bit(env.pending(), self.id())
    }

    /// The pin may change direction when its capability bit is set.
    open spec fn convertible(&self, env: &SimEnvironment) -> bool {
        spec_bit(env.convertible(), self.id())
    }

    /// A non-empty collection of at most 64 well-formed pins with
    /// pairwise distinct indices may form a group.
    open spec fn groupable(pins: Seq<SimInputPin>) -> bool {
        &&& pins.len() > 0
        &&& pins.len() <= 64
        &&& forall|k: int| 0 <= k < pins.len() ==> (#[trigger] pins[k]).wf_handle()
        &&& forall|k1: int, k2: int|
            0 <= k1 < k2 < pins.len() ==> pins[k1].id() != pins[k2].id()
    }

    /// Reads the pin's current input level.
    fn read(&self, env: &SimEnvironment) -> (r: bool)
        ensures
            r == spec_bit(env.inputs(), self.id()),
    {
        get_bit(env.input_state, self.index)
    }

    /// Consumes the pin's pending change; the levels stay as they are.
    fn wait(&self, env: &mut SimEnvironment)
        ensures
            final(env).pending() == old(env).pending() & !(1u64 << self.id()),
            final(env).inputs() == old(env).inputs(),
            final(env).outputs() == old(env).outputs(),
            final(env).directions() == old(env).directions(),
            final(env).convertible() == old(env).convertible(),
    {
        env.wait(1u64 << self.index);
        proof {
            lemma_and_not_bit(old(env).pending(), 1u64 << self.index, self.index);
            lemma_single_bit(self.index, self.index);
        }
    }

    /// Consumes the pin's pending change if there is one, returning
    /// whether a change was observed.  The state model has no clock: a
    /// call with no recorded change reports an expired wait at once,
    /// whatever the bound.
    fn wait_timeout(&self, env: &mut SimEnvironment, _timeout_ms: u64) -> (changed: bool)
        ensures
            changed == self.pending(&*old(env)),
            final(env).pending() == old(env).pending() & !(1u64 << self.id()),
            final(env).inputs() == old(env).inputs(),
            final(env).outputs() == old(env).outputs(),
            final(env).directions() == old(env).directions(),
            final(env).convertible() == old(env).convertible(),
    {
        let r = match env.wait_timeout(1u64 << self.index) {
            Some(_) => true,
            None => false,
        };
        proof {
            lemma_and_not_bit(old(env).pending(), 1u64 << self.index, self.index);
            lemma_single_bit(self.index, self.index);
        }
        r
    }

    /// Forms a group from the pins, consuming them; the group lists the
    /// pins' indices in the order they were passed.
    fn create_group(pins: Vec<SimInputPin>) -> (g: SimInputPinGroup)
        ensures
            g.wf(),
            g.ids() =~= pins@.map_values(|p: SimInputPin| p.id()),
    {
        let mut indices: Vec<usize> = Vec::new();
        let mut mask: u64 = 0;
        let mut i: usize = 0;
        while i < pins.len()
            invariant
                Self::groupable(pins@),
                i <= pins@.len(),
                indices@ =~= pins@.take(i as int).map_values(|p: SimInputPin| p.id()),
                mask == spec_mask(indices@),
            decreases pins.len() - i,
        {
            let index = pins[i].index;
            proof {
                assert(pins@.take(i as int + 1).drop_last() =~= pins@.take(i as int));
                assert(pins@.take(i as int + 1).map_values(|p: SimInputPin| p.id()).drop_last()
                    =~= pins@.take(i as int).map_values(|p: SimInputPin| p.id()));
            }
            indices.push(index);
            mask = mask | (1u64 << index);
            i = i + 1;
        }
        proof {
            assert(pins@.take(pins@.len() as int) =~= pins@);
        }
        SimInputPinGroup { indices, mask }
    }

    /// Converts the pin into an output pin with the same index,
    /// consuming it and recording the new direction.
    fn into_output(self, env: &mut SimEnvironment) -> (out: SimOutputPin)
        ensures
            out.wf_handle(),
            out.id() == self.id(),
            final(env).directions() == spec_set_bit(old(env).directions(), self.id(), true),
            final(env).inputs() == old(env).inputs(),
            final(env).outputs() == old(env).outputs(),
            final(env).pending() == old(env).pending(),
            final(env).convertible() == old(env).convertible(),
    {
        env.is_output = set_bit(env.is_output, self.index, true);
        SimOutputPin { index: self.index }
    }
}

impl InputPinGroup for SimInputPinGroup {
    type Env = SimEnvironment;

    type Pin = SimInputPin;

    /// The group is well formed when it is non-empty, fits the 64-bit
    /// state words, lists pairwise distinct indices and carries the
    /// matching wait mask.
    open spec fn wf(&self) -> bool {
        &&& self.ids().len() > 0
        &&& self.ids().len() <= 64
        &&& forall|k: int| 0 <= k < self.ids().len() ==> (#[trigger] self.ids()[k]) < 64
        &&& forall|k1: int, k2: int|
            0 <= k1 < k2 < self.ids().len() ==> self.ids()[k1] != self.ids()[k2]
        &&& self.mask() == spec_mask(self.ids())
    }

    /// A change of the group is pending when some member's bit of the
    /// pending word is set.
    open spec fn pending(&self, env: &SimEnvironment) -> bool {
        env.pending() & self.mask() != 0
    }

    /// Reads all member levels into one word: bit `j` is the level of the
    /// `j`-th member pin.
    fn read(&self, env: &SimEnvironment) -> (r: u64)
        ensures
            forall|j: usize|
                j < self.ids().len() ==> #[trigger] spec_bit(r, j) == spec_bit(
                    env.inputs(),
                    self.ids()[j as int],
                ),
            forall|j: usize| self.ids().len() <= j < 64 ==> !#[trigger] spec_bit(r, j),
    {
        self.indices_to_pin_bitmap(env.input_state)
    }

    /// Consumes the members' pending changes; the levels stay as they
    /// are.
    fn wait(&self, env: &mut SimEnvironment)
        ensures
            final(env).pending() == old(env).pending() & !self.mask(),
            final(env).inputs() == old(env).inputs(),
            final(env).outputs() == old(env).outputs(),
            final(env).directions() == old(env).directions(),
            final(env).convertible() == old(env).convertible(),
    {
        env.wait(self.mask);
        proof {
            let w = old(env).pending();
            let m = self.mask;
            assert((w & !m) & m == 0) by (bit_vector);
        }
    }

    /// Consumes the members' pending changes if there are any: `Some(m)`
    /// has bit `j` set exactly when the `j`-th member had a pending
    /// change; `None` reports an expired wait, at once — the state
    /// model has no clock.
    fn wait_timeout(&self, env: &mut SimEnvironment, _timeout_ms: u64) -> (changes: Option<u64>)
        ensures
            changes is Some <==> self.pending(&*old(env)),
            changes matches Some(m) ==> {
                &&& forall|j: usize|
                    j < self.ids().len() ==> #[trigger] spec_bit(m, j) == spec_bit(
                        old(env).pending(),
                        self.ids()[j as int],
                    )
                &&& forall|j: usize| self.ids().len() <= j < 64 ==> !#[trigger] spec_bit(m, j)
            },
            final(env).pending() == old(env).pending() & !self.mask(),
            final(env).inputs() == old(env).inputs(),
            final(env).outputs() == old(env).outputs(),
            final(env).directions() == old(env).directions(),
            final(env).convertible() == old(env).convertible(),
    {
        proof {
            let w = old(env).pending();
            let m = self.mask;
            assert((w & !m) & m == 0) by (bit_vector);
        }
        match env.wait_timeout(self.mask) {
            Some(changed) => {
                let m = self.indices_to_pin_bitmap(changed);
                proof {
                    assert forall|j: usize| j < self.ids().len() implies #[trigger] spec_bit(m, j)
                        == spec_bit(old(env).pending(), self.ids()[j as int]) by {
                        lemma_and_bit(old(env).pending(), self.mask, self.ids()[j as int]);
                        lemma_mask_has_member(self.ids(), j as int);
                    }
                }
                Some(m)
            },
            None => None,
        }
    }

    /// Returns the number of pins in this group.
    fn len(&self) -> (n: usize)
        ensures
            n == self.len_spec(),
    {
        self.indices.len()
    }

    /// Splits the group into its member pins, in group order, consuming
    /// it; each pin is independently usable again.
    fn split(self) -> (pins: Vec<SimInputPin>)
        ensures
            pins@.len() == self.len_spec(),
            forall|j: int|
                0 <= j < self.ids().len() ==> (#[trigger] pins@[j]).wf_handle() && pins@[j].id()
                    == self.ids()[j],
    {
        let mut pins: Vec<SimInputPin> = Vec::new();
        let mut i: usize = 0;
        while i < self.indices.len()
            invariant
                self.wf(),
                i <= self.ids().len(),
                pins@.len() == i,
                forall|j: int| 0 <= j < i ==> (#[trigger] pins@[j]).wf_handle() && pins@[j].id()
                    == self.ids()[j],
            decreases self.indices.len() - i,
        {
            pins.push(SimInputPin { index: self.indices[i] });
            i = i + 1;
        }
        pins
    }
}

impl OutputPin for SimOutputPin {
    type Env = SimEnvironment;

    type Input = SimInputPin;

    /// The handle is well formed when its index fits the 64-bit state
    /// words.
    open spec fn wf(&self) -> bool {
        self.wf_handle()
    }

    /// The pin may change direction when its capability bit is set.
    open spec fn convertible(&self, env: &SimEnvironment) -> bool {
        spec_bit(env.convertible(), self.id())
    }

    /// Drives the pin's output level to `value`.
    fn write(&self, env: &mut SimEnvironment, value: bool)
        ensures
            final(env).outputs() == spec_set_bit(old(env).outputs(), self.id(), value),
            final(env).inputs() == old(env).inputs(),
            final(env).pending() == old(env).pending(),
            final(env).directions() == old(env).directions(),
            final(env).convertible() == old(env).convertible(),
    {
        env.output_state = set_bit(env.output_state, self.index, value);
    }

    /// Converts the pin into an input pin with the same index, consuming
    /// it and recording the new direction.
    fn into_input(self, env: &mut SimEnvironment) -> (pin: SimInputPin)
        ensures
            pin.wf_handle(),
            pin.id() == self.id(),
            final(env).directions() == spec_set_bit(old(env).directions(), self.id(), false),
            final(env).inputs() == old(env).inputs(),
            final(env).outputs() == old(env).outputs(),
            final(env).pending() == old(env).pending(),
            final(env).convertible() == old(env).convertible(),
    {
        env.is_output = set_bit(env.is_output, self.index, false);
        SimInputPin { index: self.index }
    }
}

/// Driving an input and then reading the same index back yields the
/// driven value: the single-pin round trip on the simulated backend.
pub proof fn lemma_write_then_read(w: u64, i: usize, v: bool)
    requires
        i < 64,
    ensures
        spec_bit(spec_set_bit(w, i, v), i) == v,
{
    lemma_set_bit_effect(w, i, i, v);
}

/// Driving an input and then reading a group that contains the index
/// yields the driven value at the member's position: the group round
/// trip on the simulated backend.  `r` is any word with the group-read
/// relation to the written state, as [`InputPinGroup::read`] ensures it.
pub proof fn lemma_write_then_group_read(w: u64, ids: Seq<usize>, j: usize, v: bool, r: u64)
    requires
        j < ids.len(),
        ids.len() <= 64,
        forall|k: int| 0 <= k < ids.len() ==> ids[k] < 64,
        forall|q: usize|
            q < ids.len() ==> #[trigger] spec_bit(r, q) == spec_bit(
                spec_set_bit(w, ids[j as int], v),
                ids[q as int],
            ),
    ensures
        spec_bit(r, j) == v,
{
    lemma_set_bit_effect(w, ids[j as int], ids[j as int], v);
}

} // verus!
