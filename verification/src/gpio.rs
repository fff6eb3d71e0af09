//! Capability traits for GPIO input/output pins and pin groups.
//!
//! The traits are polymorphic over the backend.  Every operation takes the
//! backend state it acts on as an explicit `Env` parameter, so that a
//! backend whose state is an ordinary value (such as the simulated backend)
//! can give each operation an exact contract over that state.
//!
//! Trait-level contracts state only what every backend can promise; a
//! concrete backend strengthens them with `ensures` of its own.

use vstd::prelude::*;

verus! {

/// Single GPIO input pin with support for change interrupts.
pub trait InputPin: Sized {
    /// Backend state the pin reads from.
    type Env;

    /// Type of the corresponding output pin (see [`InputPin::into_output`]).
    type Output;

    /// Group of multiple input pins read together
    /// (see [`InputPin::create_group`]).
    type Group;

    /// Well-formedness of the pin handle itself; a backend without a
    /// statable handle model leaves this permissive.
    open spec fn wf(&self) -> bool {
        true
    }

    /// Whether a change of this pin's level is pending in `env`; a
    /// backend whose pending changes live outside its `Env` leaves this
    /// permissive, and its waits may block.
    open spec fn pending(&self, env: &Self::Env) -> bool {
        true
    }

    /// Whether this pin may be converted into an output pin.
    open spec fn convertible(&self, env: &Self::Env) -> bool {
        true
    }

    /// Which collections of pins may be formed into a group.
    open spec fn groupable(pins: Seq<Self>) -> bool {
        true
    }

    /// Reads the level at the pin.
    fn read(&self, env: &Self::Env) -> bool
        requires
            self.wf(),
    ;

    /// Consumes a pending change of this pin.  A backend with blocking
    /// waits blocks until a change arrives; callers of this in-process
    /// form establish that a change is already pending.
    fn wait(&self, env: &mut Self::Env)
        requires
            self.wf(),
            self.pending(&*old(env)),
        ensures
            !self.pending(&*final(env)),
    ;

    /// Consumes a pending change of this pin if there is one, returning
    /// whether a change was observed; otherwise reports a wait that
    /// expired after at most `timeout_ms` milliseconds.
    fn wait_timeout(&self, env: &mut Self::Env, timeout_ms: u64) -> (changed: bool)
        requires
            self.wf(),
        ensures
            !self.pending(&*final(env)),
    ;

    /// Groups input pins of one backend into a pin group, consuming them,
    /// so that a single call can wait for changes of any member.
    fn create_group(pins: Vec<Self>) -> Self::Group
        requires
            Self::groupable(pins@),
    ;

    /// Converts this input pin into an output pin with the same identity,
    /// consuming it.
    fn into_output(self, env: &mut Self::Env) -> Self::Output
        requires
            self.wf(),
            self.convertible(&*old(env)),
    ;
}

/// Group of input pins which supports reading all members at once and
/// waiting for a change of any member.
pub trait InputPinGroup: Sized {
    /// Backend state the group reads from.
    type Env;

    /// Type of the individual input pins.
    type Pin;

    /// Well-formedness of the group handle; a backend without a
    /// statable handle model leaves this permissive.
    open spec fn wf(&self) -> bool {
        true
    }

    /// Whether a change of some member pin is pending in `env`; as
    /// with [`InputPin::pending`].
    open spec fn pending(&self, env: &Self::Env) -> bool {
        true
    }

    /// Reads the levels of all member pins: bit `i` of the result is the
    /// level of the `i`-th pin in group order.  The pins are sampled one
    /// by one, not atomically across pins.
    fn read(&self, env: &Self::Env) -> u64
        requires
            self.wf(),
    ;

    /// Consumes a pending change of some member pin.  As with
    /// [`InputPin::wait`], callers establish that a change is pending.
    fn wait(&self, env: &mut Self::Env)
        requires
            self.wf(),
            self.pending(&*old(env)),
        ensures
            !self.pending(&*final(env)),
    ;

    /// Consumes pending changes of the member pins if there are any.
    /// `Some(m)` has bit `i` set exactly when the `i`-th pin had a pending
    /// change; `None` reports a wait that expired after at most
    /// `timeout_ms` milliseconds.
    fn wait_timeout(&self, env: &mut Self::Env, timeout_ms: u64) -> (changes: Option<u64>)
        requires
            self.wf(),
        ensures
            !self.pending(&*final(env)),
    ;

    /// Returns the number of pins in this group.
    fn len(&self) -> (n: usize)
        requires
            self.wf(),
    ;

    /// Splits the group into its individual pins, in group order,
    /// consuming it.
    fn split(self) -> (pins: Vec<Self::Pin>)
        requires
            self.wf(),
    ;
}

/// Single GPIO output pin.
pub trait OutputPin: Sized {
    /// Backend state the pin writes to.
    type Env;

    /// Type of the corresponding input pin (see [`OutputPin::into_input`]).
    type Input;

    /// Well-formedness of the pin handle itself; a backend without a
    /// statable handle model leaves this permissive.
    open spec fn wf(&self) -> bool {
        true
    }

    /// Whether this pin may be converted into an input pin.
    open spec fn convertible(&self, env: &Self::Env) -> bool {
        true
    }

    /// Sets the level of the pin.
    fn write(&self, env: &mut Self::Env, value: bool)
        requires
            self.wf(),
    ;

    /// Converts this output pin into an input pin with the same identity,
    /// consuming it.
    fn into_input(self, env: &mut Self::Env) -> Self::Input
        requires
            self.wf(),
            self.convertible(&*old(env)),
    ;
}

} // verus!
