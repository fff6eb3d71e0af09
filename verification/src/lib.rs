//! Decoding core for a rotary-dial telephone wired to GPIO contacts.
//!
//! The crate translates raw switch transitions into typed events: the pulse
//! dial decoder turns make/break pulse trains on a dial-engaged contact and a
//! pulse contact into a dialed digit, and the hook decoder turns a single
//! contact's level into pickup/put-down events.  A simulated hardware backend
//! makes both decoders deterministically testable without physical GPIO.
//!
//! All switch inputs are active-low: a `false` level means the physical
//! switch is closed.

use vstd::prelude::*;

pub mod bits;
pub mod dial;
pub mod earpiece;
pub mod gpio;
pub mod sim;
pub mod state;

verus! {

/// A decoded event, produced by the decoders and consumed by the
/// call-control orchestrator.
#[derive(Clone, Copy, Debug, PartialEq, Eq, Structural)]
pub enum Event {
    /// One complete, valid pulse train; the digit is in `0..=9`.
    Dialed(u32),
    /// The hook contact opened: the handset was lifted.
    EarpiecePickedUp,
    /// The hook contact closed: the handset was replaced.
    EarpiecePutDown,
    /// The call engine reported a successful registration.
    Registered,
    /// The call engine reported a lost registration.
    Unregistered,
}

/// What a decoder worker decides to do after one wake of its bounded wait.
///
/// The worker loop around a decoder performs the blocking wait and the
/// channel send; the decoder itself only decides, through
/// [`dial::DialState::wake`] and [`earpiece::HookState::wake`], which of
/// these directives applies.
#[derive(Clone, Copy, Debug, PartialEq, Eq, Structural)]
pub enum Directive {
    /// Shutdown was requested: stop immediately without emitting anything.
    Terminate,
    /// Deliver this event to the consumer.
    Emit(Event),
    /// Nothing to deliver; wait again.
    Idle,
}

} // verus!
