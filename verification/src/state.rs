//! Call-control state machine skeleton: the consumer-side states the
//! orchestrator moves through as it drains decoder events.
//!
//! The orchestration itself — draining the event channel and driving a
//! call engine — is outside this core; the library only fixes the state
//! vocabulary and the starting state.

use vstd::prelude::*;

verus! {

/// The orchestrator's call-control states.
#[derive(Clone, Copy, Debug, PartialEq, Eq, Structural)]
pub enum State {
    /// No connection to a SIP registrar.
    Unregistered,
    /// Registered and idle.
    Ready,
    /// Digits are being dialed.
    Dialing,
    /// A call is ringing in.
    IncomingCall,
    /// A call is in progress.
    ActiveCall,
    /// A call is in progress, but the connection to the registrar
    /// failed; becomes `Unregistered` after the call.
    ActiveCallRegistrationFailed,
    /// An incoming call was rejected.
    CallRejected,
}

/// The orchestrator's state machine.
pub struct StateMachine {
    state: State,
}

impl StateMachine {
    /// The machine's current state.
    pub closed spec fn state_spec(&self) -> State {
        self.state
    }

    /// A fresh state machine, ready for events.
    pub fn new() -> (m: StateMachine)
        ensures
            m.state_spec() == State::Ready,
    {
        StateMachine { state: State::Ready }
    }
}

} // verus!
