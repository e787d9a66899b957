//! Transmitter state machine
use vstd::prelude::*;

verus! {

/// Transmitter state
#[derive(Debug, PartialEq, Eq, Copy, Clone, Structural)]
pub enum State {
    /// Transmitter is ready for transmitting
    Idle,
    /// Transmitting, with the carrier on or off
    Transmit(bool),
    /// Error state
    Error,
}

impl State {
    /// Whether the carrier is on in this state.
    pub open spec fn carrier_on(self) -> bool {
        self == State::Transmit(true)
    }

    /// Whether the carrier of a PWM pin is to be on in this state.
    pub fn carrier(&self) -> (on: bool)
        ensures
            on == self.carrier_on(),
    {
        match self {
            State::Transmit(true) => true,
            _ => false,
        }
    }
}

/// Transmitter
pub trait Statemachine<CMD>: Sized {
    /// What the transmitter relies on between calls.
    spec fn wf(&self) -> bool;

    /// The transmitter after `cmd` was loaded.
    spec fn loaded(self, cmd: CMD) -> Self;

    /// The transmitter after a step at `ts`.
    spec fn stepped(self, ts: u32) -> Self;

    /// What the transmitter drives in its present state.
    spec fn output(self) -> State;

    /// The transmitter after a reset.
    spec fn cleared(self) -> Self;

    /// Load command into transmitter
    fn load(&mut self, cmd: CMD)
        requires
            old(self).wf(),
        ensures
            *final(self) == old(self).loaded(cmd),
            final(self).wf(),
    ;

    /// Step the transfer loop
    fn step(&mut self, ts: u32) -> (s: State)
        requires
            old(self).wf(),
        ensures
            *final(self) == old(self).stepped(ts),
            s == final(self).output(),
            final(self).wf(),
    ;

    /// Reset the transmitter
    fn reset(&mut self)
        requires
            old(self).wf(),
        ensures
            *final(self) == old(self).cleared(),
            final(self).wf(),
            final(self).output() == State::Idle,
    ;
}

} // verus!
