//! Receiver state machines.
use crate::cmd::Command;
use crate::protocols::utils::valid_samplerate;
use crate::protocols::ProtocolId;
use vstd::prelude::*;

verus! {

/// Receive error
#[derive(PartialEq, Eq, Copy, Clone, Debug, Structural)]
pub enum Error {
    /// Error while decoding address
    Address(u32),
    /// Error decoding data bits: an interval of this many samples fits no pulse width
    Data(u32),
    /// Receiver specific error
    Other(u32),
}

/// Protocol decoder state
#[derive(PartialEq, Eq, Copy, Clone, Debug)]
pub enum State<CMD> {
    /// Idle
    Idle,
    /// Receiving data
    Receiving,
    /// Command successfully decoded
    Done(CMD),
    /// Error while decoding
    Error(Error),
}

/// Receiver state machine, driven by the edges of the input signal.
pub trait Receiver: Sized {
    /// Protocol id
    const ID: ProtocolId;

    /// The resulting command type
    type Cmd: Command;

    /// What the decoder relies on between calls.
    spec fn wf(&self) -> bool;

    /// The decoder that `with_samplerate` creates.
    spec fn fresh(samplerate: u32) -> Self;

    /// The decoder after an edge at `time`.
    spec fn step(self, edge: bool, time: u32) -> Self;

    /// What the decoder reports in its present state.
    spec fn output(self) -> State<Self::Cmd>;

    /// The decoder after a reset.
    spec fn cleared(self) -> Self;

    /// Create a new Receiver of this type
    fn with_samplerate(samplerate: u32) -> (r: Self)
        requires
            valid_samplerate(samplerate),
        ensures
            r == Self::fresh(samplerate),
            r.wf(),
            r.output() is Idle,
    ;

    /// Add event to state machine: `edge` is true for a rising edge, `time` is the
    /// wrapping sample counter at the edge.
    fn event(&mut self, edge: bool, time: u32) -> (s: State<Self::Cmd>)
        requires
            old(self).wf(),
        ensures
            *final(self) == old(self).step(edge, time),
            s == final(self).output(),
            final(self).wf(),
    ;

    /// Reset receiver
    fn reset(&mut self)
        requires
            old(self).wf(),
        ensures
            *final(self) == old(self).cleared(),
            final(self).wf(),
            final(self).output() is Idle,
    ;

    /// A reset decoder is idle, and a second reset changes nothing.
    proof fn lemma_cleared(self)
        requires
            self.wf(),
        ensures
            self.cleared().wf(),
            self.cleared().output() is Idle,
            self.cleared().cleared() == self.cleared(),
    ;

    /// A decoder that has surfaced a command, or an error, keeps reporting it, whatever
    /// edges follow, until it is reset.
    proof fn lemma_outcome_holds(self, edge: bool, time: u32)
        requires
            self.wf(),
            self.output() is Done || self.output() is Error,
        ensures
            self.step(edge, time).wf(),
            self.step(edge, time).output() == self.output(),
    ;
}

} // verus!
