//! Sender that gates the carrier of a PWM pin.
//!
//! The pin is switched by the caller: `tick` says whether the carrier is to be on.
use crate::cmd::Command;
use crate::protocols::utils::{period_us, valid_samplerate};
use crate::sender::{scaled, PulsetrainSender, State};
use vstd::prelude::*;

verus! {

/// Whether the carrier is on in the state `state` of a sender.
pub open spec fn carrier_on(state: State) -> bool {
    state == State::Transmit(true)
}

/// Sender for a PWM pin, stepped once for each sample
pub struct HalSender<PWMPIN> {
    /// The playback state machine
    pub pts: PulsetrainSender,
    /// The pin used
    pub pin: PWMPIN,
    /// The sample counter
    pub counter: u32,
}

impl<PWMPIN> HalSender<PWMPIN> {
    /// The playback state machine is well formed.
    pub open spec fn wf(&self) -> bool {
        self.pts.wf()
    }

    /// Create an idle sender on `pin` for the given sample rate
    pub fn new(samplerate: u32, pin: PWMPIN) -> (s: Self)
        requires
            valid_samplerate(samplerate),
        ensures
            s.wf(),
            s.pin == pin,
            s.counter == 0,
            s.pts.state == State::Idle,
            s.pts.index == 0,
            s.pts.ts_lastedge == 0,
            s.pts.ptb.len == 0,
            s.pts.ptb.scaler == period_us(samplerate),
    {
        HalSender { pts: PulsetrainSender::new(samplerate), pin, counter: 0 }
    }

    /// Load a command for sending. A sender that is not idle keeps what it sends.
    pub fn load<C: Command>(&mut self, cmd: &C)
        requires
            old(self).wf(),
        ensures
            final(self).wf(),
            final(self).pin == old(self).pin,
            final(self).counter == old(self).counter,
            old(self).pts.state != State::Idle ==> final(self).pts == old(self).pts,
            old(self).pts.state == State::Idle ==> ({
                &&& final(self).pts.state == State::Idle
                &&& final(self).pts.index == 0
                &&& final(self).pts.ts_lastedge == old(self).pts.ts_lastedge
                &&& final(self).pts.ptb.scaler == old(self).pts.ptb.scaler
                &&& final(self).pts.ptb.cells() == scaled(cmd.pulses(), old(self).pts.ptb.scaler)
            }),
    {
        match self.pts.state {
            State::Idle => {
                self.pts.load(cmd);
            },
            _ => {},
        }
    }

    /// Count one sample and advance the playback to it: the result says whether the
    /// carrier is to be on from now.
    pub fn tick(&mut self) -> (enable: bool)
        requires
            old(self).wf(),
        ensures
            final(self).wf(),
            final(self).pin == old(self).pin,
            final(self).counter == (old(self).counter + 1) % 0x1_0000_0000,
            final(self).pts == old(self).pts.ticked(final(self).counter),
            enable == carrier_on(final(self).pts.state),
    {
        self.counter = self.counter.wrapping_add(1);
        match self.pts.tick(self.counter) {
            State::Transmit(enable) => enable,
            State::Idle => false,
            State::Error => false,
        }
    }
}

} // verus!
