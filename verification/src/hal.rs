//! Receivers that follow the level of an input pin.
//!
//! The level is read by the caller and handed in: a pin pulled low by the infrared
//! receiver is the logical one.
use crate::protocols::utils::valid_samplerate;
use crate::recv::{Receiver, State};
use vstd::prelude::*;

pub mod sender;

pub use sender::HalSender;

verus! {

/// Offers one edge to the decoder `recv`: the command that the edge completed, if any,
/// and the decoder as it is left, reset after a command or an error.
pub open spec fn polled<R: Receiver>(recv: R, edge: bool, time: u32) -> (Option<R::Cmd>, R) {
    let next = recv.step(edge, time);
    match next.output() {
        State::Done(cmd) => (Some(cmd), next.cleared()),
        State::Error(_) => (None, next.cleared()),
        _ => (None, next),
    }
}

/// Offers one edge to the decoder and resets it after a command or an error.
pub fn poll<R: Receiver>(recv: &mut R, edge: bool, time: u32) -> (cmd: Option<R::Cmd>)
    requires
        old(recv).wf(),
    ensures
        cmd == polled(*old(recv), edge, time).0,
        *final(recv) == polled(*old(recv), edge, time).1,
        final(recv).wf(),
{
    match recv.event(edge, time) {
        State::Done(cmd) => {
            recv.reset();
            Some(cmd)
        },
        State::Error(_) => {
            recv.reset();
            None
        },
        _ => None,
    }
}

/// Receiver for one protocol on an input pin
pub struct IrReceiver<RECV, PIN> {
    /// The receiver state machine
    pub recv: RECV,
    /// The pin used
    pub pin: PIN,
    /// The level seen last
    pub pinval: bool,
}

impl<RECV: Receiver, PIN> IrReceiver<RECV, PIN> {
    /// Create a receiver from a state machine and a pin
    pub fn with_receiver(recv: RECV, pin: PIN) -> (r: Self)
        ensures
            r.recv == recv,
            r.pin == pin,
            r.pinval == false,
    {
        IrReceiver { recv, pin, pinval: false }
    }

    /// Create a receiver on `pin` for signals sampled at `samplerate`
    pub fn new(pin: PIN, samplerate: u32) -> (r: Self)
        requires
            valid_samplerate(samplerate),
        ensures
            r.recv == RECV::fresh(samplerate),
            r.recv.wf(),
            r.pin == pin,
            r.pinval == false,
    {
        IrReceiver { recv: RECV::with_samplerate(samplerate), pin, pinval: false }
    }

    /// Give the pin back
    pub fn destroy(self) -> (pin: PIN)
        ensures
            pin == self.pin,
    {
        self.pin
    }

    /// The receiver after a sample with level `pinval` at time `sample`, and the command
    /// that the sample completed: a level that is the same as before changes nothing; a
    /// new level is recorded and is an edge for the decoder.
    pub open spec fn sampled(self, pinval: bool, sample: u32) -> (Option<RECV::Cmd>, Self) {
        if self.pinval != pinval {
            let (cmd, recv) = polled(self.recv, pinval, sample);
            (cmd, IrReceiver { recv, pin: self.pin, pinval })
        } else {
            (None, self)
        }
    }

    /// Handle the level `pinval` that the pin has at time `sample`.
    pub fn sample(&mut self, pinval: bool, sample: u32) -> (cmd: Option<RECV::Cmd>)
        requires
            old(self).recv.wf(),
        ensures
            cmd == old(self).sampled(pinval, sample).0,
            *final(self) == old(self).sampled(pinval, sample).1,
            final(self).recv.wf(),
    {
        if self.pinval != pinval {
            self.pinval = pinval;
            poll(&mut self.recv, pinval, sample)
        } else {
            None
        }
    }
}

/// Receiver for two protocols on one input pin
pub struct IrReceiver2<RECV1, RECV2, PIN> {
    /// The pin used
    pub pin: PIN,
    /// The level seen last
    pub pinval: bool,
    /// The first state machine
    pub recv1: RECV1,
    /// The second state machine
    pub recv2: RECV2,
}

impl<RECV1: Receiver, RECV2: Receiver, PIN> IrReceiver2<RECV1, RECV2, PIN> {
    /// The decoders are well formed.
    pub open spec fn wf(&self) -> bool {
        self.recv1.wf() && self.recv2.wf()
    }

    /// Create a receiver from state machines and a pin
    pub fn with_receivers(recv1: RECV1, recv2: RECV2, pin: PIN) -> (r: Self)
        ensures
            r == (IrReceiver2 { pin, pinval: false, recv1, recv2 }),
    {
        IrReceiver2 { pin, pinval: false, recv1, recv2 }
    }

    /// Create a receiver on `pin` for signals sampled at `samplerate`
    pub fn new(pin: PIN, samplerate: u32) -> (r: Self)
        requires
            valid_samplerate(samplerate),
        ensures
            r == (IrReceiver2 {
                pin,
                pinval: false,
                recv1: RECV1::fresh(samplerate),
                recv2: RECV2::fresh(samplerate),
            }),
            r.wf(),
    {
        IrReceiver2 {
            pin,
            pinval: false,
            recv1: RECV1::with_samplerate(samplerate),
            recv2: RECV2::with_samplerate(samplerate),
        }
    }

    /// Give the pin back
    pub fn destroy(self) -> (pin: PIN)
        ensures
            pin == self.pin,
    {
        self.pin
    }

    /// Handle the level `pinval` that the pin has at time `ts`: each decoder sees a new
    /// level as an edge, and surfaces its command on its own.
    pub fn step(&mut self, pinval: bool, ts: u32) -> (cmds: (Option<RECV1::Cmd>, Option<RECV2::Cmd>))
        requires
            old(self).wf(),
        ensures
            final(self).wf(),
            final(self).pin == old(self).pin,
            final(self).pinval == pinval,
            old(self).pinval == pinval ==> *final(self) == *old(self) && cmds == (
                None::<RECV1::Cmd>,
                None::<RECV2::Cmd>,
            ),
            old(self).pinval != pinval ==> ({
                &&& (cmds.0, final(self).recv1) == polled(old(self).recv1, pinval, ts)
                &&& (cmds.1, final(self).recv2) == polled(old(self).recv2, pinval, ts)
            }),
    {
        if self.pinval != pinval {
            self.pinval = pinval;
            let c1 = poll(&mut self.recv1, pinval, ts);
            let c2 = poll(&mut self.recv2, pinval, ts);
            (c1, c2)
        } else {
            (None, None)
        }
    }
}

/// Receiver for three protocols on one input pin
pub struct IrReceiver3<RECV1, RECV2, RECV3, PIN> {
    /// The pin used
    pub pin: PIN,
    /// The level seen last
    pub pinval: bool,
    /// The first state machine
    pub recv1: RECV1,
    /// The second state machine
    pub recv2: RECV2,
    /// The third state machine
    pub recv3: RECV3,
}

impl<RECV1: Receiver, RECV2: Receiver, RECV3: Receiver, PIN> IrReceiver3<RECV1, RECV2, RECV3, PIN> {
    /// The decoders are well formed.
    pub open spec fn wf(&self) -> bool {
        self.recv1.wf() && self.recv2.wf() && self.recv3.wf()
    }

    /// Create a receiver from state machines and a pin
    pub fn with_receivers(recv1: RECV1, recv2: RECV2, recv3: RECV3, pin: PIN) -> (r: Self)
        ensures
            r == (IrReceiver3 { pin, pinval: false, recv1, recv2, recv3 }),
    {
        IrReceiver3 { pin, pinval: false, recv1, recv2, recv3 }
    }

    /// Create a receiver on `pin` for signals sampled at `samplerate`
    pub fn new(pin: PIN, samplerate: u32) -> (r: Self)
        requires
            valid_samplerate(samplerate),
        ensures
            r == (IrReceiver3 {
                pin,
                pinval: false,
                recv1: RECV1::fresh(samplerate),
                recv2: RECV2::fresh(samplerate),
                recv3: RECV3::fresh(samplerate),
            }),
            r.wf(),
    {
        IrReceiver3 {
            pin,
            pinval: false,
            recv1: RECV1::with_samplerate(samplerate),
            recv2: RECV2::with_samplerate(samplerate),
            recv3: RECV3::with_samplerate(samplerate),
        }
    }

    /// Give the pin back
    pub fn destroy(self) -> (pin: PIN)
        ensures
            pin == self.pin,
    {
        self.pin
    }

    /// Handle the level `pinval` that the pin has at time `ts`: each decoder sees a new
    /// level as an edge, and surfaces its command on its own.
    pub fn step(&mut self, pinval: bool, ts: u32) -> (cmds: (Option<RECV1::Cmd>, Option<RECV2::Cmd>, Option<RECV3::Cmd>))
        requires
            old(self).wf(),
        ensures
            final(self).wf(),
            final(self).pin == old(self).pin,
            final(self).pinval == pinval,
            old(self).pinval == pinval ==> *final(self) == *old(self) && cmds == (
                None::<RECV1::Cmd>,
                None::<RECV2::Cmd>,
                None::<RECV3::Cmd>,
            ),
            old(self).pinval != pinval ==> ({
                &&& (cmds.0, final(self).recv1) == polled(old(self).recv1, pinval, ts)
                &&& (cmds.1, final(self).recv2) == polled(old(self).recv2, pinval, ts)
                &&& (cmds.2, final(self).recv3) == polled(old(self).recv3, pinval, ts)
            }),
    {
        if self.pinval != pinval {
            self.pinval = pinval;
            let c1 = poll(&mut self.recv1, pinval, ts);
            let c2 = poll(&mut self.recv2, pinval, ts);
            let c3 = poll(&mut self.recv3, pinval, ts);
            (c1, c2, c3)
        } else {
            (None, None, None)
        }
    }
}

/// Receiver for four protocols on one input pin
pub struct IrReceiver4<RECV1, RECV2, RECV3, RECV4, PIN> {
    /// The pin used
    pub pin: PIN,
    /// The level seen last
    pub pinval: bool,
    /// The first state machine
    pub recv1: RECV1,
    /// The second state machine
    pub recv2: RECV2,
    /// The third state machine
    pub recv3: RECV3,
    /// The fourth state machine
    pub recv4: RECV4,
}

impl<RECV1: Receiver, RECV2: Receiver, RECV3: Receiver, RECV4: Receiver, PIN> IrReceiver4<RECV1, RECV2, RECV3, RECV4, PIN> {
    /// The decoders are well formed.
    pub open spec fn wf(&self) -> bool {
        self.recv1.wf() && self.recv2.wf() && self.recv3.wf() && self.recv4.wf()
    }

    /// Create a receiver from state machines and a pin
    pub fn with_receivers(recv1: RECV1, recv2: RECV2, recv3: RECV3, recv4: RECV4, pin: PIN) -> (r: Self)
        ensures
            r == (IrReceiver4 { pin, pinval: false, recv1, recv2, recv3, recv4 }),
    {
        IrReceiver4 { pin, pinval: false, recv1, recv2, recv3, recv4 }
    }

    /// Create a receiver on `pin` for signals sampled at `samplerate`
    pub fn new(pin: PIN, samplerate: u32) -> (r: Self)
        requires
            valid_samplerate(samplerate),
        ensures
            r == (IrReceiver4 {
                pin,
                pinval: false,
                recv1: RECV1::fresh(samplerate),
                recv2: RECV2::fresh(samplerate),
                recv3: RECV3::fresh(samplerate),
                recv4: RECV4::fresh(samplerate),
            }),
            r.wf(),
    {
        IrReceiver4 {
            pin,
            pinval: false,
            recv1: RECV1::with_samplerate(samplerate),
            recv2: RECV2::with_samplerate(samplerate),
            recv3: RECV3::with_samplerate(samplerate),
            recv4: RECV4::with_samplerate(samplerate),
        }
    }

    /// Give the pin back
    pub fn destroy(self) -> (pin: PIN)
        ensures
            pin == self.pin,
    {
        self.pin
    }

    /// Handle the level `pinval` that the pin has at time `ts`: each decoder sees a new
    /// level as an edge, and surfaces its command on its own.
    pub fn step(&mut self, pinval: bool, ts: u32) -> (cmds: (Option<RECV1::Cmd>, Option<RECV2::Cmd>, Option<RECV3::Cmd>, Option<RECV4::Cmd>))
        requires
            old(self).wf(),
        ensures
            final(self).wf(),
            final(self).pin == old(self).pin,
            final(self).pinval == pinval,
            old(self).pinval == pinval ==> *final(self) == *old(self) && cmds == (
                None::<RECV1::Cmd>,
                None::<RECV2::Cmd>,
                None::<RECV3::Cmd>,
                None::<RECV4::Cmd>,
            ),
            old(self).pinval != pinval ==> ({
                &&& (cmds.0, final(self).recv1) == polled(old(self).recv1, pinval, ts)
                &&& (cmds.1, final(self).recv2) == polled(old(self).recv2, pinval, ts)
                &&& (cmds.2, final(self).recv3) == polled(old(self).recv3, pinval, ts)
                &&& (cmds.3, final(self).recv4) == polled(old(self).recv4, pinval, ts)
            }),
    {
        if self.pinval != pinval {
            self.pinval = pinval;
            let c1 = poll(&mut self.recv1, pinval, ts);
            let c2 = poll(&mut self.recv2, pinval, ts);
            let c3 = poll(&mut self.recv3, pinval, ts);
            let c4 = poll(&mut self.recv4, pinval, ts);
            (c1, c2, c3, c4)
        } else {
            (None, None, None, None)
        }
    }
}

/// Receiver for five protocols on one input pin
pub struct IrReceiver5<RECV1, RECV2, RECV3, RECV4, RECV5, PIN> {
    /// The pin used
    pub pin: PIN,
    /// The level seen last
    pub pinval: bool,
    /// The first state machine
    pub recv1: RECV1,
    /// The second state machine
    pub recv2: RECV2,
    /// The third state machine
    pub recv3: RECV3,
    /// The fourth state machine
    pub recv4: RECV4,
    /// The fifth state machine
    pub recv5: RECV5,
}

impl<RECV1: Receiver, RECV2: Receiver, RECV3: Receiver, RECV4: Receiver, RECV5: Receiver, PIN> IrReceiver5<RECV1, RECV2, RECV3, RECV4, RECV5, PIN> {
    /// The decoders are well formed.
    pub open spec fn wf(&self) -> bool {
        self.recv1.wf() && self.recv2.wf() && self.recv3.wf() && self.recv4.wf() && self.recv5.wf()
    }

    /// Create a receiver from state machines and a pin
    pub fn with_receivers(recv1: RECV1, recv2: RECV2, recv3: RECV3, recv4: RECV4, recv5: RECV5, pin: PIN) -> (r: Self)
        ensures
            r == (IrReceiver5 { pin, pinval: false, recv1, recv2, recv3, recv4, recv5 }),
    {
        IrReceiver5 { pin, pinval: false, recv1, recv2, recv3, recv4, recv5 }
    }

    /// Create a receiver on `pin` for signals sampled at `samplerate`
    pub fn new(pin: PIN, samplerate: u32) -> (r: Self)
        requires
            valid_samplerate(samplerate),
        ensures
            r == (IrReceiver5 {
                pin,
                pinval: false,
                recv1: RECV1::fresh(samplerate),
                recv2: RECV2::fresh(samplerate),
                recv3: RECV3::fresh(samplerate),
                recv4: RECV4::fresh(samplerate),
                recv5: RECV5::fresh(samplerate),
            }),
            r.wf(),
    {
        IrReceiver5 {
            pin,
            pinval: false,
            recv1: RECV1::with_samplerate(samplerate),
            recv2: RECV2::with_samplerate(samplerate),
            recv3: RECV3::with_samplerate(samplerate),
            recv4: RECV4::with_samplerate(samplerate),
            recv5: RECV5::with_samplerate(samplerate),
        }
    }

    /// Give the pin back
    pub fn destroy(self) -> (pin: PIN)
        ensures
            pin == self.pin,
    {
        self.pin
    }

    /// Handle the level `pinval` that the pin has at time `ts`: each decoder sees a new
    /// level as an edge, and surfaces its command on its own.
    pub fn step(&mut self, pinval: bool, ts: u32) -> (cmds: (Option<RECV1::Cmd>, Option<RECV2::Cmd>, Option<RECV3::Cmd>, Option<RECV4::Cmd>, Option<RECV5::Cmd>))
        requires
            old(self).wf(),
        ensures
            final(self).wf(),
            final(self).pin == old(self).pin,
            final(self).pinval == pinval,
            old(self).pinval == pinval ==> *final(self) == *old(self) && cmds == (
                None::<RECV1::Cmd>,
                None::<RECV2::Cmd>,
                None::<RECV3::Cmd>,
                None::<RECV4::Cmd>,
                None::<RECV5::Cmd>,
            ),
            old(self).pinval != pinval ==> ({
                &&& (cmds.0, final(self).recv1) == polled(old(self).recv1, pinval, ts)
                &&& (cmds.1, final(self).recv2) == polled(old(self).recv2, pinval, ts)
                &&& (cmds.2, final(self).recv3) == polled(old(self).recv3, pinval, ts)
                &&& (cmds.3, final(self).recv4) == polled(old(self).recv4, pinval, ts)
                &&& (cmds.4, final(self).recv5) == polled(old(self).recv5, pinval, ts)
            }),
    {
        if self.pinval != pinval {
            self.pinval = pinval;
            let c1 = poll(&mut self.recv1, pinval, ts);
            let c2 = poll(&mut self.recv2, pinval, ts);
            let c3 = poll(&mut self.recv3, pinval, ts);
            let c4 = poll(&mut self.recv4, pinval, ts);
            let c5 = poll(&mut self.recv5, pinval, ts);
            (c1, c2, c3, c4, c5)
        } else {
            (None, None, None, None, None)
        }
    }
}

} // verus!
