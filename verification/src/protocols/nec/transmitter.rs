//! Nec transmitter state machine.
use crate::protocols::nec::{NecCommand, NecTiming, NecVariant};
use crate::protocols::utils::{
    bit_set, lemma_period_positive, period_us, valid_samplerate, wrapping_delta,
    wrapping_delta_spec, MICROS_PER_SEC,
};
use crate::transmitter::{State, Statemachine};
use core::marker::PhantomData;
use vstd::prelude::*;

verus! {

/// Position of the transmitter in the frame.
#[derive(Debug, PartialEq, Eq, Copy, Clone, Structural)]
pub enum TransmitStateInternal {
    /// Nothing loaded
    Idle,
    /// A command is loaded, transmission starts with the next step
    Start,
    /// Header burst
    HeaderHigh,
    /// Header gap
    HeaderLow,
    /// Gap of the bit with this number
    DataLow(u32),
    /// Burst before the bit with this number; with 32, the closing burst
    DataHigh(u32),
    /// Frame sent
    Done,
}

/// Durations of the parts of a frame in samples.
#[derive(Debug, PartialEq, Eq, Copy, Clone, Structural)]
pub struct NSamples {
    /// Header burst
    pub hh: u32,
    /// Header gap
    pub hl: u32,
    /// Data burst
    pub data: u32,
    /// Gap of a zero
    pub zero: u32,
    /// Gap of a one
    pub one: u32,
}

impl NSamples {
    /// The durations of `pulsedistance` in periods of `period` microseconds.
    pub open spec fn spec_new(period: u32, pulsedistance: NecTiming) -> Self {
        NSamples {
            hh: (pulsedistance.hh as u32 / period) as u32,
            hl: (pulsedistance.hl as u32 / period) as u32,
            zero: (pulsedistance.zl as u32 / period) as u32,
            data: (pulsedistance.dh as u32 / period) as u32,
            one: (pulsedistance.ol as u32 / period) as u32,
        }
    }

    /// Converts the durations of `pulsedistance` to periods of `period` microseconds.
    pub fn new(period: u32, pulsedistance: &NecTiming) -> (n: Self)
        requires
            period > 0,
        ensures
            n == Self::spec_new(period, *pulsedistance),
    {
        NSamples {
            hh: pulsedistance.hh as u32 / period,
            hl: pulsedistance.hl as u32 / period,
            zero: pulsedistance.zl as u32 / period,
            data: pulsedistance.dh as u32 / period,
            one: pulsedistance.ol as u32 / period,
        }
    }
}

/// Transmitter that steps through a Nec frame, one call for each sample.
pub struct NecTypeTransmitter<N> {
    /// Position in the frame
    pub state: TransmitStateInternal,
    /// Durations in samples
    pub samples: NSamples,
    /// Time of the last change of state
    pub last_ts: u32,
    /// The bits of the frame
    pub cmd: u32,
    /// The type of Nec
    pub nectype: PhantomData<N>,
}

impl<N: NecVariant> NecTypeTransmitter<N> {
    /// The transmitter that `new` creates.
    pub open spec fn fresh(samplerate: u32) -> Self {
        NecTypeTransmitter {
            state: TransmitStateInternal::Idle,
            samples: NSamples::spec_new(period_us(samplerate) as u32, N::timing_spec()),
            last_ts: 0,
            cmd: 0,
            nectype: PhantomData,
        }
    }

    /// Create a transmitter for the given sample rate
    pub fn new(samplerate: u32) -> (t: Self)
        requires
            valid_samplerate(samplerate),
        ensures
            t == Self::fresh(samplerate),
            t.wf(),
            t.output() == State::Idle,
    {
        proof {
            lemma_period_positive(samplerate);
        }
        let period: u32 = MICROS_PER_SEC / samplerate;
        let timing = N::timing();
        let samples = NSamples::new(period, &timing);
        NecTypeTransmitter {
            state: TransmitStateInternal::Idle,
            samples,
            last_ts: 0,
            cmd: 0,
            nectype: PhantomData,
        }
    }

    /// The position after a step that comes `interval` samples after the last change.
    pub open spec fn next_state(self, interval: u32) -> TransmitStateInternal {
        match self.state {
            TransmitStateInternal::Start => TransmitStateInternal::HeaderHigh,
            TransmitStateInternal::HeaderHigh => if interval >= self.samples.hh {
                TransmitStateInternal::HeaderLow
            } else {
                TransmitStateInternal::HeaderHigh
            },
            TransmitStateInternal::HeaderLow => if interval >= self.samples.hl {
                TransmitStateInternal::DataHigh(0)
            } else {
                TransmitStateInternal::HeaderLow
            },
            TransmitStateInternal::DataHigh(bidx) => if interval >= self.samples.data {
                TransmitStateInternal::DataLow(bidx)
            } else {
                TransmitStateInternal::DataHigh(bidx)
            },
            TransmitStateInternal::DataLow(bidx) => if bidx >= 32 {
                TransmitStateInternal::Done
            } else if interval >= (if bit_set(self.cmd, bidx) {
                self.samples.one
            } else {
                self.samples.zero
            }) {
                TransmitStateInternal::DataHigh((bidx + 1) as u32)
            } else {
                TransmitStateInternal::DataLow(bidx)
            },
            TransmitStateInternal::Done => TransmitStateInternal::Done,
            TransmitStateInternal::Idle => TransmitStateInternal::Idle,
        }
    }
}

impl<N: NecVariant> Statemachine<NecCommand<N>> for NecTypeTransmitter<N> {
    open spec fn wf(&self) -> bool {
        &&& self.state matches TransmitStateInternal::DataLow(bidx) ==> bidx <= 32
        &&& self.state matches TransmitStateInternal::DataHigh(bidx) ==> bidx <= 32
    }

    open spec fn loaded(self, cmd: NecCommand<N>) -> Self {
        NecTypeTransmitter {
            state: TransmitStateInternal::Start,
            samples: self.samples,
            last_ts: self.last_ts,
            cmd: N::encode_spec(cmd.addr, cmd.cmd),
            nectype: self.nectype,
        }
    }

    open spec fn stepped(self, ts: u32) -> Self {
        let next = self.next_state(wrapping_delta_spec(ts, self.last_ts));
        NecTypeTransmitter {
            state: next,
            samples: self.samples,
            last_ts: if next == self.state || next == TransmitStateInternal::Done {
                self.last_ts
            } else {
                ts
            },
            cmd: self.cmd,
            nectype: self.nectype,
        }
    }

    open spec fn output(self) -> State {
        match self.state {
            TransmitStateInternal::HeaderHigh | TransmitStateInternal::DataHigh(_) => {
                State::Transmit(true)
            },
            TransmitStateInternal::HeaderLow | TransmitStateInternal::DataLow(_) => {
                State::Transmit(false)
            },
            TransmitStateInternal::Done
            | TransmitStateInternal::Idle
            | TransmitStateInternal::Start => State::Idle,
        }
    }

    open spec fn cleared(self) -> Self {
        NecTypeTransmitter {
            state: TransmitStateInternal::Idle,
            samples: self.samples,
            last_ts: 0,
            cmd: 0,
            nectype: self.nectype,
        }
    }

    fn load(&mut self, cmd: NecCommand<N>) {
        self.cmd = N::encode_command(cmd);
        self.state = TransmitStateInternal::Start;
    }

    fn step(&mut self, ts: u32) -> (s: State) {
        let interval = wrapping_delta(ts, self.last_ts);

        self.state = match self.state {
            TransmitStateInternal::Start => {
                self.last_ts = ts;
                TransmitStateInternal::HeaderHigh
            },
            TransmitStateInternal::HeaderHigh => {
                if interval >= self.samples.hh {
                    self.last_ts = ts;
                    TransmitStateInternal::HeaderLow
                } else {
                    TransmitStateInternal::HeaderHigh
                }
            },
            TransmitStateInternal::HeaderLow => {
                if interval >= self.samples.hl {
                    self.last_ts = ts;
                    TransmitStateInternal::DataHigh(0)
                } else {
                    TransmitStateInternal::HeaderLow
                }
            },
            TransmitStateInternal::DataHigh(bidx) => {
                if interval >= self.samples.data {
                    self.last_ts = ts;
                    TransmitStateInternal::DataLow(bidx)
                } else {
                    TransmitStateInternal::DataHigh(bidx)
                }
            },
            TransmitStateInternal::DataLow(bidx) => {
                if bidx >= 32 {
                    TransmitStateInternal::Done
                } else {
                    let samples = if (self.cmd >> bidx) & 1 == 1 {
                        self.samples.one
                    } else {
                        self.samples.zero
                    };
                    if interval >= samples {
                        self.last_ts = ts;
                        TransmitStateInternal::DataHigh(bidx + 1)
                    } else {
                        TransmitStateInternal::DataLow(bidx)
                    }
                }
            },
            TransmitStateInternal::Done => TransmitStateInternal::Done,
            TransmitStateInternal::Idle => TransmitStateInternal::Idle,
        };

        match self.state {
            TransmitStateInternal::HeaderHigh | TransmitStateInternal::DataHigh(_) => {
                State::Transmit(true)
            },
            TransmitStateInternal::HeaderLow | TransmitStateInternal::DataLow(_) => {
                State::Transmit(false)
            },
            TransmitStateInternal::Done
            | TransmitStateInternal::Idle
            | TransmitStateInternal::Start => State::Idle,
        }
    }

    fn reset(&mut self) {
        self.cmd = 0;
        self.state = TransmitStateInternal::Idle;
        self.last_ts = 0;
    }
}

} // verus!
