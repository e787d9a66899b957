//! Pulse train buffer and the state machine that plays it back.
use crate::cmd::{Command, PULSETRAIN_CAPACITY};
use crate::protocols::utils::{
    lemma_period_positive, period_us, valid_samplerate, wrapping_delta, wrapping_delta_spec,
    MICROS_PER_SEC,
};
use vstd::prelude::*;
use vstd::slice::slice_subrange;

verus! {

/// Sender state
#[derive(Debug, PartialEq, Eq, Copy, Clone, Structural)]
pub enum State {
    /// Sender is ready for transmitting
    Idle,
    /// Transmitting, with the carrier on or off
    Transmit(bool),
    /// Error
    Error,
}

/// The pulse train `pulses` with each duration divided by `scaler`.
pub open spec fn scaled(pulses: Seq<u16>, scaler: u32) -> Seq<u16> {
    Seq::new(pulses.len(), |i: int| (pulses[i] as int / scaler as int) as u16)
}

/// A pulse train in sample ticks: cell `i` is the time that the carrier stays off, for
/// even `i`, or on, for odd `i`.
pub struct PulsetrainBuffer {
    /// The cells
    pub buf: [u16; 96],
    /// Number of cells in use
    pub len: usize,
    /// Microseconds in one sample tick
    pub scaler: u32,
}

impl PulsetrainBuffer {
    /// The length is within the capacity, and a tick is at least a microsecond long.
    pub open spec fn wf(&self) -> bool {
        &&& self.len <= PULSETRAIN_CAPACITY
        &&& self.scaler >= 1
    }

    /// The cells in use.
    pub open spec fn cells(&self) -> Seq<u16> {
        self.buf@.subrange(0, self.len as int)
    }

    /// An empty buffer with ticks of one microsecond.
    pub fn new() -> (b: Self)
        ensures
            b.wf(),
            b.len == 0,
            b.scaler == 1,
            forall|i: int| 0 <= i < PULSETRAIN_CAPACITY ==> b.buf[i] == 0,
    {
        PulsetrainBuffer { buf: [0; 96], len: 0, scaler: 1 }
    }

    /// An empty buffer with the ticks of the given sample rate.
    pub fn with_samplerate(samplerate: u32) -> (b: Self)
        requires
            valid_samplerate(samplerate),
        ensures
            b.wf(),
            b.len == 0,
            b.scaler == period_us(samplerate),
            forall|i: int| 0 <= i < PULSETRAIN_CAPACITY ==> b.buf[i] == 0,
    {
        proof {
            lemma_period_positive(samplerate);
        }
        PulsetrainBuffer { buf: [0; 96], len: 0, scaler: MICROS_PER_SEC / samplerate }
    }

    /// A buffer with ticks of one microsecond that holds the pulse train of `c`.
    pub fn from_command<C: Command>(c: &C) -> (b: Self)
        ensures
            b.wf(),
            b.scaler == 1,
            b.cells() == c.pulses(),
            forall|i: int| b.len <= i < PULSETRAIN_CAPACITY ==> b.buf[i] == 0,
    {
        let mut ptb = PulsetrainBuffer::new();
        ptb.load(c);
        assert(scaled(c.pulses(), 1) =~= c.pulses());
        ptb
    }

    /// Fills the buffer with the pulse train of `c`, in ticks. Cells behind the pulse
    /// train keep what they held.
    pub fn load<C: Command>(&mut self, c: &C)
        requires
            old(self).wf(),
        ensures
            final(self).wf(),
            final(self).scaler == old(self).scaler,
            final(self).cells() == scaled(c.pulses(), old(self).scaler),
            forall|i: int|
                final(self).len <= i < PULSETRAIN_CAPACITY ==> final(self).buf[i] == old(self).buf[i],
    {
        proof {
            c.lemma_pulses_shape();
        }
        let ghost before = self.buf@;
        c.to_pulsetrain(&mut self.buf, &mut self.len);

        // Apply the scaling on the buf
        let mut i: usize = 0;
        while i < self.len
            invariant
                0 <= i <= self.len,
                self.len == c.pulses().len(),
                self.len <= PULSETRAIN_CAPACITY,
                self.scaler == old(self).scaler,
                self.scaler >= 1,
                forall|j: int| 0 <= j < i ==> self.buf[j] == scaled(c.pulses(), self.scaler)[j],
                forall|j: int| i <= j < self.len ==> self.buf[j] == c.pulses()[j],
                forall|j: int| self.len <= j < PULSETRAIN_CAPACITY ==> self.buf[j] == before[j],
            decreases self.len - i,
        {
            let ticks: u32 = self.buf[i] as u32 / self.scaler;
            self.buf[i] = ticks as u16;
            i += 1;
        }
        assert(self.cells() =~= scaled(c.pulses(), self.scaler));
    }

    /// The cell at `index`, if the pulse train is that long.
    pub fn get(&self, index: usize) -> (cell: Option<u16>)
        requires
            self.wf(),
        ensures
            index < self.len ==> cell == Some(self.cells()[index as int]),
            index >= self.len ==> cell is None,
    {
        if index < self.len {
            Some(self.buf[index])
        } else {
            None
        }
    }

    /// The cells in use, one after the other.
    pub fn iter(&self) -> (it: PulsetrainIterator<'_>)
        requires
            self.wf(),
        ensures
            it.pulses@ == self.cells(),
            it.index == 0,
    {
        PulsetrainIterator { pulses: slice_subrange(self.buf.as_slice(), 0, self.len), index: 0 }
    }
}

/// Walks over the cells of a pulse train.
pub struct PulsetrainIterator<'a> {
    /// The cells
    pub pulses: &'a [u16],
    /// Position of the next cell
    pub index: usize,
}

impl<'a> PulsetrainIterator<'a> {
    /// The next cell, or `None` behind the last.
    pub fn next(&mut self) -> (cell: Option<u16>)
        ensures
            final(self).pulses == old(self).pulses,
            old(self).index < old(self).pulses@.len() ==> cell == Some(
                old(self).pulses@[old(self).index as int],
            ) && final(self).index == old(self).index + 1,
            old(self).index >= old(self).pulses@.len() ==> cell is None && final(self).index == old(
                self,
            ).index,
    {
        if self.index >= self.pulses.len() {
            None
        } else {
            let r = self.pulses[self.index];
            self.index += 1;
            Some(r)
        }
    }

    /// The number of cells taken so far, and the number of all cells.
    pub fn size_hint(&self) -> (h: (usize, Option<usize>))
        ensures
            h.0 == self.index,
            h.1 == Some(self.pulses@.len() as usize),
    {
        (self.index, Some(self.pulses.len()))
    }
}

/// Steps through a pulse train, one tick at a time.
pub struct PulsetrainSender {
    /// The pulse train
    pub ptb: PulsetrainBuffer,
    /// The cell that is being played
    pub index: usize,
    /// The state of the output
    pub state: State,
    /// Time of the last change of cell
    pub ts_lastedge: u32,
}

/// The output after the end of a cell: on after idle or off, off after on.
pub open spec fn toggled(state: State) -> State {
    match state {
        State::Idle | State::Transmit(false) => State::Transmit(true),
        _ => State::Transmit(false),
    }
}

impl PulsetrainSender {
    /// The buffer is well formed.
    pub open spec fn wf(&self) -> bool {
        self.ptb.wf()
    }

    /// The sender after a tick at time `ts`: where the present cell has lasted its
    /// duration, the next cell begins and the output toggles; behind the last cell the
    /// sender is idle.
    pub open spec fn ticked(self, ts: u32) -> Self {
        if self.index < self.ptb.len {
            if wrapping_delta_spec(ts, self.ts_lastedge) >= self.ptb.buf[self.index as int] {
                PulsetrainSender {
                    ptb: self.ptb,
                    index: (self.index + 1) as usize,
                    state: if self.index + 1 < self.ptb.len {
                        toggled(self.state)
                    } else {
                        State::Idle
                    },
                    ts_lastedge: ts,
                }
            } else {
                self
            }
        } else {
            PulsetrainSender {
                ptb: self.ptb,
                index: self.index,
                state: State::Idle,
                ts_lastedge: self.ts_lastedge,
            }
        }
    }

    /// An idle sender with an empty pulse train.
    pub fn new(samplerate: u32) -> (s: Self)
        requires
            valid_samplerate(samplerate),
        ensures
            s.wf(),
            s.state == State::Idle,
            s.index == 0,
            s.ts_lastedge == 0,
            s.ptb.len == 0,
            s.ptb.scaler == period_us(samplerate),
    {
        let ptb = PulsetrainBuffer::with_samplerate(samplerate);
        PulsetrainSender { ptb, index: 0, state: State::Idle, ts_lastedge: 0 }
    }

    /// Load command into internal buffer: the sender is idle at the first cell.
    pub fn load<C: Command>(&mut self, c: &C)
        requires
            old(self).wf(),
        ensures
            final(self).wf(),
            final(self).state == State::Idle,
            final(self).index == 0,
            final(self).ts_lastedge == old(self).ts_lastedge,
            final(self).ptb.scaler == old(self).ptb.scaler,
            final(self).ptb.cells() == scaled(c.pulses(), old(self).ptb.scaler),
    {
        self.ptb.load(c);
        self.index = 0;
        self.state = State::Idle;
    }

    /// Advance the playback to the time `ts` and report the output.
    pub fn tick(&mut self, ts: u32) -> (s: State)
        requires
            old(self).wf(),
        ensures
            *final(self) == old(self).ticked(ts),
            s == final(self).state,
            final(self).wf(),
    {
        if let Some(dist) = self.ptb.get(self.index) {
            if wrapping_delta(ts, self.ts_lastedge) >= dist as u32 {
                self.index += 1;
                self.state = if self.index < self.ptb.len {
                    match self.state {
                        State::Idle | State::Transmit(false) => State::Transmit(true),
                        _ => State::Transmit(false),
                    }
                } else {
                    State::Idle
                };
                self.ts_lastedge = ts;
            }
        } else {
            self.state = State::Idle;
        }
        self.state
    }
}

} // verus!
