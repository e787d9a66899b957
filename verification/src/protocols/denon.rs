//! Denon: pulse distance coded, 48 bits sent least significant bit first.
use crate::cmd::{written, Command, Protocol};
use crate::protocols::utils::{
    band_in_reach, lemma_period_positive, samples_from_us, samples_from_us_spec, valid_samplerate,
    wrapping_delta, wrapping_delta_spec, PulseWidthRange,
};
use crate::protocols::ProtocolId;
use crate::recv::{Receiver, State};
use vstd::prelude::*;
use vstd::std_specs::convert::FromSpecImpl;

verus! {

/// Header burst in microseconds
pub const HEADER_HIGH: u32 = 3400;

/// Header gap in microseconds
pub const HEADER_LOW: u32 = 1600;

/// Data burst in microseconds
pub const DATA_HIGH: u32 = 480;

/// Gap of a zero in microseconds
pub const ZERO_LOW: u32 = 360;

/// Gap of a one in microseconds
pub const ONE_LOW: u32 = 1200;

/// Denon receiver state
#[derive(Copy, Clone, Debug, PartialEq, Eq, Structural)]
pub enum DenonState {
    /// Waiting for the header
    Idle,
    /// Receiving: the number of the next bit
    Data(u8),
    /// Frame received
    Done,
}

/// The pulse widths that a Denon frame is made of, each the distance of two rising edges.
#[derive(Copy, Clone, Debug, PartialEq, Eq, Structural)]
pub enum PulseWidth {
    /// Header burst and header gap
    SYNC,
    /// Data burst and the gap of a zero
    ZERO,
    /// Data burst and the gap of a one
    ONE,
    /// None of these
    FAIL,
}

impl PulseWidth {
    /// The pulse width that the classifier's label `value` stands for.
    pub open spec fn of_label(value: usize) -> Self {
        if value == 0 {
            PulseWidth::SYNC
        } else if value == 1 {
            PulseWidth::ZERO
        } else if value == 2 {
            PulseWidth::ONE
        } else {
            PulseWidth::FAIL
        }
    }

}

impl From<usize> for PulseWidth {
    fn from(value: usize) -> (p: Self) {
        match value {
            0 => PulseWidth::SYNC,
            1 => PulseWidth::ZERO,
            2 => PulseWidth::ONE,
            _ => PulseWidth::FAIL,
        }
    }
}

impl FromSpecImpl<usize> for PulseWidth {
    open spec fn obeys_from_spec() -> bool {
        true
    }

    open spec fn from_spec(value: usize) -> Self {
        PulseWidth::of_label(value)
    }
}

impl Default for PulseWidth {
    fn default() -> (p: Self)
        ensures
            p == PulseWidth::FAIL,
    {
        PulseWidth::FAIL
    }
}

/// Denon receiver
pub struct Denon {
    /// State
    pub state: DenonState,
    /// The bits received so far
    pub buf: u64,
    /// Time of the last rising edge
    pub prev_rising: u32,
    /// Level after the last edge
    pub prev_level: bool,
    /// Timing and tolerances
    pub ranges: PulseWidthRange,
}

/// Denon command: the bits of the frame as they came; no address or command is read
/// from them.
#[derive(Copy, Clone, Debug, PartialEq, Eq, Structural)]
pub struct Cmd {
    /// Address
    pub addr: u16,
    /// Command
    pub cmd: u8,
    /// The 48 bits of the frame
    pub raw: u64,
}

impl Command for Cmd {
    open spec fn construct_spec(addr: u32, data: u32) -> Option<Self> {
        if addr <= 0xffff && data <= 0xff {
            Some(Cmd { addr: addr as u16, cmd: data as u8, raw: 0 })
        } else {
            None
        }
    }

    open spec fn address_spec(&self) -> u32 {
        self.addr as u32
    }

    open spec fn data_spec(&self) -> u32 {
        self.cmd as u32
    }

    /// No pulse train is defined for Denon commands.
    open spec fn pulses(&self) -> Seq<u16> {
        Seq::empty()
    }

    fn construct(addr: u32, data: u32) -> (c: Option<Self>) {
        if addr <= 0xffff && data <= 0xff {
            Some(Cmd { addr: addr as u16, cmd: data as u8, raw: 0 })
        } else {
            None
        }
    }

    fn address(&self) -> (a: u32) {
        self.addr as u32
    }

    fn data(&self) -> (d: u32) {
        self.cmd as u32
    }

    fn protocol(&self) -> (p: Protocol)
        ensures
            p == Protocol::Denon,
    {
        Protocol::Denon
    }

    fn to_pulsetrain(&self, buf: &mut [u16], len: &mut usize) {
        *len = 0;
        assert(buf@ =~= written(buf@, self.pulses()));
    }

    proof fn lemma_pulses_shape(&self) {
    }

    proof fn lemma_construct(addr: u32, data: u32) {
    }
}

/// Centers, in samples, and tolerances, in percent, of the three pulse widths; the fourth
/// band is empty.
pub open spec fn nsamples_spec(samplerate: u32) -> [(u32, u32); 4] {
    [
        (samples_from_us_spec((HEADER_HIGH + HEADER_LOW) as u32, samplerate) as u32, 5u32),
        (samples_from_us_spec((DATA_HIGH + ZERO_LOW) as u32, samplerate) as u32, 10u32),
        (samples_from_us_spec((DATA_HIGH + ONE_LOW) as u32, samplerate) as u32, 10u32),
        (0xFFFF_FFFFu32, 0u32),
    ]
}

/// Computes the centers of the pulse widths in samples.
pub fn nsamples(samplerate: u32) -> (v: [(u32, u32); 4])
    requires
        valid_samplerate(samplerate),
    ensures
        v == nsamples_spec(samplerate),
        forall|i: int| 0 <= i < 4 ==> band_in_reach(#[trigger] v[i].0, v[i].1),
{
    proof {
        lemma_period_positive(samplerate);
    }
    let v = [
        // SYNC
        (samples_from_us(HEADER_HIGH + HEADER_LOW, samplerate), 5u32),
        // ZERO
        (samples_from_us(DATA_HIGH + ZERO_LOW, samplerate), 10u32),
        // ONE
        (samples_from_us(DATA_HIGH + ONE_LOW, samplerate), 10u32),
        // Not used
        (0xFFFF_FFFFu32, 0u32),
    ];
    assert(v =~= nsamples_spec(samplerate));
    assert forall|i: int| 0 <= i < 4 implies band_in_reach(#[trigger] v[i].0, v[i].1) by {
        let p = 1_000_000int / (samplerate as int);
        assert(0 <= 5000int / p <= 5000 && 0 <= 840int / p <= 840 && 0 <= 1680int / p <= 1680)
            by (nonlinear_arith)
            requires
                p >= 1,
        ;
        let c = v[i].0;
        let t = v[i].1;
        if i < 3 {
            assert(c as int * t as int <= 5000 * 10) by (nonlinear_arith)
                requires
                    0 <= c <= 5000,
                    0 <= t <= 10,
            ;
        }
    }
    v
}

impl Denon {
    /// The state and the bits after a rising edge with pulse width `pw`.
    pub open spec fn advance(self, pw: PulseWidth) -> (DenonState, u64) {
        match self.state {
            DenonState::Idle => match pw {
                PulseWidth::SYNC => (DenonState::Data(0), 0u64),
                _ => (DenonState::Idle, 0u64),
            },
            DenonState::Data(idx) => {
                let next = if idx >= 47 {
                    DenonState::Done
                } else {
                    DenonState::Data((idx + 1) as u8)
                };
                match pw {
                    PulseWidth::ZERO => (next, self.buf),
                    PulseWidth::ONE => (next, self.buf | (1u64 << (idx as u64))),
                    _ => (DenonState::Idle, 0u64),
                }
            },
            DenonState::Done => (DenonState::Done, self.buf),
        }
    }
}

impl Receiver for Denon {
    const ID: ProtocolId = ProtocolId::Denon;

    type Cmd = Cmd;

    open spec fn wf(&self) -> bool {
        &&& self.state matches DenonState::Data(idx) ==> idx < 48
        &&& self.state is Idle ==> self.buf == 0
    }

    open spec fn fresh(samplerate: u32) -> Self {
        Denon {
            state: DenonState::Idle,
            buf: 0,
            prev_rising: 0,
            prev_level: false,
            ranges: PulseWidthRange::spec_new(nsamples_spec(samplerate)),
        }
    }

    open spec fn step(self, edge: bool, time: u32) -> Self {
        if edge {
            let samples = wrapping_delta_spec(time, self.prev_rising);
            let next = self.advance(PulseWidth::of_label(self.ranges.pulsewidth_spec(samples)));
            Denon {
                state: next.0,
                buf: next.1,
                prev_rising: time,
                prev_level: self.prev_level,
                ranges: self.ranges,
            }
        } else {
            self
        }
    }

    open spec fn output(self) -> State<Cmd> {
        match self.state {
            DenonState::Idle => State::Idle,
            DenonState::Data(_) => State::Receiving,
            DenonState::Done => State::Done(Cmd { addr: 0, cmd: 0, raw: self.buf }),
        }
    }

    open spec fn cleared(self) -> Self {
        Denon {
            state: DenonState::Idle,
            buf: 0,
            prev_rising: 0,
            prev_level: false,
            ranges: self.ranges,
        }
    }

    fn with_samplerate(samplerate: u32) -> (r: Self) {
        let centers = nsamples(samplerate);
        let ranges = PulseWidthRange::new(&centers);
        Denon { state: DenonState::Idle, buf: 0, prev_rising: 0, prev_level: false, ranges }
    }

    fn event(&mut self, edge: bool, time: u32) -> (s: State<Cmd>) {
        if edge {
            let samples = wrapping_delta(time, self.prev_rising);
            let pw = PulseWidth::from(self.ranges.pulsewidth(samples));

            self.prev_rising = time;

            self.state = match self.state {
                DenonState::Idle => match pw {
                    PulseWidth::SYNC => DenonState::Data(0),
                    _ => DenonState::Idle,
                },
                DenonState::Data(idx) => {
                    let next = if idx >= 47 {
                        DenonState::Done
                    } else {
                        DenonState::Data(idx + 1)
                    };
                    match pw {
                        PulseWidth::ZERO => next,
                        PulseWidth::ONE => {
                            self.buf |= 1u64 << (idx as u64);
                            next
                        },
                        _ => {
                            self.buf = 0;
                            DenonState::Idle
                        },
                    }
                },
                DenonState::Done => DenonState::Done,
            }
        }
        match self.state {
            DenonState::Idle => State::Idle,
            DenonState::Data(_) => State::Receiving,
            DenonState::Done => State::Done(Cmd { addr: 0, cmd: 0, raw: self.buf }),
        }
    }

    fn reset(&mut self) {
        self.state = DenonState::Idle;
        self.buf = 0;
        self.prev_rising = 0;
        self.prev_level = false;
    }

    proof fn lemma_cleared(self) {
    }

    proof fn lemma_outcome_holds(self, edge: bool, time: u32) {
    }
}

} // verus!
