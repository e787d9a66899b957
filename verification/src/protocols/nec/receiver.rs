//! Nec receiver state machine.
use crate::protocols::nec::{NecCommand, NecTiming, NecVariant};
use crate::protocols::utils::{
    band_in_reach, lemma_period_positive, samples_from_us, samples_from_us_spec, valid_samplerate,
    wrapping_delta, wrapping_delta_spec, PulseWidthRange,
};
use crate::protocols::ProtocolId;
use crate::recv::{Error, Receiver, State};
use core::marker::PhantomData;
use vstd::prelude::*;
use vstd::std_specs::convert::FromSpecImpl;

verus! {

/// The pulse widths that a Nec frame is made of, each the distance of two rising edges.
#[derive(Debug, PartialEq, Eq, Copy, Clone, Structural)]
pub enum PulseWidth {
    /// Header burst and header gap
    Sync,
    /// Header burst and repeat gap
    Repeat,
    /// Data burst and the gap of a zero
    Zero,
    /// Data burst and the gap of a one
    One,
    /// None of these
    NotAPulseWidth,
}

impl Default for PulseWidth {
    fn default() -> (p: Self)
        ensures
            p == PulseWidth::NotAPulseWidth,
    {
        PulseWidth::NotAPulseWidth
    }
}

impl From<usize> for PulseWidth {
    fn from(v: usize) -> (p: Self) {
        match v {
            0 => PulseWidth::Sync,
            1 => PulseWidth::Repeat,
            2 => PulseWidth::Zero,
            3 => PulseWidth::One,
            _ => PulseWidth::NotAPulseWidth,
        }
    }
}

impl FromSpecImpl<usize> for PulseWidth {
    open spec fn obeys_from_spec() -> bool {
        true
    }

    open spec fn from_spec(v: usize) -> Self {
        PulseWidth::of_label(v)
    }
}

impl PulseWidth {
    /// The pulse width that the classifier's label `v` stands for.
    pub open spec fn of_label(v: usize) -> Self {
        if v == 0 {
            PulseWidth::Sync
        } else if v == 1 {
            PulseWidth::Repeat
        } else if v == 2 {
            PulseWidth::Zero
        } else if v == 3 {
            PulseWidth::One
        } else {
            PulseWidth::NotAPulseWidth
        }
    }
}

/// Internal receiver state
#[derive(Debug, PartialEq, Eq, Copy, Clone, Structural)]
pub enum NecState {
    /// Waiting for first pulse
    Init,
    /// Receiving data: the number of the next bit
    Receiving(u32),
    /// Command received
    Done,
    /// Repeat command received
    RepeatDone,
    /// In error state
    Error(Error),
}

/// Generic type for Nec Receiver
pub struct NecType<N> {
    /// State
    pub state: NecState,
    /// Time of last rising edge
    pub last_event: u32,
    /// Data buffer
    pub bitbuf: u32,
    /// Timing and tolerances
    pub ranges: PulseWidthRange,
    /// Last command (used by repeat)
    pub lastcommand: u32,
    /// The type of Nec
    pub nectype: PhantomData<N>,
}

/// Centers, in samples, and tolerances, in percent, of the four pulse widths.
pub open spec fn nsamples_from_timing_spec(t: NecTiming, samplerate: u32) -> [(u32, u32); 4] {
    [
        (samples_from_us_spec((t.hh + t.hl) as u32, samplerate) as u32, 5u32),
        (samples_from_us_spec((t.hh + t.rl) as u32, samplerate) as u32, 5u32),
        (samples_from_us_spec((t.dh + t.zl) as u32, samplerate) as u32, 10u32),
        (samples_from_us_spec((t.dh + t.ol) as u32, samplerate) as u32, 10u32),
    ]
}

/// Computes the centers of the four pulse widths in samples.
pub fn nsamples_from_timing(t: &NecTiming, samplerate: u32) -> (v: [(u32, u32); 4])
    requires
        valid_samplerate(samplerate),
    ensures
        v == nsamples_from_timing_spec(*t, samplerate),
        forall|i: int| 0 <= i < 4 ==> band_in_reach(#[trigger] v[i].0, v[i].1),
{
    proof {
        lemma_period_positive(samplerate);
        lemma_samples_bound((t.hh + t.hl) as u32, samplerate);
        lemma_samples_bound((t.hh + t.rl) as u32, samplerate);
        lemma_samples_bound((t.dh + t.zl) as u32, samplerate);
        lemma_samples_bound((t.dh + t.ol) as u32, samplerate);
    }
    let v = [
        (samples_from_us(t.hh as u32 + t.hl as u32, samplerate), 5u32),
        (samples_from_us(t.hh as u32 + t.rl as u32, samplerate), 5u32),
        (samples_from_us(t.dh as u32 + t.zl as u32, samplerate), 10u32),
        (samples_from_us(t.dh as u32 + t.ol as u32, samplerate), 10u32),
    ];
    assert(v =~= nsamples_from_timing_spec(*t, samplerate));
    assert forall|i: int| 0 <= i < 4 implies band_in_reach(#[trigger] v[i].0, v[i].1) by {
        let c = v[i].0;
        let p = v[i].1;
        assert(c <= 0x2_0000 && p <= 10);
        assert(c as int * p as int <= 0x2_0000 * 10) by (nonlinear_arith)
            requires
                0 <= c <= 0x2_0000,
                0 <= p <= 10,
        ;
    }
    v
}

/// A duration has no more samples than microseconds.
pub proof fn lemma_samples_bound(us: u32, samplerate: u32)
    requires
        valid_samplerate(samplerate),
    ensures
        0 <= samples_from_us_spec(us, samplerate) <= us,
{
    lemma_period_positive(samplerate);
    let p = 1_000_000int / (samplerate as int);
    let u = us as int;
    assert(0 <= u / p <= u) by (nonlinear_arith)
        requires
            p >= 1,
            u >= 0,
    ;
}

impl<N: NecVariant> NecType<N> {
    /// The decoder after a rising edge that came `nsamples` after the one before.
    pub open spec fn advance(self, pw: PulseWidth, nsamples: u32, time: u32) -> Self {
        let (state, bitbuf) = match self.state {
            NecState::Init => match pw {
                PulseWidth::Sync => (NecState::Receiving(0), self.bitbuf),
                PulseWidth::Repeat => (NecState::RepeatDone, self.bitbuf),
                _ => (NecState::Init, self.bitbuf),
            },
            NecState::Receiving(bit) => {
                let next = if bit >= 31 {
                    NecState::Done
                } else {
                    NecState::Receiving((bit + 1) as u32)
                };
                match pw {
                    PulseWidth::One => (next, self.bitbuf | (1u32 << bit)),
                    PulseWidth::Zero => (next, self.bitbuf),
                    _ => (NecState::Error(Error::Data(nsamples)), self.bitbuf),
                }
            },
            NecState::Done => (NecState::Done, self.bitbuf),
            NecState::RepeatDone => (NecState::RepeatDone, self.bitbuf),
            NecState::Error(err) => (NecState::Error(err), self.bitbuf),
        };
        NecType {
            state,
            bitbuf,
            last_event: time,
            ranges: self.ranges,
            lastcommand: self.lastcommand,
            nectype: self.nectype,
        }
    }

    /// The command that `bits` carry.
    pub open spec fn command_of(bits: u32) -> NecCommand<N> {
        NecCommand { addr: N::decode_spec(bits).0, cmd: N::decode_spec(bits).1, var: PhantomData }
    }

    /// Create a receiver for the given sample rate
    pub fn new(samplerate: u32) -> (r: Self)
        requires
            valid_samplerate(samplerate),
        ensures
            r == <Self as Receiver>::fresh(samplerate),
            r.wf(),
    {
        let timing = N::timing();
        Self::with_timing(samplerate, &timing)
    }

    /// Create a receiver for the given sample rate and timing
    pub fn with_timing(samplerate: u32, timing: &NecTiming) -> (r: Self)
        requires
            valid_samplerate(samplerate),
        ensures
            r.state == NecState::Init,
            r.last_event == 0,
            r.bitbuf == 0,
            r.lastcommand == 0,
            r.ranges == PulseWidthRange::spec_new(nsamples_from_timing_spec(*timing, samplerate)),
    {
        let nsamples = nsamples_from_timing(timing, samplerate);
        let ranges = PulseWidthRange::new(&nsamples);
        NecType {
            state: NecState::Init,
            last_event: 0,
            bitbuf: 0,
            lastcommand: 0,
            nectype: PhantomData,
            ranges,
        }
    }
}

impl<N: NecVariant> Receiver for NecType<N> {
    const ID: ProtocolId = N::PROTOCOL;

    type Cmd = NecCommand<N>;

    open spec fn wf(&self) -> bool {
        &&& self.state matches NecState::Receiving(bit) ==> bit < 32
        &&& self.state is Init ==> self.bitbuf == 0
    }

    open spec fn fresh(samplerate: u32) -> Self {
        NecType {
            state: NecState::Init,
            last_event: 0,
            bitbuf: 0,
            ranges: PulseWidthRange::spec_new(
                nsamples_from_timing_spec(N::timing_spec(), samplerate),
            ),
            lastcommand: 0,
            nectype: PhantomData,
        }
    }

    open spec fn step(self, edge: bool, time: u32) -> Self {
        if edge {
            let nsamples = wrapping_delta_spec(time, self.last_event);
            let pw = PulseWidth::of_label(self.ranges.pulsewidth_spec(nsamples));
            self.advance(pw, nsamples, time)
        } else {
            self
        }
    }

    open spec fn output(self) -> State<NecCommand<N>> {
        match self.state {
            NecState::Init => State::Idle,
            NecState::Done => State::Done(Self::command_of(self.bitbuf)),
            NecState::RepeatDone => State::Done(Self::command_of(self.lastcommand)),
            NecState::Error(e) => State::Error(e),
            NecState::Receiving(_) => State::Receiving,
        }
    }

    open spec fn cleared(self) -> Self {
        NecType {
            state: NecState::Init,
            last_event: 0,
            bitbuf: 0,
            ranges: self.ranges,
            lastcommand: if self.state is Done {
                self.bitbuf
            } else {
                self.lastcommand
            },
            nectype: self.nectype,
        }
    }

    fn with_samplerate(samplerate: u32) -> (r: Self) {
        let timing = N::timing();
        Self::with_timing(samplerate, &timing)
    }

    fn event(&mut self, rising: bool, time: u32) -> (s: State<Self::Cmd>) {
        if rising {
            // Number of samples since the last rising edge
            let nsamples = wrapping_delta(time, self.last_event);
            // Map the number of samples to a pulse width
            let pulsewidth = PulseWidth::from(self.ranges.pulsewidth(nsamples));

            let newstate = match self.state {
                NecState::Init => match pulsewidth {
                    PulseWidth::Sync => NecState::Receiving(0),
                    PulseWidth::Repeat => NecState::RepeatDone,
                    _ => NecState::Init,
                },
                NecState::Receiving(bit) => {
                    let next = if bit >= 31 {
                        NecState::Done
                    } else {
                        NecState::Receiving(bit + 1)
                    };
                    match pulsewidth {
                        PulseWidth::One => {
                            self.bitbuf |= 1u32 << bit;
                            next
                        },
                        PulseWidth::Zero => next,
                        _ => NecState::Error(Error::Data(nsamples)),
                    }
                },
                NecState::Done => NecState::Done,
                NecState::RepeatDone => NecState::RepeatDone,
                NecState::Error(err) => NecState::Error(err),
            };

            self.last_event = time;
            self.state = newstate;
        }
        match self.state {
            NecState::Init => State::Idle,
            NecState::Done => State::Done(N::decode_command(self.bitbuf)),
            NecState::RepeatDone => State::Done(N::decode_command(self.lastcommand)),
            NecState::Error(e) => State::Error(e),
            NecState::Receiving(_) => State::Receiving,
        }
    }

    fn reset(&mut self) {
        self.lastcommand = match self.state {
            NecState::Done => self.bitbuf,
            _ => self.lastcommand,
        };
        self.state = NecState::Init;
        self.last_event = 0;
        self.bitbuf = 0;
    }

    proof fn lemma_cleared(self) {
    }

    proof fn lemma_outcome_holds(self, edge: bool, time: u32) {
    }
}

/// A single edge, rising or falling, at any time, leaves a fresh decoder idle, unless
/// the time itself is a header or a repeat distance from time zero.
pub proof fn lemma_stray_edge_stays_idle<N: NecVariant>(samplerate: u32, edge: bool, time: u32)
    requires
        valid_samplerate(samplerate),
        NecType::<N>::fresh(samplerate).ranges.pulsewidth_spec(time) >= 2,
    ensures
        NecType::<N>::fresh(samplerate).step(edge, time).output() is Idle,
{
}

} // verus!
