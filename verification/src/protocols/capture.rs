//! Capture of the raw distances between edges.
use crate::cmd::{written, Command, Protocol};
use crate::protocols::utils::{wrapping_delta, wrapping_delta_spec};
use crate::protocols::ProtocolId;
use crate::recv::{Receiver, State};
use vstd::array::{spec_array_fill_for_copy_type, spec_array_update};
use vstd::prelude::*;

verus! {

/// Number of edges that a capture holds.
pub const BUF_LEN: usize = 128;

/// Receiver that doesn't do any decoding of the incoming signal
/// Instead it saves the distance between the edges for later processing
pub struct Capturing {
    /// Samplerate
    pub samplerate: u32,
    /// Saved edges
    pub edges: [u16; 128],
    /// Number of edges in edges
    pub n_edges: usize,
    /// Prev pin value
    pub prev_pinval: bool,
    /// Samplenum with pin change
    pub prev_samplenum: u32,
    /// Our state
    pub state: State<NoCommand>,
}

/// The command of a finished capture: it says only that the buffer is full.
#[derive(Debug, Eq, PartialEq, Copy, Clone, Structural)]
pub struct NoCommand;

impl Command for NoCommand {
    open spec fn construct_spec(addr: u32, data: u32) -> Option<Self> {
        if addr == 0 && data == 0 {
            Some(NoCommand)
        } else {
            None
        }
    }

    open spec fn address_spec(&self) -> u32 {
        0
    }

    open spec fn data_spec(&self) -> u32 {
        0
    }

    open spec fn pulses(&self) -> Seq<u16> {
        Seq::empty()
    }

    fn construct(addr: u32, data: u32) -> (c: Option<Self>) {
        if addr == 0 && data == 0 {
            Some(NoCommand)
        } else {
            None
        }
    }

    fn address(&self) -> (a: u32) {
        0
    }

    fn data(&self) -> (d: u32) {
        0
    }

    fn protocol(&self) -> (p: Protocol)
        ensures
            p == Protocol::Capture,
    {
        Protocol::Capture
    }

    fn to_pulsetrain(&self, buf: &mut [u16], len: &mut usize) {
        *len = 0;
        assert(buf@ =~= written(buf@, self.pulses()));
    }

    proof fn lemma_pulses_shape(&self) {
    }

    proof fn lemma_construct(addr: u32, data: u32) {
    }
}

/// The distance from the edge at `prev` to the edge at `ts` in 16 bits; 0 for the first
/// edge, which has none before it.
pub open spec fn capture_delta(ts: u32, prev: u32) -> u16 {
    if prev == 0 {
        0
    } else {
        (wrapping_delta_spec(ts, prev) % 0x1_0000) as u16
    }
}

impl Capturing {
    /// Create a capture with an empty buffer
    pub fn new(samplerate: u32) -> (c: Self)
        ensures
            c == <Self as Receiver>::fresh(samplerate),
            c.wf(),
    {
        let c = Capturing {
            edges: [0; 128],
            samplerate,
            prev_pinval: false,
            prev_samplenum: 0,
            n_edges: 0,
            state: State::Idle,
        };
        assert(c.edges =~= <Self as Receiver>::fresh(samplerate).edges);
        c
    }

    /// Whether the buffer has room for another edge
    pub fn ready(&self) -> (r: bool)
        ensures
            r == !(self.state is Done),
    {
        match self.state {
            State::Done(_) => false,
            _ => true,
        }
    }

    /// Distance of `ts` to the last edge
    pub fn delta(&self, ts: u32) -> (d: u16)
        ensures
            d == capture_delta(ts, self.prev_samplenum),
    {
        if self.prev_samplenum == 0 {
            return 0;
        }
        (wrapping_delta(ts, self.prev_samplenum) % 0x1_0000) as u16
    }

    /// The captured distances
    pub fn edges(&self) -> (e: &[u16])
        requires
            self.wf(),
        ensures
            e@ == self.edges@.subrange(0, self.n_edges as int),
    {
        vstd::slice::slice_subrange(self.edges.as_slice(), 0, self.n_edges)
    }
}

impl Receiver for Capturing {
    const ID: ProtocolId = ProtocolId::Capture;

    type Cmd = NoCommand;

    open spec fn wf(&self) -> bool {
        &&& self.n_edges <= BUF_LEN
        &&& self.n_edges == BUF_LEN ==> self.state is Done
        &&& !(self.state is Error)
    }

    open spec fn fresh(samplerate: u32) -> Self {
        Capturing {
            samplerate,
            edges: spec_array_fill_for_copy_type::<u16, 128>(0u16),
            n_edges: 0,
            prev_pinval: false,
            prev_samplenum: 0,
            state: State::Idle,
        }
    }

    open spec fn step(self, edge: bool, time: u32) -> Self {
        if self.state is Done {
            self
        } else {
            Capturing {
                samplerate: self.samplerate,
                edges: spec_array_update(
                    self.edges,
                    self.n_edges as int,
                    capture_delta(time, self.prev_samplenum),
                ),
                n_edges: (self.n_edges + 1) as usize,
                prev_pinval: edge,
                prev_samplenum: time,
                state: if self.n_edges + 1 == BUF_LEN {
                    State::Done(NoCommand)
                } else {
                    State::Receiving
                },
            }
        }
    }

    open spec fn output(self) -> State<NoCommand> {
        self.state
    }

    open spec fn cleared(self) -> Self {
        Capturing {
            samplerate: self.samplerate,
            edges: spec_array_fill_for_copy_type::<u16, 128>(0u16),
            n_edges: 0,
            prev_pinval: false,
            prev_samplenum: 0,
            state: State::Idle,
        }
    }

    fn with_samplerate(samplerate: u32) -> (r: Self) {
        Self::new(samplerate)
    }

    fn event(&mut self, rising: bool, t: u32) -> (s: State<NoCommand>) {
        if !self.ready() {
            return self.state;
        }
        let t_delta = self.delta(t);

        self.state = State::Receiving;
        self.prev_samplenum = t;
        self.prev_pinval = rising;

        self.edges[self.n_edges] = t_delta;
        self.n_edges += 1;

        if self.n_edges == BUF_LEN {
            self.state = State::Done(NoCommand);
        }
        assert(self.edges =~= old(self).step(rising, t).edges);
        self.state
    }

    fn reset(&mut self) {
        self.state = State::Idle;
        self.prev_samplenum = 0;
        self.prev_pinval = false;
        self.n_edges = 0;

        let mut i: usize = 0;
        while i < BUF_LEN
            invariant
                0 <= i <= BUF_LEN,
                self.state is Idle,
                self.prev_samplenum == 0,
                self.prev_pinval == false,
                self.n_edges == 0,
                self.samplerate == old(self).samplerate,
                forall|j: int| 0 <= j < i ==> self.edges[j] == 0,
            decreases BUF_LEN - i,
        {
            self.edges[i] = 0;
            i += 1;
        }
        assert(self.edges =~= old(self).cleared().edges);
    }

    proof fn lemma_cleared(self) {
    }

    proof fn lemma_outcome_holds(self, edge: bool, time: u32) {
    }
}

} // verus!
