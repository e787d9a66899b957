//! Philips Rc5: 14 bits, bi-phase coded, half a bit lasts 889 microseconds.
use crate::cmd::{written, Command, Protocol};
use crate::protocols::utils::{
    bit16, clock_after, in_range, short_delta, valid_samplerate, widened_band, widened_range,
    wrapping_delta,
};
use crate::protocols::ProtocolId;
use crate::recv::{Error, Receiver, State};
use core::ops::Range;
use vstd::prelude::*;

pub mod replay;

verus! {

/// Duration of half a bit in microseconds.
pub const RC5_UNIT: u16 = 889;

/// Tolerance of the Rc5 intervals in percent.
pub const RC5_TOLERANCE: u32 = 10;

/// Rc5 command
#[derive(Debug, PartialEq, Eq, Copy, Clone, Structural)]
pub struct Rc5Command {
    /// Address: 5 bits
    pub addr: u8,
    /// Command: 6 bits
    pub cmd: u8,
    /// Toggle bit
    pub toggle: bool,
}

impl Rc5Command {
    /// The command held by the 14 bits of a frame: the toggle in bit 11, the address in
    /// bits 10 to 6, the command in bits 5 to 0.
    pub open spec fn spec_from_bits(bits: u16) -> Self {
        Rc5Command {
            addr: ((bits >> 6) & 0x1f) as u8,
            cmd: (bits & 0x3f) as u8,
            toggle: bits & 0x800 != 0,
        }
    }

    /// The 14 bits of the frame of the command: both start bits set.
    pub open spec fn spec_to_bits(self) -> u16 {
        0x3000u16 | (if self.toggle {
            0x800u16
        } else {
            0u16
        }) | (((self.addr & 0x1f) as u16) << 6) | ((self.cmd & 0x3f) as u16)
    }

    /// A command whose address and command number fit their fields.
    pub open spec fn valid(self) -> bool {
        self.addr < 32 && self.cmd < 64
    }

    /// Create a command
    pub fn new(addr: u8, cmd: u8, toggle: bool) -> (c: Self)
        ensures
            c == (Rc5Command { addr, cmd, toggle }),
    {
        Rc5Command { addr, cmd, toggle }
    }

    /// Read a command from the bits of a frame
    pub fn from_bits(bits: u16) -> (c: Self)
        ensures
            c == Self::spec_from_bits(bits),
            c.valid(),
    {
        let addr = ((bits >> 6) & 0x1f) as u8;
        let cmd = (bits & 0x3f) as u8;
        let toggle = bits & 0x800 != 0;
        assert((bits >> 6) & 0x1f < 32 && bits & 0x3f < 64) by (bit_vector);
        Rc5Command { addr, cmd, toggle }
    }

    /// The command as the bits of a frame
    pub fn to_bits(&self) -> (bits: u16)
        ensures
            bits == self.spec_to_bits(),
            bits & 0x2000 != 0,
    {
        let t: u16 = if self.toggle {
            0x800
        } else {
            0
        };
        let a: u16 = ((self.addr & 0x1f) as u16) << 6;
        let c: u16 = (self.cmd & 0x3f) as u16;
        let bits = 0x3000u16 | t | a | c;
        assert(bits & 0x2000 != 0) by (bit_vector)
            requires
                bits == 0x3000u16 | t | a | c,
        ;
        bits
    }

    /// Reading the bits of a valid command gives the command back.
    pub proof fn lemma_from_bits_to_bits(self)
        requires
            self.valid(),
        ensures
            Self::spec_from_bits(self.spec_to_bits()) == self,
    {
        let a8 = self.addr;
        let c8 = self.cmd;
        let t: u16 = if self.toggle {
            0x800
        } else {
            0
        };
        let a: u16 = ((a8 & 0x1f) as u16) << 6;
        let c: u16 = (c8 & 0x3f) as u16;
        assert((a8 & 0x1f) == a8) by (bit_vector)
            requires
                a8 < 32,
        ;
        assert((c8 & 0x3f) == c8) by (bit_vector)
            requires
                c8 < 64,
        ;
        let bits = 0x3000u16 | t | a | c;
        let a16 = a8 as u16;
        assert(((bits >> 6) & 0x1f) == a16 && (bits & 0x3f) == c && ((bits & 0x800 != 0) <==> t
            == 0x800)) by (bit_vector)
            requires
                bits == 0x3000u16 | t | a | c,
                a == a16 << 6,
                a16 < 32,
                c < 64,
                t == 0x800 || t == 0,
        ;
    }
}

/// The cells of the frame `bits` up to the middle of the bit that follows the first
/// start bit by `n` places. After the edge in the middle of a bit the carrier is on for
/// a one and off for a zero, so a bit that repeats the one before it adds two cells of
/// half a bit, and a bit that differs from it adds one cell of a whole bit.
pub open spec fn rc5_cells(bits: u16, n: nat) -> Seq<u16>
    decreases n,
{
    if n == 0 {
        seq![0u16]
    } else {
        let before = rc5_cells(bits, (n - 1) as nat);
        if bit16(bits, 13 - n) == bit16(bits, 14 - n) {
            before.push(RC5_UNIT).push(RC5_UNIT)
        } else {
            before.push((2 * RC5_UNIT) as u16)
        }
    }
}

/// The pulse train of the frame `bits`: the cells up to the middle of the last bit, the
/// second half of that bit, and where that half has the carrier on, a silence of a bit
/// that ends the train.
pub open spec fn rc5_pulses(bits: u16) -> Seq<u16> {
    let cells = rc5_cells(bits, 13);
    if bit16(bits, 0) {
        cells.push(RC5_UNIT).push((2 * RC5_UNIT) as u16)
    } else {
        cells.push(RC5_UNIT)
    }
}

/// The cells up to bit `n` number between `n + 1` and `2 * n + 1`, and their number is
/// odd where the last of these bits is a one.
pub proof fn lemma_rc5_cells_len(bits: u16, n: nat)
    requires
        n <= 13,
        bit16(bits, 13),
    ensures
        n + 1 <= rc5_cells(bits, n).len() <= 2 * n + 1,
        rc5_cells(bits, n).len() % 2 == 1 <==> bit16(bits, 13 - n),
    decreases n,
{
    if n > 0 {
        lemma_rc5_cells_len(bits, (n - 1) as nat);
    }
}

impl Command for Rc5Command {
    open spec fn construct_spec(addr: u32, data: u32) -> Option<Self> {
        if addr < 32 && data < 64 {
            Some(Rc5Command { addr: addr as u8, cmd: data as u8, toggle: false })
        } else {
            None
        }
    }

    open spec fn address_spec(&self) -> u32 {
        self.addr as u32
    }

    open spec fn data_spec(&self) -> u32 {
        self.cmd as u32
    }

    open spec fn pulses(&self) -> Seq<u16> {
        rc5_pulses(self.spec_to_bits())
    }

    fn construct(addr: u32, data: u32) -> (c: Option<Self>) {
        if addr < 32 && data < 64 {
            Some(Rc5Command::new(addr as u8, data as u8, false))
        } else {
            None
        }
    }

    fn address(&self) -> (a: u32) {
        self.addr as u32
    }

    fn data(&self) -> (d: u32) {
        self.cmd as u32
    }

    fn protocol(&self) -> (p: Protocol)
        ensures
            p == Protocol::Rc5,
    {
        Protocol::Rc5
    }

    fn to_pulsetrain(&self, buf: &mut [u16], len: &mut usize) {
        let bits = self.to_bits();
        let ghost before = buf@;
        proof {
            self.lemma_pulses_shape();
            assert(bit16(bits, 13)) by (bit_vector)
                requires
                    bits & 0x2000 != 0,
            ;
            lemma_rc5_cells_len(bits, 13);
        }
        // The first start bit: the carrier comes on in its middle
        buf[0] = 0;
        let mut prev = true;
        let mut index: usize = 1;
        let mut b: u16 = 0;
        assert(buf@.subrange(0, 1) =~= rc5_cells(bits, 0));
        while b < 13
            invariant
                0 <= b <= 13,
                bit16(bits, 13),
                buf@.len() == before.len(),
                rc5_pulses(bits).len() <= before.len(),
                index == rc5_cells(bits, b as nat).len(),
                buf@.subrange(0, index as int) == rc5_cells(bits, b as nat),
                prev == bit16(bits, 13 - b),
                forall|j: int| index <= j < before.len() ==> buf@[j] == before[j],
            decreases 13 - b,
        {
            let cur = bits & (1u16 << (12 - b)) != 0;
            let ghost sofar = buf@.subrange(0, index as int);
            proof {
                lemma_rc5_cells_len(bits, b as nat);
                lemma_rc5_cells_len(bits, (b + 1) as nat);
                lemma_rc5_cells_grow(bits, (b + 1) as nat, 13);
            }
            if prev == cur {
                buf[index] = RC5_UNIT;
                buf[index + 1] = RC5_UNIT;
                index += 2;
            } else {
                buf[index] = 2 * RC5_UNIT;
                index += 1;
            }
            prev = cur;
            b += 1;
            assert(buf@.subrange(0, index as int) =~= rc5_cells(bits, b as nat));
        }
        if prev {
            buf[index] = RC5_UNIT;
            buf[index + 1] = 2 * RC5_UNIT;
            index += 2;
        } else {
            buf[index] = RC5_UNIT;
            index += 1;
        }
        *len = index;
        assert(buf@.subrange(0, index as int) =~= rc5_pulses(bits));
        assert(buf@ =~= written(before, self.pulses()));
    }

    proof fn lemma_pulses_shape(&self) {
        let bits = self.spec_to_bits();
        let t: u16 = if self.toggle {
            0x800
        } else {
            0
        };
        let a: u16 = ((self.addr & 0x1f) as u16) << 6;
        let c: u16 = (self.cmd & 0x3f) as u16;
        assert(bits & (1u16 << 13) != 0) by (bit_vector)
            requires
                bits == 0x3000u16 | t | a | c,
        ;
        lemma_rc5_cells_len(bits, 13);
    }

    proof fn lemma_construct(addr: u32, data: u32) {
    }
}

/// The cells up to a bit do not shrink as further bits follow.
pub proof fn lemma_rc5_cells_grow(bits: u16, m: nat, n: nat)
    requires
        m <= n,
    ensures
        rc5_cells(bits, m).len() <= rc5_cells(bits, n).len(),
        rc5_cells(bits, n).subrange(0, rc5_cells(bits, m).len() as int) == rc5_cells(bits, m),
    decreases n - m,
{
    if m < n {
        lemma_rc5_cells_grow(bits, m, (n - 1) as nat);
        let shorter = rc5_cells(bits, (n - 1) as nat);
        let goal = rc5_cells(bits, m);
        assert(rc5_cells(bits, n).subrange(0, goal.len() as int) =~= shorter.subrange(
            0,
            goal.len() as int,
        ));
    } else {
        assert(rc5_cells(bits, n).subrange(0, rc5_cells(bits, m).len() as int) =~= rc5_cells(
            bits,
            m,
        ));
    }
}

/// Rc5 receiver state
#[derive(Debug, PartialEq, Eq, Copy, Clone, Structural)]
pub enum Rc5State {
    /// Waiting for the first rising edge
    Idle,
    /// Receiving: the number of the next bit
    Data(u8),
    /// Frame received
    Done,
    /// In error state
    Error(Error),
}

/// Rc5 receiver
pub struct Rc5 {
    /// Sample rate
    pub samplerate: u32,
    /// State
    pub state: Rc5State,
    /// Level after the last edge
    pub pinval: bool,
    /// The bits received so far
    pub bitbuf: u16,
    /// Time of the last edge
    pub last: u32,
    /// The half-bit clock: position of the last edge in half bits, counted from the
    /// start of the frame, so that the middle of every bit has an odd count
    pub rc5cntr: u32,
}

/// The band around `len` samples with a tolerance of `percent` and two samples more on
/// either side.
pub fn range(len: u32, percent: u32) -> (r: Range<u32>)
    requires
        percent <= 100,
        len <= 0x7fff_0000,
    ensures
        r == widened_band(len, percent, 2, 2),
{
    widened_range(len, percent, 2, 2)
}

/// The band of an interval of `multiplier` half bits at `samplerate`.
pub open spec fn rc5_band(samplerate: u32, multiplier: u32) -> Range<u32> {
    widened_band(
        ((samplerate * RC5_UNIT * multiplier) / 1_000_000) as u32,
        RC5_TOLERANCE,
        2,
        2,
    )
}

/// Computes the band of an interval of `multiplier` half bits at `samplerate`.
pub fn rc5_multiplier(samplerate: u32, multiplier: u32) -> (r: Range<u32>)
    requires
        valid_samplerate(samplerate),
        multiplier <= 1_000_000,
    ensures
        r == rc5_band(samplerate, multiplier),
{
    assert(samplerate * 889 * multiplier <= 1_000_000 * 889 * 1_000_000) by (nonlinear_arith)
        requires
            samplerate <= 1_000_000,
            multiplier <= 1_000_000,
    ;
    let base: u64 = (samplerate as u64 * RC5_UNIT as u64 * multiplier as u64) / 1_000_000;
    range(base as u32, RC5_TOLERANCE)
}

/// The number of half bits that an interval of `interval` samples stands for.
pub open spec fn rc5_units(samplerate: u32, interval: u16) -> Option<u32> {
    if in_range(rc5_band(samplerate, 1), interval as u32) {
        Some(1u32)
    } else if in_range(rc5_band(samplerate, 2), interval as u32) {
        Some(2u32)
    } else {
        None
    }
}

impl Rc5 {
    /// Create a receiver for the given sample rate
    pub fn new(samplerate: u32) -> (r: Self)
        requires
            valid_samplerate(samplerate),
        ensures
            r == <Self as Receiver>::fresh(samplerate),
            r.wf(),
    {
        Rc5 { samplerate, last: 0, state: Rc5State::Idle, pinval: false, bitbuf: 0, rc5cntr: 0 }
    }

    /// The number of half bits that an interval of `interval` samples stands for
    pub fn interval_to_units(&self, interval: u16) -> (units: Option<u32>)
        requires
            valid_samplerate(self.samplerate),
        ensures
            units == rc5_units(self.samplerate, interval),
    {
        let mut i: u32 = 1;
        while i <= 2
            invariant
                1 <= i <= 3,
                valid_samplerate(self.samplerate),
                forall|j: u32| 1 <= j < i ==> !in_range(rc5_band(self.samplerate, j), interval as u32),
            decreases 3 - i,
        {
            let band = rc5_multiplier(self.samplerate, i);
            if band.start <= interval as u32 && (interval as u32) < band.end {
                return Some(i);
            }
            i += 1;
        }
        None
    }

    /// Time since the last edge
    pub fn delta(&self, sampletime: u32) -> (d: u16)
        ensures
            d == short_delta(sampletime, self.last),
    {
        let delta = wrapping_delta(sampletime, self.last);
        if delta >= u16::MAX as u32 {
            return 0;
        }
        delta as u16
    }

    /// The state and the bits after an edge in the frame.
    pub open spec fn advance(self, rising: bool, units: Option<u32>, cntr: u32, delta: u16) -> (
        Rc5State,
        u16,
        u32,
    ) {
        match self.state {
            Rc5State::Idle => if rising {
                (Rc5State::Data(12), 0x2000u16, 1u32)
            } else {
                (Rc5State::Idle, self.bitbuf, cntr)
            },
            Rc5State::Data(bit) => if units is None {
                (Rc5State::Error(Error::Data(delta as u32)), self.bitbuf, cntr)
            } else if cntr % 2 == 1 {
                (
                    if bit == 0 {
                        Rc5State::Done
                    } else {
                        Rc5State::Data((bit - 1) as u8)
                    },
                    if rising {
                        self.bitbuf | (1u16 << (bit as u16))
                    } else {
                        self.bitbuf
                    },
                    cntr,
                )
            } else {
                (Rc5State::Data(bit), self.bitbuf, cntr)
            },
            Rc5State::Done => (Rc5State::Done, self.bitbuf, cntr),
            Rc5State::Error(err) => (Rc5State::Error(err), self.bitbuf, cntr),
        }
    }
}

impl Receiver for Rc5 {
    const ID: ProtocolId = ProtocolId::Rc5;

    type Cmd = Rc5Command;

    open spec fn wf(&self) -> bool {
        &&& valid_samplerate(self.samplerate)
        &&& self.state matches Rc5State::Data(bit) ==> bit <= 12
    }

    open spec fn fresh(samplerate: u32) -> Self {
        Rc5 { samplerate, state: Rc5State::Idle, pinval: false, bitbuf: 0, last: 0, rc5cntr: 0 }
    }

    open spec fn step(self, edge: bool, time: u32) -> Self {
        let delta = short_delta(time, self.last);
        let units = rc5_units(self.samplerate, delta);
        let next = self.advance(edge, units, clock_after(self.rc5cntr, units), delta);
        Rc5 {
            samplerate: self.samplerate,
            state: next.0,
            pinval: edge,
            bitbuf: next.1,
            last: time,
            rc5cntr: next.2,
        }
    }

    open spec fn output(self) -> State<Rc5Command> {
        match self.state {
            Rc5State::Idle => State::Idle,
            Rc5State::Done => State::Done(Rc5Command::spec_from_bits(self.bitbuf)),
            Rc5State::Error(err) => State::Error(err),
            Rc5State::Data(_) => State::Receiving,
        }
    }

    open spec fn cleared(self) -> Self {
        Rc5 {
            samplerate: self.samplerate,
            state: Rc5State::Idle,
            pinval: false,
            bitbuf: 0,
            last: self.last,
            rc5cntr: 0,
        }
    }

    fn with_samplerate(samplerate: u32) -> (r: Self) {
        Self::new(samplerate)
    }

    fn event(&mut self, rising: bool, sampletime: u32) -> (s: State<Rc5Command>) {
        let delta = self.delta(sampletime);
        self.last = sampletime;
        self.pinval = rising;

        // Number of half bits since the last edge
        let rc5units = self.interval_to_units(delta);

        if let Some(units) = rc5units {
            self.rc5cntr = self.rc5cntr.wrapping_add(units);
        }
        let odd = self.rc5cntr % 2 == 1;

        let newstate = match self.state {
            Rc5State::Idle => {
                if rising {
                    self.bitbuf = 0x2000;
                    self.rc5cntr = 1;
                    Rc5State::Data(12)
                } else {
                    Rc5State::Idle
                }
            },
            Rc5State::Data(bit) => {
                if rc5units.is_none() {
                    Rc5State::Error(Error::Data(delta as u32))
                } else if odd {
                    if rising {
                        self.bitbuf |= 1u16 << (bit as u16);
                    }
                    if bit == 0 {
                        Rc5State::Done
                    } else {
                        Rc5State::Data(bit - 1)
                    }
                } else {
                    Rc5State::Data(bit)
                }
            },
            Rc5State::Done => Rc5State::Done,
            Rc5State::Error(err) => Rc5State::Error(err),
        };
        self.state = newstate;

        match self.state {
            Rc5State::Idle => State::Idle,
            Rc5State::Done => State::Done(Rc5Command::from_bits(self.bitbuf)),
            Rc5State::Error(err) => State::Error(err),
            Rc5State::Data(_) => State::Receiving,
        }
    }

    fn reset(&mut self) {
        self.state = Rc5State::Idle;
        self.pinval = false;
        self.bitbuf = 0;
        self.rc5cntr = 0;
    }

    proof fn lemma_cleared(self) {
    }

    proof fn lemma_outcome_holds(self, edge: bool, time: u32) {
    }
}

} // verus!
