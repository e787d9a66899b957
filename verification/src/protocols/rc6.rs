//! Philips Rc6: a leader, a start bit, three mode bits, a toggle bit of double length
//! and 16 data bits, bi-phase coded, half a bit lasts 444 microseconds.
use crate::cmd::{written, Command, Protocol};
use crate::protocols::utils::{
    bit_set, clock_after, in_range, short_delta, valid_samplerate, widened_band, widened_range,
    wrapping_delta,
};
use crate::protocols::ProtocolId;
use crate::recv::{Error, Receiver, State};
use core::ops::Range;
use vstd::prelude::*;

pub mod replay;

verus! {

/// Duration of half a bit in microseconds.
pub const RC6_UNIT: u16 = 444;

/// Tolerance of the Rc6 intervals in percent.
pub const RC6_TOLERANCE: u32 = 12;

/// Number of cells in the pulse train before the second half of the toggle bit.
pub const RC6_HEADER_CELLS: usize = 11;

/// Rc6 command
#[derive(Debug, PartialEq, Eq, Copy, Clone, Structural)]
pub struct Rc6Command {
    /// Mode
    pub mode: u8,
    /// Address
    pub addr: u8,
    /// Command
    pub cmd: u8,
    /// Toggle bit
    pub toggle: bool,
}

impl Rc6Command {
    /// The command held by the 16 data bits of a frame, with the given toggle bit.
    pub open spec fn spec_from_bits(bits: u32, toggle: bool) -> Self {
        Rc6Command { mode: 0, addr: ((bits >> 8) & 0xff) as u8, cmd: (bits & 0xff) as u8, toggle }
    }

    /// The 16 data bits of the command: the address above the command.
    pub open spec fn spec_to_bits(self) -> u32 {
        ((self.addr as u32) << 8) | (self.cmd as u32)
    }

    /// A command in mode 0 with the toggle bit clear, as frames are sent.
    pub open spec fn sendable(self) -> bool {
        self.mode == 0 && !self.toggle
    }

    /// Create a command in mode 0, toggle bit clear
    pub fn new(addr: u8, cmd: u8) -> (c: Self)
        ensures
            c == (Rc6Command { mode: 0, addr, cmd, toggle: false }),
    {
        Rc6Command { mode: 0, addr, cmd, toggle: false }
    }

    /// Read a command from the data bits of a frame
    pub fn from_bits(bits: u32, toggle: bool) -> (c: Self)
        ensures
            c == Self::spec_from_bits(bits, toggle),
    {
        let addr = ((bits >> 8) & 0xff) as u8;
        let cmd = (bits & 0xff) as u8;
        assert((bits >> 8) & 0xff < 256 && bits & 0xff < 256) by (bit_vector);
        Rc6Command { mode: 0, addr, cmd, toggle }
    }

    /// The data bits of the command
    pub fn to_bits(&self) -> (bits: u32)
        ensures
            bits == self.spec_to_bits(),
    {
        ((self.addr as u32) << 8) | (self.cmd as u32)
    }

    /// Reading the data bits of a command gives its address and command back.
    pub proof fn lemma_from_bits_to_bits(self)
        ensures
            Self::spec_from_bits(self.spec_to_bits(), self.toggle) == (Rc6Command {
                mode: 0,
                ..self
            }),
    {
        let a = self.addr as u32;
        let c = self.cmd as u32;
        let bits = (a << 8) | c;
        assert((bits >> 8) & 0xff == a && bits & 0xff == c) by (bit_vector)
            requires
                bits == (a << 8) | c,
                a < 256,
                c < 256,
        ;
    }
}

/// Cell `i` of the start of every pulse train: no leading silence, the leader and its
/// pause, the start bit, three mode bits of zero, and the first half of a toggle bit of
/// zero.
pub open spec fn rc6_header_cell(i: int) -> u16 {
    if i == 0 {
        0
    } else if i == 1 {
        (6 * RC6_UNIT) as u16
    } else if i == 2 || i == 4 || i == 10 {
        (2 * RC6_UNIT) as u16
    } else {
        RC6_UNIT
    }
}

/// The cells of the frame with the data `bits` up to the middle of data bit `16 - n`,
/// for `n` from 0 to 16. After the edge in the middle of a bit the carrier is off for a
/// one and on for a zero, so a bit that repeats the one before it adds two cells of half
/// a bit, and a bit that differs from it adds one cell of a whole bit. The toggle bit
/// before the first data bit is a zero with halves of double length.
pub open spec fn rc6_cells(bits: u32, n: nat) -> Seq<u16>
    decreases n,
{
    if n == 0 {
        Seq::new(RC6_HEADER_CELLS as nat, |i: int| rc6_header_cell(i))
    } else {
        let before = rc6_cells(bits, (n - 1) as nat);
        if n == 1 {
            if bit_set(bits, 15) {
                before.push((3 * RC6_UNIT) as u16)
            } else {
                before.push((2 * RC6_UNIT) as u16).push(RC6_UNIT)
            }
        } else if bit_set(bits, (16 - n) as u32) == bit_set(bits, (17 - n) as u32) {
            before.push(RC6_UNIT).push(RC6_UNIT)
        } else {
            before.push((2 * RC6_UNIT) as u16)
        }
    }
}

/// The pulse train of the frame with the data `bits`: the cells up to the middle of the
/// last bit and the second half of that bit; where that half has the carrier on, a
/// silence of a bit ends the train.
pub open spec fn rc6_pulses(bits: u32) -> Seq<u16> {
    let cells = rc6_cells(bits, 16);
    if bit_set(bits, 0) {
        cells.push(RC6_UNIT)
    } else {
        cells.push(RC6_UNIT).push((2 * RC6_UNIT) as u16)
    }
}

/// The cells up to a data bit number at most `11 + 2 * n`, and their number is even
/// where the last of these bits is a one.
pub proof fn lemma_rc6_cells_len(bits: u32, n: nat)
    requires
        n <= 16,
    ensures
        11 + n <= rc6_cells(bits, n).len() <= 11 + 2 * n,
        n >= 1 ==> (rc6_cells(bits, n).len() % 2 == 0 <==> bit_set(bits, (16 - n) as u32)),
    decreases n,
{
    if n > 0 {
        lemma_rc6_cells_len(bits, (n - 1) as nat);
    }
}

/// The cells up to a bit do not shrink as further bits follow.
pub proof fn lemma_rc6_cells_grow(bits: u32, m: nat, n: nat)
    requires
        m <= n,
    ensures
        rc6_cells(bits, m).len() <= rc6_cells(bits, n).len(),
        rc6_cells(bits, n).subrange(0, rc6_cells(bits, m).len() as int) == rc6_cells(bits, m),
    decreases n - m,
{
    if m < n {
        lemma_rc6_cells_grow(bits, m, (n - 1) as nat);
        let shorter = rc6_cells(bits, (n - 1) as nat);
        let goal = rc6_cells(bits, m);
        assert(rc6_cells(bits, n).subrange(0, goal.len() as int) =~= shorter.subrange(
            0,
            goal.len() as int,
        ));
    } else {
        assert(rc6_cells(bits, n).subrange(0, rc6_cells(bits, m).len() as int) =~= rc6_cells(
            bits,
            m,
        ));
    }
}

impl Command for Rc6Command {
    open spec fn construct_spec(addr: u32, data: u32) -> Option<Self> {
        if addr <= 0xff && data <= 0xff {
            Some(Rc6Command { mode: 0, addr: addr as u8, cmd: data as u8, toggle: false })
        } else {
            None
        }
    }

    open spec fn address_spec(&self) -> u32 {
        self.addr as u32
    }

    open spec fn data_spec(&self) -> u32 {
        self.cmd as u32
    }

    open spec fn pulses(&self) -> Seq<u16> {
        rc6_pulses(self.spec_to_bits())
    }

    fn construct(addr: u32, data: u32) -> (c: Option<Self>) {
        if addr <= 0xff && data <= 0xff {
            Some(Rc6Command::new(addr as u8, data as u8))
        } else {
            None
        }
    }

    fn address(&self) -> (a: u32) {
        self.addr as u32
    }

    fn data(&self) -> (d: u32) {
        self.cmd as u32
    }

    fn protocol(&self) -> (p: Protocol)
        ensures
            p == Protocol::Rc6,
    {
        Protocol::Rc6
    }

    fn to_pulsetrain(&self, buf: &mut [u16], len: &mut usize) {
        let bits = self.to_bits();
        let ghost before = buf@;
        proof {
            self.lemma_pulses_shape();
            lemma_rc6_cells_len(bits, 16);
        }
        // Leader
        buf[0] = 0;
        buf[1] = 6 * RC6_UNIT;
        // Start bit after leading pause
        buf[2] = 2 * RC6_UNIT;
        buf[3] = RC6_UNIT;
        // Mode 000
        buf[4] = 2 * RC6_UNIT;
        buf[5] = RC6_UNIT;
        buf[6] = RC6_UNIT;
        buf[7] = RC6_UNIT;
        buf[8] = RC6_UNIT;
        buf[9] = RC6_UNIT;
        // Toggle
        buf[10] = 2 * RC6_UNIT;
        assert(buf@.subrange(0, 11) =~= rc6_cells(bits, 0));

        let mut prev: bool;
        let mut index: usize;
        let first_bit_set = (bits >> 15) & 1 == 1;
        if first_bit_set {
            buf[11] = 3 * RC6_UNIT;
            index = 12;
            prev = true;
        } else {
            buf[11] = 2 * RC6_UNIT;
            buf[12] = RC6_UNIT;
            index = 13;
            prev = false;
        }
        assert(buf@.subrange(0, index as int) =~= rc6_cells(bits, 1)) by {
            assert(rc6_cells(bits, 1).subrange(0, 11) =~= rc6_cells(bits, 0));
        }

        let mut b: u32 = 1;
        while b < 16
            invariant
                1 <= b <= 16,
                buf@.len() == before.len(),
                rc6_pulses(bits).len() <= before.len(),
                index == rc6_cells(bits, b as nat).len(),
                buf@.subrange(0, index as int) == rc6_cells(bits, b as nat),
                prev == bit_set(bits, (16 - b) as u32),
                forall|j: int| index <= j < before.len() ==> buf@[j] == before[j],
            decreases 16 - b,
        {
            let cur = (bits >> (15 - b)) & 1 == 1;
            proof {
                lemma_rc6_cells_len(bits, b as nat);
                lemma_rc6_cells_len(bits, (b + 1) as nat);
                lemma_rc6_cells_grow(bits, (b + 1) as nat, 16);
            }
            if prev == cur {
                buf[index] = RC6_UNIT;
                buf[index + 1] = RC6_UNIT;
                index += 2;
            } else {
                buf[index] = 2 * RC6_UNIT;
                index += 1;
            }
            prev = cur;
            b += 1;
            assert(buf@.subrange(0, index as int) =~= rc6_cells(bits, b as nat));
        }

        // The second half of the last bit, and the silence behind a half with carrier
        if prev {
            buf[index] = RC6_UNIT;
            index += 1;
        } else {
            buf[index] = RC6_UNIT;
            buf[index + 1] = 2 * RC6_UNIT;
            index += 2;
        }
        *len = index;
        assert(buf@.subrange(0, index as int) =~= rc6_pulses(bits));
        assert(buf@ =~= written(before, self.pulses()));
    }

    proof fn lemma_pulses_shape(&self) {
        lemma_rc6_cells_len(self.spec_to_bits(), 16);
    }

    proof fn lemma_construct(addr: u32, data: u32) {
    }
}

/// Rc6 receiver state
#[derive(Debug, PartialEq, Eq, Copy, Clone, Structural)]
pub enum Rc6State {
    /// Waiting for the leader
    Idle,
    /// In the leader
    Leading,
    /// In the pause after the leader
    LeadingPaus,
    /// In the start and mode bits: the number of the next bit
    HeaderData(u32),
    /// In the toggle bit
    Trailing,
    /// In the data: the number of the next bit
    Data(u32),
    /// Frame received
    Done,
    /// In error state
    Rc6Err(Error),
}

impl Default for Rc6State {
    fn default() -> (s: Self)
        ensures
            s == Rc6State::Idle,
    {
        Rc6State::Idle
    }
}

/// Rc6 receiver
pub struct Rc6 {
    /// Sample rate
    pub samplerate: u32,
    /// State
    pub state: Rc6State,
    /// The data bits received so far
    pub data: u32,
    /// The start and mode bits received so far
    pub headerdata: u32,
    /// The toggle bit
    pub toggle: bool,
    /// The half-bit clock: position of the last edge in half bits, counted from the
    /// start of the leader, so that the middle of every bit has an odd count
    pub rc6_clock: u32,
    /// Time of the last edge
    pub last: u32,
}

/// The band around `len` samples with a tolerance of `percent`, two samples more at its
/// lower and four at its upper end.
pub fn range(len: u32, percent: u32) -> (r: Range<u32>)
    requires
        percent <= 100,
        len <= 0x7fff_0000,
    ensures
        r == widened_band(len, percent, 2, 4),
{
    widened_range(len, percent, 2, 4)
}

/// The band of an interval of `multiplier` half bits at `samplerate`.
pub open spec fn rc6_band(samplerate: u32, multiplier: u32) -> Range<u32> {
    widened_band(
        ((samplerate * RC6_UNIT * multiplier) / 1_000_000) as u32,
        RC6_TOLERANCE,
        2,
        4,
    )
}

/// Computes the band of an interval of `multiplier` half bits at `samplerate`.
pub fn rc6_multiplier(samplerate: u32, multiplier: u32) -> (r: Range<u32>)
    requires
        valid_samplerate(samplerate),
        multiplier <= 1_000_000,
    ensures
        r == rc6_band(samplerate, multiplier),
{
    assert(samplerate * 444 * multiplier <= 1_000_000 * 444 * 1_000_000) by (nonlinear_arith)
        requires
            samplerate <= 1_000_000,
            multiplier <= 1_000_000,
    ;
    let base: u64 = (samplerate as u64 * RC6_UNIT as u64 * multiplier as u64) / 1_000_000;
    range(base as u32, RC6_TOLERANCE)
}

/// The number of half bits, from 1 to 6, that an interval of `interval` samples stands
/// for: the smallest number whose band holds the interval.
pub open spec fn rc6_units(samplerate: u32, interval: u16) -> Option<u32> {
    rc6_units_from(samplerate, interval, 1)
}

/// The smallest number of half bits from `i` to 6 whose band holds the interval.
pub open spec fn rc6_units_from(samplerate: u32, interval: u16, i: u32) -> Option<u32>
    decreases 7 - i,
{
    if i < 1 || i > 6 {
        None
    } else if in_range(rc6_band(samplerate, i), interval as u32) {
        Some(i)
    } else {
        rc6_units_from(samplerate, interval, (i + 1) as u32)
    }
}

impl Rc6 {
    /// Create a receiver for the given sample rate
    pub fn new(samplerate: u32) -> (r: Self)
        requires
            valid_samplerate(samplerate),
        ensures
            r == <Self as Receiver>::fresh(samplerate),
            r.wf(),
    {
        Rc6 {
            samplerate,
            state: Rc6State::Idle,
            data: 0,
            headerdata: 0,
            toggle: false,
            rc6_clock: 0,
            last: 0,
        }
    }

    /// The number of half bits that an interval of `interval` samples stands for
    pub fn interval_to_units(&self, interval: u16) -> (units: Option<u32>)
        requires
            valid_samplerate(self.samplerate),
        ensures
            units == rc6_units(self.samplerate, interval),
    {
        let mut i: u32 = 1;
        while i <= 6
            invariant
                1 <= i <= 7,
                valid_samplerate(self.samplerate),
                rc6_units(self.samplerate, interval) == rc6_units_from(
                    self.samplerate,
                    interval,
                    i,
                ),
            decreases 7 - i,
        {
            let band = rc6_multiplier(self.samplerate, i);
            if band.start <= interval as u32 && (interval as u32) < band.end {
                return Some(i);
            }
            i += 1;
        }
        None
    }

    /// Time since the last edge
    pub fn delta(&self, sampletime: u32) -> (d: u16)
        ensures
            d == short_delta(sampletime, self.last),
    {
        let delta = wrapping_delta(sampletime, self.last);
        if delta >= u16::MAX as u32 {
            return 0;
        }
        delta as u16
    }

    /// The state after an edge, with the clock at `clock` after the edge.
    pub open spec fn next_state(self, rising: bool, units: Option<u32>, clock: u32, delta: u16) -> Rc6State {
        let odd = clock % 2 == 1;
        match self.state {
            Rc6State::Idle => if rising {
                Rc6State::Leading
            } else {
                Rc6State::Idle
            },
            Rc6State::Leading => if !rising && units == Some(6u32) {
                Rc6State::LeadingPaus
            } else {
                Rc6State::Idle
            },
            Rc6State::LeadingPaus => if rising && units == Some(2u32) {
                Rc6State::HeaderData(3)
            } else {
                Rc6State::Idle
            },
            Rc6State::HeaderData(n) => if units is None {
                Rc6State::Idle
            } else if odd {
                if n == 0 {
                    Rc6State::Trailing
                } else {
                    Rc6State::HeaderData((n - 1) as u32)
                }
            } else {
                Rc6State::HeaderData(n)
            },
            Rc6State::Trailing => if !rising && units == Some(3u32) {
                Rc6State::Data(15)
            } else if rising && units == Some(2u32) {
                Rc6State::Data(15)
            } else if !rising && units == Some(1u32) {
                Rc6State::Trailing
            } else {
                Rc6State::Idle
            },
            Rc6State::Data(n) => if units is None {
                Rc6State::Rc6Err(Error::Data(delta as u32))
            } else if odd {
                if n == 0 {
                    Rc6State::Done
                } else {
                    Rc6State::Data((n - 1) as u32)
                }
            } else {
                Rc6State::Data(n)
            },
            Rc6State::Done => Rc6State::Done,
            Rc6State::Rc6Err(err) => Rc6State::Rc6Err(err),
        }
    }

    /// Whether an edge that was classified and moved the clock to `clock` is in the
    /// middle of a bit.
    pub open spec fn takes_bit(self, units: Option<u32>, clock: u32) -> bool {
        units is Some && clock % 2 == 1
    }
}

impl Receiver for Rc6 {
    const ID: ProtocolId = ProtocolId::Rc6;

    type Cmd = Rc6Command;

    open spec fn wf(&self) -> bool {
        &&& valid_samplerate(self.samplerate)
        &&& self.state matches Rc6State::HeaderData(n) ==> n <= 3
        &&& self.state matches Rc6State::Data(n) ==> n <= 15
        &&& (self.state is Idle || self.state is Leading || self.state is LeadingPaus
            || self.state is HeaderData || self.state is Trailing) ==> self.data == 0
    }

    open spec fn fresh(samplerate: u32) -> Self {
        Rc6 {
            samplerate,
            state: Rc6State::Idle,
            data: 0,
            headerdata: 0,
            toggle: false,
            rc6_clock: 0,
            last: 0,
        }
    }

    open spec fn step(self, edge: bool, time: u32) -> Self {
        let delta = short_delta(time, self.last);
        let units = rc6_units(self.samplerate, delta);
        let clock = clock_after(self.rc6_clock, units);
        let next = self.next_state(edge, units, clock, delta);
        Rc6 {
            samplerate: self.samplerate,
            state: next,
            data: match self.state {
                Rc6State::Data(n) => if self.takes_bit(units, clock) && !edge {
                    self.data | (1u32 << n)
                } else {
                    self.data
                },
                _ => self.data,
            },
            headerdata: match self.state {
                Rc6State::HeaderData(n) => if self.takes_bit(units, clock) && !edge {
                    self.headerdata | (1u32 << n)
                } else {
                    self.headerdata
                },
                _ => self.headerdata,
            },
            toggle: if self.state is Trailing && next is Data {
                !edge
            } else {
                self.toggle
            },
            rc6_clock: if self.state is Idle && edge {
                0
            } else {
                clock
            },
            last: time,
        }
    }

    open spec fn output(self) -> State<Rc6Command> {
        match self.state {
            Rc6State::Idle => State::Idle,
            Rc6State::Done => State::Done(Rc6Command::spec_from_bits(self.data, self.toggle)),
            Rc6State::Rc6Err(err) => State::Error(err),
            _ => State::Receiving,
        }
    }

    open spec fn cleared(self) -> Self {
        Rc6 {
            samplerate: self.samplerate,
            state: Rc6State::Idle,
            data: 0,
            headerdata: 0,
            toggle: self.toggle,
            rc6_clock: 0,
            last: self.last,
        }
    }

    fn with_samplerate(samplerate: u32) -> (r: Self) {
        Self::new(samplerate)
    }

    fn event(&mut self, rising: bool, sampletime: u32) -> (s: State<Rc6Command>) {
        let delta = self.delta(sampletime);
        self.last = sampletime;

        // Number of half bits since the last edge
        let n_units = self.interval_to_units(delta);

        if let Some(units) = n_units {
            self.rc6_clock = self.rc6_clock.wrapping_add(units);
        }
        let odd = self.rc6_clock % 2 == 1;
        let classified = n_units.is_some();

        self.state = match self.state {
            Rc6State::Idle => {
                if rising {
                    self.rc6_clock = 0;
                    Rc6State::Leading
                } else {
                    Rc6State::Idle
                }
            },
            Rc6State::Leading => match (rising, n_units) {
                (false, Some(6)) => Rc6State::LeadingPaus,
                _ => Rc6State::Idle,
            },
            Rc6State::LeadingPaus => match (rising, n_units) {
                (true, Some(2)) => Rc6State::HeaderData(3),
                _ => Rc6State::Idle,
            },
            Rc6State::HeaderData(n) => {
                if !classified {
                    Rc6State::Idle
                } else if odd {
                    if !rising {
                        self.headerdata |= 1u32 << n;
                    }
                    if n == 0 {
                        Rc6State::Trailing
                    } else {
                        Rc6State::HeaderData(n - 1)
                    }
                } else {
                    Rc6State::HeaderData(n)
                }
            },
            Rc6State::Trailing => match (rising, n_units) {
                (false, Some(3)) => {
                    self.toggle = true;
                    Rc6State::Data(15)
                },
                (true, Some(2)) => {
                    self.toggle = false;
                    Rc6State::Data(15)
                },
                (false, Some(1)) => Rc6State::Trailing,
                _ => Rc6State::Idle,
            },
            Rc6State::Data(n) => {
                if !classified {
                    Rc6State::Rc6Err(Error::Data(delta as u32))
                } else if odd {
                    if !rising {
                        self.data |= 1u32 << n;
                    }
                    if n == 0 {
                        Rc6State::Done
                    } else {
                        Rc6State::Data(n - 1)
                    }
                } else {
                    Rc6State::Data(n)
                }
            },
            Rc6State::Done => Rc6State::Done,
            Rc6State::Rc6Err(err) => Rc6State::Rc6Err(err),
        };

        match self.state {
            Rc6State::Idle => State::Idle,
            Rc6State::Done => State::Done(Rc6Command::from_bits(self.data, self.toggle)),
            Rc6State::Rc6Err(err) => State::Error(err),
            _ => State::Receiving,
        }
    }

    fn reset(&mut self) {
        self.state = Rc6State::Idle;
        self.data = 0;
        self.headerdata = 0;
        self.rc6_clock = 0;
    }

    proof fn lemma_cleared(self) {
    }

    proof fn lemma_outcome_holds(self, edge: bool, time: u32) {
    }
}

} // verus!
