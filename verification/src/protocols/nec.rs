//! Nec: pulse distance coded, 32 bits sent least significant bit first.
use crate::cmd::{written, Command, Protocol};
use crate::protocols::utils::bit_set;
use crate::protocols::ProtocolId;
use core::marker::PhantomData;
use vstd::prelude::*;

pub mod receiver;
pub mod replay;
pub mod transmitter;

pub use receiver::{NecState, NecType, PulseWidth};
pub use transmitter::NecTypeTransmitter;

verus! {

/// Durations of the parts of a frame, in microseconds.
#[derive(Debug, PartialEq, Eq, Copy, Clone, Structural)]
pub struct NecTiming {
    /// Header high
    pub hh: u16,
    /// Header low
    pub hl: u16,
    /// Repeat low
    pub rl: u16,
    /// Data high
    pub dh: u16,
    /// Zero low
    pub zl: u16,
    /// One low
    pub ol: u16,
}

/// Number of cells in the pulse train of a frame: the leading silence, the header, a
/// burst and a gap for each bit, the closing burst and the silence after it.
pub const NEC_CELLS: usize = 69;

/// The ways in which a Nec frame carries a command.
pub trait NecVariant: Sized {
    /// Protocol id of the receiver
    const PROTOCOL: ProtocolId;

    /// Timing of the variant.
    spec fn timing_spec() -> NecTiming;

    /// Largest address that a frame can carry.
    spec fn max_address() -> u16;

    /// The 32 bits that carry a command.
    spec fn encode_spec(addr: u16, cmd: u8) -> u32;

    /// Address and command carried by 32 bits.
    spec fn decode_spec(bits: u32) -> (u16, u8);

    /// Protocol that the commands of the variant report.
    spec fn protocol_spec() -> Protocol;

    /// Timing of the variant.
    fn timing() -> (t: NecTiming)
        ensures
            t == Self::timing_spec(),
    ;

    /// Largest address that a frame can carry.
    fn address_limit() -> (m: u16)
        ensures
            m == Self::max_address(),
    ;

    /// Protocol that the commands of the variant report.
    fn command_protocol() -> (p: Protocol)
        ensures
            p == Self::protocol_spec(),
    ;

    /// Encode the command as the bits of a frame.
    fn encode_command(cmd: NecCommand<Self>) -> (bits: u32)
        ensures
            bits == Self::encode_spec(cmd.addr, cmd.cmd),
    ;

    /// Decode the bits of a frame; check bits are dropped, not tested.
    fn decode_command(bits: u32) -> (cmd: NecCommand<Self>)
        ensures
            (cmd.addr, cmd.cmd) == Self::decode_spec(bits),
    ;

    /// Decoding the bits of a command gives the command back.
    proof fn lemma_decode_encode(addr: u16, cmd: u8)
        requires
            addr <= Self::max_address(),
        ensures
            Self::decode_spec(Self::encode_spec(addr, cmd)) == (addr, cmd),
    ;
}

/// Nec command: address and command number, for the variant `V` of the protocol.
#[derive(Debug, PartialEq, Eq)]
pub struct NecCommand<V> {
    /// Address
    pub addr: u16,
    /// Command
    pub cmd: u8,
    /// The variant
    pub var: PhantomData<V>,
}

impl<V> Clone for NecCommand<V> {
    fn clone(&self) -> (c: Self)
        ensures
            c == *self,
    {
        NecCommand { addr: self.addr, cmd: self.cmd, var: PhantomData }
    }
}

impl<V> Copy for NecCommand<V> {

}

impl<V> NecCommand<V> {
    /// Create a command
    pub fn new(addr: u16, cmd: u8) -> (c: Self)
        ensures
            c.addr == addr,
            c.cmd == cmd,
    {
        NecCommand { addr, cmd, var: PhantomData }
    }
}

/// Cell `i` of the pulse train that carries `bits` with timing `t`.
pub open spec fn nec_cell(t: NecTiming, bits: u32, i: int) -> u16 {
    if i == 0 {
        0
    } else if i == 1 {
        t.hh
    } else if i == 2 {
        t.hl
    } else if i >= 67 {
        if i == 67 {
            t.dh
        } else {
            t.zl
        }
    } else if i % 2 == 1 {
        t.dh
    } else if bit_set(bits, ((i - 4) / 2) as u32) {
        t.ol
    } else {
        t.zl
    }
}

/// The pulse train that carries `bits` with timing `t`: no leading silence, the header
/// burst and gap, for each bit from bit 0 a burst and the gap that tells its value, the
/// burst that closes the last gap, and a silence.
pub open spec fn nec_pulses(t: NecTiming, bits: u32) -> Seq<u16> {
    Seq::new(NEC_CELLS as nat, |i: int| nec_cell(t, bits, i))
}

impl<V: NecVariant> Command for NecCommand<V> {
    open spec fn construct_spec(addr: u32, data: u32) -> Option<Self> {
        if addr <= V::max_address() && data <= 0xff {
            Some(NecCommand { addr: addr as u16, cmd: data as u8, var: PhantomData })
        } else {
            None
        }
    }

    open spec fn address_spec(&self) -> u32 {
        self.addr as u32
    }

    open spec fn data_spec(&self) -> u32 {
        self.cmd as u32
    }

    open spec fn pulses(&self) -> Seq<u16> {
        nec_pulses(V::timing_spec(), V::encode_spec(self.addr, self.cmd))
    }

    fn construct(addr: u32, data: u32) -> (c: Option<Self>) {
        if addr <= V::address_limit() as u32 && data <= 0xff {
            Some(NecCommand { addr: addr as u16, cmd: data as u8, var: PhantomData })
        } else {
            None
        }
    }

    fn address(&self) -> (a: u32) {
        self.addr as u32
    }

    fn data(&self) -> (d: u32) {
        self.cmd as u32
    }

    fn protocol(&self) -> (p: Protocol)
        ensures
            p == V::protocol_spec(),
    {
        V::command_protocol()
    }

    fn to_pulsetrain(&self, buf: &mut [u16], len: &mut usize) {
        let t = V::timing();
        let bits = V::encode_command(*self);
        let ghost before = buf@;
        buf[0] = 0;
        buf[1] = t.hh;
        buf[2] = t.hl;
        let mut i: usize = 0;
        while i < 32
            invariant
                0 <= i <= 32,
                buf@.len() == before.len(),
                before.len() >= NEC_CELLS,
                forall|j: int| 0 <= j < 3 + 2 * i ==> buf@[j] == nec_cell(t, bits, j),
                forall|j: int| NEC_CELLS <= j < before.len() ==> buf@[j] == before[j],
            decreases 32 - i,
        {
            let one = (bits >> (i as u32)) & 1 == 1;
            buf[3 + 2 * i] = t.dh;
            buf[4 + 2 * i] = if one {
                t.ol
            } else {
                t.zl
            };
            i += 1;
        }
        buf[67] = t.dh;
        buf[68] = t.zl;
        *len = NEC_CELLS;
        assert(buf@ =~= written(before, self.pulses()));
    }

    proof fn lemma_pulses_shape(&self) {
    }

    proof fn lemma_construct(addr: u32, data: u32) {
    }
}

/// Standard Nec: 8 bit address, 8 bit command, each followed by its complement.
#[derive(Debug, PartialEq, Eq, Copy, Clone, Structural)]
pub struct NecStandard;

/// Nec with a 16 bit address and no address complement.
#[derive(Debug, PartialEq, Eq, Copy, Clone, Structural)]
pub struct Nec16Variant;

/// Samsung flavour of Nec: shorter header, address sent twice.
#[derive(Debug, PartialEq, Eq, Copy, Clone, Structural)]
pub struct SamsungVariant;

/// Timing of standard Nec and of Nec with 16 bit address.
pub open spec fn standard_timing() -> NecTiming {
    NecTiming { hh: 9000, hl: 4500, rl: 2250, dh: 560, zl: 560, ol: 1690 }
}

/// Timing of the Samsung flavour.
pub open spec fn samsung_timing() -> NecTiming {
    NecTiming { hh: 4500, hl: 4500, rl: 2250, dh: 560, zl: 560, ol: 1690 }
}

impl NecVariant for NecStandard {
    const PROTOCOL: ProtocolId = ProtocolId::Nec;

    open spec fn timing_spec() -> NecTiming {
        standard_timing()
    }

    open spec fn max_address() -> u16 {
        0xff
    }

    open spec fn encode_spec(addr: u16, cmd: u8) -> u32 {
        let a = (addr & 0xff) as u32;
        let c = cmd as u32;
        a | ((a ^ 0xff) << 8) | (c << 16) | ((c ^ 0xff) << 24)
    }

    open spec fn decode_spec(bits: u32) -> (u16, u8) {
        ((bits & 0xff) as u16, ((bits >> 16) & 0xff) as u8)
    }

    open spec fn protocol_spec() -> Protocol {
        Protocol::Nec
    }

    fn timing() -> (t: NecTiming) {
        NecTiming { hh: 9000, hl: 4500, rl: 2250, dh: 560, zl: 560, ol: 1690 }
    }

    fn address_limit() -> (m: u16) {
        0xff
    }

    fn command_protocol() -> (p: Protocol) {
        Protocol::Nec
    }

    fn encode_command(cmd: NecCommand<Self>) -> (bits: u32) {
        let a = (cmd.addr & 0xff) as u32;
        let c = cmd.cmd as u32;
        a | ((a ^ 0xff) << 8) | (c << 16) | ((c ^ 0xff) << 24)
    }

    fn decode_command(bits: u32) -> (cmd: NecCommand<Self>) {
        NecCommand::new((bits & 0xff) as u16, ((bits >> 16) & 0xff) as u8)
    }

    proof fn lemma_decode_encode(addr: u16, cmd: u8) {
        let a = (addr & 0xff) as u32;
        let c = cmd as u32;
        assert(a == addr) by (bit_vector)
            requires
                a == (addr & 0xff) as u32,
                addr <= 0xff,
        ;
        let bits = a | ((a ^ 0xff) << 8) | (c << 16) | ((c ^ 0xff) << 24);
        assert(bits & 0xff == a && (bits >> 16) & 0xff == c) by (bit_vector)
            requires
                a <= 0xff,
                c <= 0xff,
                bits == a | ((a ^ 0xff) << 8) | (c << 16) | ((c ^ 0xff) << 24),
        ;
    }
}

impl NecVariant for Nec16Variant {
    const PROTOCOL: ProtocolId = ProtocolId::Nec16;

    open spec fn timing_spec() -> NecTiming {
        standard_timing()
    }

    open spec fn max_address() -> u16 {
        0xffff
    }

    open spec fn encode_spec(addr: u16, cmd: u8) -> u32 {
        let a = addr as u32;
        let c = cmd as u32;
        a | (c << 16) | ((c ^ 0xff) << 24)
    }

    open spec fn decode_spec(bits: u32) -> (u16, u8) {
        ((bits & 0xffff) as u16, ((bits >> 16) & 0xff) as u8)
    }

    open spec fn protocol_spec() -> Protocol {
        Protocol::Nec16
    }

    fn timing() -> (t: NecTiming) {
        NecTiming { hh: 9000, hl: 4500, rl: 2250, dh: 560, zl: 560, ol: 1690 }
    }

    fn address_limit() -> (m: u16) {
        0xffff
    }

    fn command_protocol() -> (p: Protocol) {
        Protocol::Nec16
    }

    fn encode_command(cmd: NecCommand<Self>) -> (bits: u32) {
        let a = cmd.addr as u32;
        let c = cmd.cmd as u32;
        a | (c << 16) | ((c ^ 0xff) << 24)
    }

    fn decode_command(bits: u32) -> (cmd: NecCommand<Self>) {
        NecCommand::new((bits & 0xffff) as u16, ((bits >> 16) & 0xff) as u8)
    }

    proof fn lemma_decode_encode(addr: u16, cmd: u8) {
        let a = addr as u32;
        let c = cmd as u32;
        let bits = a | (c << 16) | ((c ^ 0xff) << 24);
        assert(bits & 0xffff == a && (bits >> 16) & 0xff == c) by (bit_vector)
            requires
                a <= 0xffff,
                c <= 0xff,
                bits == a | (c << 16) | ((c ^ 0xff) << 24),
        ;
    }
}

impl NecVariant for SamsungVariant {
    const PROTOCOL: ProtocolId = ProtocolId::NecSamsung;

    open spec fn timing_spec() -> NecTiming {
        samsung_timing()
    }

    open spec fn max_address() -> u16 {
        0xff
    }

    open spec fn encode_spec(addr: u16, cmd: u8) -> u32 {
        let a = (addr & 0xff) as u32;
        let c = cmd as u32;
        a | (a << 8) | (c << 16) | ((c ^ 0xff) << 24)
    }

    open spec fn decode_spec(bits: u32) -> (u16, u8) {
        ((bits & 0xff) as u16, ((bits >> 16) & 0xff) as u8)
    }

    open spec fn protocol_spec() -> Protocol {
        Protocol::NecSamsung
    }

    fn timing() -> (t: NecTiming) {
        NecTiming { hh: 4500, hl: 4500, rl: 2250, dh: 560, zl: 560, ol: 1690 }
    }

    fn address_limit() -> (m: u16) {
        0xff
    }

    fn command_protocol() -> (p: Protocol) {
        Protocol::NecSamsung
    }

    fn encode_command(cmd: NecCommand<Self>) -> (bits: u32) {
        let a = (cmd.addr & 0xff) as u32;
        let c = cmd.cmd as u32;
        a | (a << 8) | (c << 16) | ((c ^ 0xff) << 24)
    }

    fn decode_command(bits: u32) -> (cmd: NecCommand<Self>) {
        NecCommand::new((bits & 0xff) as u16, ((bits >> 16) & 0xff) as u8)
    }

    proof fn lemma_decode_encode(addr: u16, cmd: u8) {
        let a = (addr & 0xff) as u32;
        let c = cmd as u32;
        assert(a == addr) by (bit_vector)
            requires
                a == (addr & 0xff) as u32,
                addr <= 0xff,
        ;
        let bits = a | (a << 8) | (c << 16) | ((c ^ 0xff) << 24);
        assert(bits & 0xff == a && (bits >> 16) & 0xff == c) by (bit_vector)
            requires
                a <= 0xff,
                c <= 0xff,
                bits == a | (a << 8) | (c << 16) | ((c ^ 0xff) << 24),
        ;
    }
}

} // verus!
