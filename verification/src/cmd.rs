//! Remote control commands.
use vstd::prelude::*;

verus! {

/// Protocol that a command belongs to.
#[derive(Debug, PartialEq, Eq, Copy, Clone, Structural)]
pub enum Protocol {
    Nec,
    Nec16,
    NecSamsung,
    Rc5,
    Rc6,
    Sbp,
    Denon,
    Capture,
    Unknown,
}

/// Largest number of cells that a pulse train may have.
pub const PULSETRAIN_CAPACITY: usize = 96;

/// The buffer `before` with `cells` written over its first cells.
pub open spec fn written(before: Seq<u16>, cells: Seq<u16>) -> Seq<u16> {
    cells + before.subrange(cells.len() as int, before.len() as int)
}

/// Remote control command.
pub trait Command: Sized {
    /// The command with the given address and data, where both fit the protocol.
    spec fn construct_spec(addr: u32, data: u32) -> Option<Self>;

    /// The address of the command.
    spec fn address_spec(&self) -> u32;

    /// The data of the command.
    spec fn data_spec(&self) -> u32;

    /// The command as a pulse train: durations in microseconds, the cells at even
    /// positions with the carrier off, those at odd positions with the carrier on.
    spec fn pulses(&self) -> Seq<u16>;

    /// Construct a command
    fn construct(addr: u32, data: u32) -> (c: Option<Self>)
        ensures
            c == Self::construct_spec(addr, data),
    ;

    /// Command address
    fn address(&self) -> (a: u32)
        ensures
            a == self.address_spec(),
    ;

    /// Get the data associated with the command
    fn data(&self) -> (d: u32)
        ensures
            d == self.data_spec(),
    ;

    /// Protocol
    fn protocol(&self) -> (p: Protocol)
        default_ensures
            p == Protocol::Unknown,
    {
        Protocol::Unknown
    }

    /// Writes the pulse train to the front of `buf` and its number of cells to `len`.
    fn to_pulsetrain(&self, buf: &mut [u16], len: &mut usize)
        requires
            self.pulses().len() <= old(buf)@.len(),
        ensures
            *final(len) == self.pulses().len(),
            final(buf)@ == written(old(buf)@, self.pulses()),
    ;

    /// A pulse train fits the pulse train buffer, and is either empty or starts and ends
    /// with the carrier off.
    proof fn lemma_pulses_shape(&self)
        ensures
            self.pulses().len() <= PULSETRAIN_CAPACITY,
            self.pulses().len() == 0 || self.pulses().len() % 2 == 1,
    ;

    /// A constructed command has the address and the data that it was made from.
    proof fn lemma_construct(addr: u32, data: u32)
        ensures
            Self::construct_spec(addr, data) matches Some(c) ==> c.address_spec() == addr
                && c.data_spec() == data,
    ;
}

} // verus!
