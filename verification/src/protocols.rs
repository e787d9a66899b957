//! Infrared protocols.
use vstd::prelude::*;

pub mod capture;
pub mod denon;
pub mod nec;
pub mod rc5;
pub mod rc6;
pub mod utils;

pub use capture::Capturing;
pub use denon::Denon;
pub use nec::{Nec16Variant, NecStandard, SamsungVariant};
pub use rc5::Rc5;
pub use rc6::Rc6;

verus! {

/// Remote control protocol identity.
#[derive(Debug, PartialEq, Eq, Copy, Clone, Structural)]
pub enum ProtocolId {
    /// Nec
    Nec,
    /// Nec with 16 bit address
    Nec16,
    /// Nec - Samsung variant
    NecSamsung,
    /// Philips Rc5
    Rc5,
    /// Philips Rc6
    Rc6,
    /// Samsung 36 bit protocol
    Sbp,
    /// Denon
    Denon,
    /// Raw edge capture
    Capture,
}

/// Receiver for standard Nec
pub type Nec = nec::NecType<nec::NecStandard>;

/// Receiver for Nec with 16 bit addresses
pub type Nec16 = nec::NecType<nec::Nec16Variant>;

/// Receiver for the Samsung flavour of Nec
pub type NecSamsung = nec::NecType<nec::SamsungVariant>;

} // verus!
