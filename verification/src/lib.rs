//! Infrared remote control protocols: edge-driven decoders and pulse train encoders for
//! Nec, Rc5, Rc6 and Denon remotes.
//!
//! A decoder is a state machine that is fed the edges of the signal of an infrared
//! receiver, each with the time at which it came on a wrapping sample counter. A command
//! becomes a pulse train, the durations for which the carrier is off and on in turn, and
//! a sender plays a pulse train back tick by tick. Every state machine comes with the
//! function that says what it does; `protocols` holds, for each protocol that can be
//! sent, the proof that a command that was sent is the command that is received.
pub mod bufrecv;
pub mod cmd;
pub mod hal;
pub mod protocols;
pub mod recv;
pub mod replay;
pub mod sender;
pub mod transmitter;

pub use bufrecv::BufferReceiver;
pub use cmd::{Command, Protocol};
pub use hal::{IrReceiver, IrReceiver2, IrReceiver3, IrReceiver4, IrReceiver5};
pub use protocols::ProtocolId;
