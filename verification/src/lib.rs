//! SPI flash access over the JTAG sequences of a debug probe.
//!
//! A flash protocol engine works in SPI transactions: buffers of bytes, each
//! byte sent most significant bit first. A debug probe in JTAG mode shifts
//! sequences of bits, least significant bit first, and has a mode line that
//! marks a shift as an SPI frame. This crate is the bridge between the two.
//! It turns a byte buffer into the sequence that the probe has to run, and
//! the bits that the probe captured into the bytes that the flash sent.
//!
//! The crate runs nothing against a probe itself. [`SPIFlash`] holds the
//! probe session, says for each transaction which [`sequence::Sequence`] is
//! to be run, and makes the result of the transaction from what the run
//! handed back.

pub mod bits;
pub mod bitvec;
pub mod error;
pub mod flash;
pub mod order;
pub mod sequence;

pub use error::Error;
pub use flash::SPIFlash;
