//! The bridge between a byte-level SPI transaction and a bit-level JTAG
//! sequence.
//!
//! A flash protocol engine thinks in transactions of bytes, most significant
//! bit first. The probe offers JTAG shifts of bits, least significant bit
//! first, and a mode line that marks a shift as an SPI frame. For each
//! transaction the bridge says what the sequence engine has to run, and
//! reads the bytes out of what the engine hands back. Running the sequence
//! against the probe is the caller's part.

use crate::bitvec::BitvecError;
use crate::error::Error;
use crate::order::{
    bytes_of_msb_first, jtag_to_spi, lemma_length_preserved, lemma_loopback, msb_first,
    spi_to_jtag,
};
use crate::sequence::{transaction, Sequence};
use vstd::prelude::*;

verus! {

/// SPI flash access through a probe session of type `P`.
///
/// The bridge owns the session from `new` to `release` and never changes it.
pub struct SPIFlash<P> {
    dap: P,
}

/// What an exchange of `sent` bytes makes of the bits `captured`: the bytes
/// they hold, if there are eight bits for each byte sent.
pub open spec fn exchange_reply(sent: nat, captured: Seq<bool>) -> Result<Seq<u8>, BitvecError> {
    if captured.len() < 8 * sent {
        Err(BitvecError::NotEnoughBits)
    } else if captured.len() > 8 * sent {
        Err(BitvecError::TooManyBits)
    } else {
        Ok(bytes_of_msb_first(captured))
    }
}

/// With an engine that hands back the bits it was given to shift out, an
/// exchange returns the bytes that were sent.
pub proof fn lemma_exchange_loopback(data: Seq<u8>)
    ensures
        ({
            let asked = transaction(msb_first(data), true)[0];
            &&& asked is Shift
            &&& exchange_reply(data.len(), asked->bits) == Ok::<Seq<u8>, BitvecError>(data)
        }),
{
    lemma_length_preserved(data);
    lemma_loopback(data);
}

impl<P> SPIFlash<P> {
    /// The probe session that the bridge holds.
    pub closed spec fn session(&self) -> P {
        self.dap
    }

    /// Wraps the probe session `dap`.
    pub fn new(dap: P) -> (r: Self)
        ensures
            r.session() == dap,
    {
        SPIFlash { dap }
    }

    /// Gives the probe session back, as it was handed in.
    pub fn release(self) -> (dap: P)
        ensures
            dap == self.session(),
    {
        self.dap
    }

    /// The probe session, for the engine to run a sequence against.
    pub fn dap(&self) -> (dap: &P)
        ensures
            *dap == self.session(),
    {
        &self.dap
    }

    /// The sequence that writes `data`: its bits are shifted out in SPI
    /// order without capture, then the mode line is raised once.
    ///
    /// Fails with `TooManyBits` where eight bits for each byte are more than
    /// a length can count.
    pub fn write_request(&self, data: &[u8]) -> (r: Result<Sequence, BitvecError>)
        ensures
            8 * data@.len() <= usize::MAX ==> (r matches Ok(sequence) && sequence@ == transaction(
                msb_first(data@),
                false,
            )),
            8 * data@.len() > usize::MAX ==> r == Err::<Sequence, BitvecError>(
                BitvecError::TooManyBits,
            ),
    {
        match spi_to_jtag(data) {
            Ok(bits) => Ok(Sequence::transaction(bits, false)),
            Err(e) => Err(e),
        }
    }

    /// The sequence that sends `data` and captures as many bytes meanwhile:
    /// its bits are shifted out in SPI order with capture, then the mode
    /// line is raised once.
    ///
    /// Fails with `TooManyBits` where eight bits for each byte are more than
    /// a length can count.
    pub fn exchange_request(&self, data: &[u8]) -> (r: Result<Sequence, BitvecError>)
        ensures
            8 * data@.len() <= usize::MAX ==> (r matches Ok(sequence) && sequence@ == transaction(
                msb_first(data@),
                true,
            )),
            8 * data@.len() > usize::MAX ==> r == Err::<Sequence, BitvecError>(
                BitvecError::TooManyBits,
            ),
    {
        match spi_to_jtag(data) {
            Ok(bits) => Ok(Sequence::transaction(bits, true)),
            Err(e) => Err(e),
        }
    }

    /// The result of a write, from what the engine handed back for its
    /// sequence: success without data where the engine ran it, the engine's
    /// own error where it did not.
    pub fn write_response<D, J, O>(&self, outcome: Result<Vec<bool>, Error<D, J, O>>) -> (r: Result<
        (),
        Error<D, J, O>,
    >)
        ensures
            outcome is Ok ==> r is Ok,
            outcome matches Err(e) ==> r == Err::<(), Error<D, J, O>>(e),
    {
        match outcome {
            Ok(_) => Ok(()),
            Err(e) => Err(e),
        }
    }

    /// The result of an exchange of `sent` bytes, from what the engine
    /// handed back for its sequence.
    ///
    /// Where the engine failed, its own error. Where it captured eight bits
    /// for each byte sent, the bytes they hold in SPI order. Where it
    /// captured fewer bits, `NotEnoughBits`; where more, `TooManyBits`:
    /// nothing is cut off or filled up.
    pub fn exchange_response<D, J, O>(
        &self,
        sent: usize,
        outcome: Result<Vec<bool>, Error<D, J, O>>,
    ) -> (r: Result<Vec<u8>, Error<D, J, O>>)
        ensures
            outcome matches Err(e) ==> r == Err::<Vec<u8>, Error<D, J, O>>(e),
            outcome matches Ok(captured) ==> match exchange_reply(sent as nat, captured@) {
                Ok(bytes) => r matches Ok(received) && received@ == bytes,
                Err(e) => r == Err::<Vec<u8>, Error<D, J, O>>(Error::Bitvec(e)),
            },
            r matches Ok(received) ==> received@.len() == sent,
    {
        match outcome {
            Ok(captured) => {
                let whole: usize = captured.len() / 8;
                if whole < sent {
                    Err(Error::Bitvec(BitvecError::NotEnoughBits))
                } else if whole > sent || captured.len() % 8 != 0 {
                    Err(Error::Bitvec(BitvecError::TooManyBits))
                } else {
                    Ok(jtag_to_spi(captured.as_slice()))
                }
            },
            Err(e) => Err(e),
        }
    }
}

} // verus!
