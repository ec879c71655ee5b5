//! What can go wrong in a transaction.

use crate::bitvec::BitvecError;
use vstd::prelude::*;

verus! {

/// A failed transaction.
///
/// The bridge itself finds only failures of conversion. What the probe and
/// the sequence engine report passes through it unchanged, so their errors
/// are whatever types the caller's engine has: `D` for the probe, `J` for
/// the sequence engine, `O` for anything else.
#[derive(Debug, PartialEq, Eq)]
pub enum Error<D, J, O> {
    /// The probe could not complete the transfer.
    DAP(D),
    /// The sequence engine could not build or run the sequence.
    JTAG(J),
    /// Bytes could not be turned into bits, or bits into bytes.
    Bitvec(BitvecError),
    /// A failure of none of these kinds.
    Other(O),
}

} // verus!
