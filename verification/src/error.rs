//! The error taxonomy of the decoder: exactly three kinds, no sub-kinds.

use vstd::prelude::*;

verus! {

/// Why a decode step failed. Every decoding function returns one of these
/// three values immediately and unchanged; no decoder recovers, retries, or
/// substitutes a default.
#[derive(Clone, Copy, Debug, PartialEq, Eq)]
pub enum Error {
    /// The buffer ran out before a declared-length field could be fully read.
    ///
    /// Also returned when the declared lengths of a structure are mutually
    /// inconsistent: an address block whose head and tail lengths together
    /// exceed the address length, or a message whose declared size is smaller
    /// than the bytes its header and TLV block actually consumed. Both
    /// subtractions are checked instead of wrapping.
    UnexpectedEof,
    /// An address-block prefix-length byte exceeds `8 * address_length`.
    PrefixTooLarge,
    /// The packet header's version nibble is not the supported version.
    InvalidVersion,
}

} // verus!
