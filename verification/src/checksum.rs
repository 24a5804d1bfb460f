//! The CRC-32C checksum that guards every packet on the wire.
//!
//! The checksum itself is computed by an outside crate; this module gives
//! its result a name that the packet codec's contracts can speak about.

use vstd::prelude::*;

verus! {

/// The CRC-32C (Castagnoli) checksum of a byte sequence: a function of the
/// bytes alone, computed by the outside crate and left uninterpreted here.
pub uninterp spec fn crc32c_of(data: Seq<u8>) -> u32;

/// Compute the CRC-32C checksum of a byte slice.
///
/// Relies on crc32c::crc32c: the CRC-32-Castagnoli checksum, a pure
/// function of the input bytes alone.
#[verifier::external_body]
pub(crate) fn crc32c_bytes(data: &[u8]) -> (r: u32)
    ensures
        r == crc32c_of(data@),
{
    crc32c::crc32c(data)
}

} // verus!
