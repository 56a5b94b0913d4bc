//! CRC-32 digests over byte ranges, as used by the GPT header and entry-array
//! checksums.

use vstd::prelude::*;

verus! {

/// The CRC-32 digest (IEEE 802.3: reflected polynomial 0xEDB88320, initial
/// value 0xFFFFFFFF, final xor 0xFFFFFFFF) of a byte sequence. The digest is a
/// function of the bytes alone; its value is not axiomatised here.
pub uninterp spec fn crc32_of(data: Seq<u8>) -> u32;

/// Relies on crc_any::CRC::crc32(), CRC::digest and CRC::get_crc: together
/// they compute the IEEE 802.3 CRC-32 of exactly the bytes fed to digest, a
/// deterministic function of those bytes; the 32-bit digest is returned
/// widened to u64, so narrowing it back is exact.
#[verifier::external_body]
pub(crate) fn crc32(data: &Vec<u8>) -> (r: u32)
    ensures
        r == crc32_of(data@),
{
    let mut crc = crc_any::CRC::crc32();
    crc.digest(data.as_slice());
    crc.get_crc() as u32
}

} // verus!
