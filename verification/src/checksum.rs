//! The checksum engine: CRC-32/ISO-HDLC over a byte sequence, computed by the
//! `crc` crate.

use vstd::prelude::*;

verus! {

/// The CRC-32/ISO-HDLC checksum of a byte sequence. The name stands for the
/// result of the `crc` crate's implementation, a pure function of the bytes
/// alone; the crate computes it, nothing in this library restates it.
pub uninterp spec fn crc32_of(bytes: Seq<u8>) -> u32;

/// Relies on `crc::Crc::<u32>` with the `CRC_32_ISO_HDLC` algorithm: a digest
/// folds the bytes it is fed in order, so updating with `a` and then `b` and
/// finalizing yields the checksum of the concatenation, a value that depends
/// on those bytes alone.
#[verifier::external_body]
pub(crate) fn crc32_concat(a: &[u8], b: &[u8]) -> (r: u32)
    ensures
        r == crc32_of(a@ + b@),
{
    let algo = crc::Crc::<u32>::new(&crc::CRC_32_ISO_HDLC);
    let mut digest = algo.digest();
    digest.update(a);
    digest.update(b);
    digest.finalize()
}

/// The checksum is deterministic: it is a function of the byte sequence it is
/// taken over, however that sequence was assembled, so identical inputs always
/// yield identical checksums.
pub proof fn lemma_checksum_deterministic(a1: Seq<u8>, b1: Seq<u8>, a2: Seq<u8>, b2: Seq<u8>)
    requires
        a1 + b1 == a2 + b2,
    ensures
        crc32_of(a1 + b1) == crc32_of(a2 + b2),
{
}

} // verus!
