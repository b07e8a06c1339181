//! Reading and writing 32-bit integers as four big-endian bytes, the integer
//! encoding of the chunk wire format.

use vstd::prelude::*;

verus! {

/// The value of four bytes read as one big-endian 32-bit integer.
pub open spec fn spec_u32_from_be_bytes(s: Seq<u8>) -> u32
    recommends
        s.len() == 4,
{
    ((s[0] as u32) << 24) | ((s[1] as u32) << 16) | ((s[2] as u32) << 8) | (s[3] as u32)
}

/// The four-byte big-endian encoding of a 32-bit integer.
pub open spec fn spec_u32_to_be_bytes(x: u32) -> Seq<u8> {
    seq![
        (((x >> 24) & 0xff) as u8),
        (((x >> 16) & 0xff) as u8),
        (((x >> 8) & 0xff) as u8),
        ((x & 0xff) as u8),
    ]
}

/// Encoding a 32-bit integer and reading the four bytes back yields the
/// integer again.
pub proof fn lemma_u32_be_bytes_of_u32(x: u32)
    ensures
        spec_u32_to_be_bytes(x).len() == 4,
        spec_u32_from_be_bytes(spec_u32_to_be_bytes(x)) == x,
{
    assert((((((x >> 24) & 0xff) as u8) as u32) << 24) | (((((x >> 16) & 0xff) as u8) as u32)
        << 16) | (((((x >> 8) & 0xff) as u8) as u32) << 8) | (((x & 0xff) as u8) as u32) == x)
        by (bit_vector);
}

/// Reading four bytes as a big-endian integer and encoding that integer again
/// yields the same four bytes: the encoding is one-to-one.
pub proof fn lemma_u32_be_u32_of_bytes(s: Seq<u8>)
    requires
        s.len() == 4,
    ensures
        spec_u32_to_be_bytes(spec_u32_from_be_bytes(s)) == s,
{
    let b0 = s[0];
    let b1 = s[1];
    let b2 = s[2];
    let b3 = s[3];
    let x = spec_u32_from_be_bytes(s);
    assert(x == ((b0 as u32) << 24) | ((b1 as u32) << 16) | ((b2 as u32) << 8) | (b3 as u32));
    assert({
        let y = ((b0 as u32) << 24) | ((b1 as u32) << 16) | ((b2 as u32) << 8) | (b3 as u32);
        (((y >> 24) & 0xff) as u8) == b0 && (((y >> 16) & 0xff) as u8) == b1 && (((y >> 8)
            & 0xff) as u8) == b2 && ((y & 0xff) as u8) == b3
    }) by (bit_vector);
    assert(spec_u32_to_be_bytes(x) =~= s);
}

/// Reads the four bytes of `buf` starting at `off` as one big-endian 32-bit
/// integer.
pub(crate) fn read_be_u32(buf: &[u8], off: usize) -> (x: u32)
    requires
        off + 4 <= buf@.len(),
    ensures
        x == spec_u32_from_be_bytes(buf@.subrange(off as int, off as int + 4)),
{
    let x = ((buf[off] as u32) << 24) | ((buf[off + 1] as u32) << 16) | ((buf[off + 2] as u32)
        << 8) | (buf[off + 3] as u32);
    proof {
        let s = buf@.subrange(off as int, off as int + 4);
        assert(s[0] == buf@[off as int] && s[1] == buf@[off as int + 1] && s[2] == buf@[off as int
            + 2] && s[3] == buf@[off as int + 3]);
    }
    x
}

/// Appends the four-byte big-endian encoding of `x` to `v`.
pub(crate) fn push_be_u32(v: &mut Vec<u8>, x: u32)
    ensures
        final(v)@ == old(v)@ + spec_u32_to_be_bytes(x),
{
    v.push(((x >> 24) & 0xff) as u8);
    v.push(((x >> 16) & 0xff) as u8);
    v.push(((x >> 8) & 0xff) as u8);
    v.push((x & 0xff) as u8);
    proof {
        assert(v@ =~= old(v)@ + spec_u32_to_be_bytes(x));
    }
}

} // verus!
