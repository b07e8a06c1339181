//! Turning bytes into text: UTF-8 decoding, ASCII reasoning, and decimal
//! rendering of integers.

use vstd::prelude::*;
use vstd::pervasive::unreached;
use vstd::utf8::decode_utf8;
use vstd::utf8::encode_utf8;
use vstd::utf8::encode_utf8_decode_utf8;
use vstd::utf8::encode_utf8_valid_utf8;
use vstd::utf8::is_ascii_chars;
use vstd::utf8::is_ascii_chars_encode_utf8;
use vstd::utf8::valid_utf8;

verus! {

/// Relies on `String::from_utf8`: it succeeds exactly on the byte sequences
/// that are valid UTF-8, and then yields the characters those bytes encode.
#[verifier::external_body]
pub(crate) fn utf8_to_string(bytes: Vec<u8>) -> (r: Option<String>)
    ensures
        match r {
            Some(s) => valid_utf8(bytes@) && s@ == decode_utf8(bytes@),
            None => !valid_utf8(bytes@),
        },
{
    match String::from_utf8(bytes) {
        Ok(s) => Some(s),
        Err(_) => None,
    }
}

/// A sequence of ASCII bytes is valid UTF-8, and decodes byte for byte to the
/// characters with the same code points.
pub proof fn lemma_ascii_bytes_utf8(bytes: Seq<u8>)
    requires
        forall|i: int| 0 <= i < bytes.len() ==> #[trigger] bytes[i] < 0x80,
    ensures
        valid_utf8(bytes),
        decode_utf8(bytes).len() == bytes.len(),
        forall|i: int|
            0 <= i < bytes.len() ==> #[trigger] decode_utf8(bytes)[i] == bytes[i] as char,
{
    let chars = Seq::new(bytes.len(), |i: int| bytes[i] as char);
    assert(is_ascii_chars(chars));
    is_ascii_chars_encode_utf8(chars);
    assert(encode_utf8(chars) =~= bytes);
    encode_utf8_valid_utf8(chars);
    encode_utf8_decode_utf8(chars);
}

/// The ASCII digit byte for the decimal digit `d`.
pub open spec fn digit_byte(d: nat) -> u8
    recommends
        d < 10,
{
    (0x30 + d) as u8
}

/// The decimal rendering of `x` as ASCII digit bytes, most significant digit
/// first, with no leading zeros (zero renders as the single digit `0`).
pub open spec fn decimal_bytes(x: nat) -> Seq<u8>
    decreases x,
{
    if x < 10 {
        seq![digit_byte(x)]
    } else {
        decimal_bytes(x / 10) + seq![digit_byte(x % 10)]
    }
}

/// The decimal rendering of `x` as characters.
pub open spec fn decimal_chars(x: nat) -> Seq<char> {
    Seq::new(decimal_bytes(x).len(), |i: int| decimal_bytes(x)[i] as char)
}

/// Every byte of a decimal rendering is an ASCII digit.
pub proof fn lemma_decimal_bytes_ascii(x: nat)
    ensures
        decimal_bytes(x).len() >= 1,
        forall|i: int|
            0 <= i < decimal_bytes(x).len() ==> 0x30 <= #[trigger] decimal_bytes(x)[i] <= 0x39,
    decreases x,
{
    if x >= 10 {
        lemma_decimal_bytes_ascii(x / 10);
    }
}

/// Renders `x` in decimal as a string of ASCII digits.
pub(crate) fn u32_to_decimal(x: u32) -> (s: String)
    ensures
        s@ == decimal_chars(x as nat),
{
    let mut rev: Vec<u8> = Vec::new();
    let mut v: u32 = x;
    loop
        invariant_except_break
            decimal_bytes(x as nat) =~= decimal_bytes(v as nat) + rev@.reverse(),
        invariant
            forall|j: int| 0 <= j < rev@.len() ==> 0x30 <= #[trigger] rev@[j] <= 0x39,
        ensures
            decimal_bytes(x as nat) =~= rev@.reverse(),
        decreases v,
    {
        let ghost prev = rev@;
        let ghost v0 = v;
        let d = v % 10;
        rev.push(0x30 + d as u8);
        v = v / 10;
        proof {
            assert(rev@.reverse() =~= seq![digit_byte((v0 % 10) as nat)] + prev.reverse());
            if v > 0 {
                assert(decimal_bytes(v0 as nat) =~= decimal_bytes(v as nat) + seq![
                    digit_byte((v0 % 10) as nat),
                ]);
                assert(decimal_bytes(v as nat) + rev@.reverse() =~= (decimal_bytes(v as nat)
                    + seq![digit_byte((v0 % 10) as nat)]) + prev.reverse());
            } else {
                assert(decimal_bytes(v0 as nat) =~= seq![digit_byte((v0 % 10) as nat)]);
            }
        }
        if v == 0 {
            break ;
        }
    }
    let mut out: Vec<u8> = Vec::new();
    let n = rev.len();
    let mut i: usize = 0;
    while i < n
        invariant
            i <= n,
            n == rev@.len(),
            out@.len() == i,
            forall|j: int| 0 <= j < rev@.len() ==> 0x30 <= #[trigger] rev@[j] <= 0x39,
            forall|k: int| 0 <= k < i ==> #[trigger] out@[k] == rev@[n - 1 - k],
        decreases n - i,
    {
        out.push(rev[n - 1 - i]);
        i += 1;
    }
    proof {
        assert(out@ =~= rev@.reverse());
        assert(out@ =~= decimal_bytes(x as nat));
        lemma_decimal_bytes_ascii(x as nat);
        lemma_ascii_bytes_utf8(out@);
    }
    match utf8_to_string(out) {
        Some(s) => {
            proof {
                assert(s@ =~= decimal_chars(x as nat));
            }
            s
        },
        None => unreached(),
    }
}

} // verus!
