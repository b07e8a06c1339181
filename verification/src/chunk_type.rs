//! The 4-byte chunk-type tag: construction from raw bytes or from text, and
//! the property bits encoded in the ASCII case of each byte.

use vstd::prelude::*;
use vstd::pervasive::unreached;
use vstd::utf8::is_ascii_chars;
use crate::text::lemma_ascii_bytes_utf8;
use crate::text::utf8_to_string;

verus! {

/// True when `b` is an ASCII uppercase letter (`A`-`Z`).
pub open spec fn is_uppercase_byte(b: u8) -> bool {
    65 <= b && b <= 90
}

/// True when `b` is an ASCII lowercase letter (`a`-`z`).
pub open spec fn is_lowercase_byte(b: u8) -> bool {
    97 <= b && b <= 122
}

/// True when `b` is an ASCII letter of either case.
pub open spec fn is_alphabetic_byte(b: u8) -> bool {
    is_uppercase_byte(b) || is_lowercase_byte(b)
}

/// True when `c` is an ASCII letter of either case.
pub open spec fn is_alphabetic_char(c: char) -> bool {
    ('A' <= c && c <= 'Z') || ('a' <= c && c <= 'z')
}

/// True when every character of `s` is an ASCII letter.
pub open spec fn all_alphabetic(s: Seq<char>) -> bool {
    forall|i: int| 0 <= i < s.len() ==> is_alphabetic_char(#[trigger] s[i])
}

/// True when `s` passes every condition checked by [`ChunkType::from_str`]:
/// all characters ASCII, exactly four of them, all alphabetic.
pub open spec fn valid_chunk_type_text(s: Seq<char>) -> bool {
    is_ascii_chars(s) && s.len() == 4 && all_alphabetic(s)
}

/// The reasons a textual chunk type was rejected. Every violated condition is
/// recorded; no check short-circuits the others.
#[derive(Debug, Clone, Copy, PartialEq, Eq)]
pub struct ChunkTypeError {
    /// Some character is not ASCII.
    pub non_ascii: bool,
    /// The text is not exactly four characters long.
    pub wrong_length: bool,
    /// Some character is not an ASCII letter.
    pub non_alphabetic: bool,
    /// The number of characters that were supplied.
    pub actual_length: usize,
}

/// The 4-byte tag that identifies a chunk's category. The ASCII case of each
/// byte encodes one boolean property of the chunk.
#[derive(Debug, Clone, Copy, PartialEq, Eq)]
pub struct ChunkType {
    data: [u8; 4],
}

impl View for ChunkType {
    type V = Seq<u8>;

    closed spec fn view(&self) -> Seq<u8> {
        self.data@
    }
}

/// Every tag consists of exactly four bytes.
pub broadcast proof fn lemma_chunk_type_len(t: &ChunkType)
    ensures
        #[trigger] t@.len() == 4,
{
}

impl ChunkType {
    /// Constructs a tag from four raw bytes without any character-class
    /// validation: a tag read off the wire is taken as it stands.
    pub fn from_raw_bytes(value: [u8; 4]) -> (t: ChunkType)
        ensures
            t@ == value@,
    {
        ChunkType { data: value }
    }

    /// The fallible face of [`ChunkType::from_raw_bytes`]; it never actually
    /// fails, since raw bytes are not validated.
    pub fn try_from(value: [u8; 4]) -> (r: Result<ChunkType, ChunkTypeError>)
        ensures
            r matches Ok(t) && t@ == value@,
    {
        Ok(ChunkType::from_raw_bytes(value))
    }

    /// Constructs a tag from text, the user-facing path. Three conditions are
    /// checked independently and every violation is reported in the error:
    /// all characters ASCII, exactly four characters, all characters letters.
    pub fn from_str(s: &str) -> (r: Result<ChunkType, ChunkTypeError>)
        ensures
            match r {
                Ok(t) => valid_chunk_type_text(s@) && t@.len() == 4 && (forall|i: int|
                    0 <= i < 4 ==> #[trigger] t@[i] == s@[i] as u8),
                Err(e) => {
                    &&& !valid_chunk_type_text(s@)
                    &&& e.non_ascii == !is_ascii_chars(s@)
                    &&& e.wrong_length == (s@.len() != 4)
                    &&& e.non_alphabetic == !all_alphabetic(s@)
                    &&& e.actual_length == s@.len()
                },
            },
    {
        let ascii_ok = s.is_ascii();
        let n = s.unicode_len();
        let mut alpha_ok = true;
        let mut i: usize = 0;
        while i < n
            invariant
                i <= n,
                n == s@.len(),
                alpha_ok == (forall|j: int| 0 <= j < i ==> is_alphabetic_char(#[trigger] s@[j])),
            decreases n - i,
        {
            let c = s.get_char(i);
            let v = c as u32;
            if !((65 <= v && v <= 90) || (97 <= v && v <= 122)) {
                alpha_ok = false;
            }
            i += 1;
        }
        if ascii_ok && n == 4 && alpha_ok {
            let data = [s.get_ascii(0), s.get_ascii(1), s.get_ascii(2), s.get_ascii(3)];
            Ok(ChunkType { data })
        } else {
            Err(ChunkTypeError {
                non_ascii: !ascii_ok,
                wrong_length: n != 4,
                non_alphabetic: !alpha_ok,
                actual_length: n,
            })
        }
    }

    /// The size in bytes of every chunk-type tag.
    pub fn length() -> (r: u32)
        ensures
            r == 4,
    {
        4
    }

    /// The four raw bytes of the tag.
    pub fn bytes(&self) -> (r: [u8; 4])
        ensures
            r@ == self@,
    {
        self.data
    }

    /// True when the tag conforms to the reservation rule: the third byte
    /// must be uppercase.
    pub fn is_valid(&self) -> (r: bool)
        ensures
            r == is_uppercase_byte(self@[2]),
    {
        65 <= self.data[2] && self.data[2] <= 90
    }

    /// True when the chunk is critical (first byte uppercase), as opposed to
    /// ancillary.
    pub fn is_critical(&self) -> (r: bool)
        ensures
            r == is_uppercase_byte(self@[0]),
    {
        65 <= self.data[0] && self.data[0] <= 90
    }

    /// True when the chunk is public (second byte uppercase), as opposed to
    /// private.
    pub fn is_public(&self) -> (r: bool)
        ensures
            r == is_uppercase_byte(self@[1]),
    {
        65 <= self.data[1] && self.data[1] <= 90
    }

    /// True when the reserved bit is in its valid state (third byte
    /// uppercase).
    pub fn is_reserved_bit_valid(&self) -> (r: bool)
        ensures
            r == is_uppercase_byte(self@[2]),
    {
        65 <= self.data[2] && self.data[2] <= 90
    }

    /// True when the chunk is safe to copy by editors (fourth byte
    /// lowercase).
    pub fn is_safe_to_copy(&self) -> (r: bool)
        ensures
            r == is_lowercase_byte(self@[3]),
    {
        97 <= self.data[3] && self.data[3] <= 122
    }

    /// The four bytes read as ASCII text. Only a tag whose bytes are ASCII
    /// can be rendered; a tag built from text always can be.
    pub fn to_string(&self) -> (r: String)
        requires
            forall|i: int| 0 <= i < 4 ==> self@[i] < 0x80,
        ensures
            r@.len() == 4,
            forall|i: int| 0 <= i < 4 ==> r@[i] == #[trigger] self@[i] as char,
    {
        let mut bytes: Vec<u8> = Vec::new();
        bytes.push(self.data[0]);
        bytes.push(self.data[1]);
        bytes.push(self.data[2]);
        bytes.push(self.data[3]);
        proof {
            assert(bytes@ =~= self@);
            lemma_ascii_bytes_utf8(bytes@);
        }
        match utf8_to_string(bytes) {
            Some(s) => s,
            None => unreached(),
        }
    }
}

} // verus!
