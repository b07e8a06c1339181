//! One on-wire chunk record: decoding raw bytes into a validated chunk,
//! building one from a tag and a payload, and serializing back to bytes.

use vstd::prelude::*;
use vstd::pervasive::unreached;
use vstd::slice::slice_subrange;
use vstd::slice::slice_to_vec;
use vstd::utf8::decode_utf8;
use vstd::utf8::valid_utf8;
use crate::be32::lemma_u32_be_bytes_of_u32;
use crate::be32::lemma_u32_be_u32_of_bytes;
use crate::be32::push_be_u32;
use crate::be32::read_be_u32;
use crate::be32::spec_u32_from_be_bytes;
use crate::be32::spec_u32_to_be_bytes;
use crate::checksum::crc32_concat;
use crate::checksum::crc32_of;
use crate::chunk_type::ChunkType;
use crate::text::decimal_chars;
use crate::text::u32_to_decimal;
use crate::text::utf8_to_string;

verus! {

/// The largest payload length a decoder accepts.
pub const MAX_CHUNK_LENGTH: u32 = 0x7fffffff;

/// Why a buffer failed to decode, or why chunk data failed to read as text.
#[derive(Debug, Clone, Copy, PartialEq, Eq)]
pub enum ChunkError {
    /// Too few bytes to read the 4-byte length field or the 4-byte tag.
    BufferTooShort,
    /// The declared payload length exceeds the largest accepted value.
    LengthTooLarge(u32),
    /// The declared payload length exceeds what the buffer holds after the
    /// tag.
    IncorrectLength(u32),
    /// The bytes after the payload are not exactly the 4-byte checksum field.
    InvalidChecksumField,
    /// The stored checksum differs from the one computed over tag and
    /// payload.
    CrcMismatch { expected: u32, calculated: u32 },
    /// The payload is not valid UTF-8 text.
    Utf8Decode,
}

/// The mathematical value of one chunk record.
#[verifier::ext_equal]
pub ghost struct ChunkAbs {
    pub length: u32,
    pub type_bytes: Seq<u8>,
    pub data: Seq<u8>,
    pub crc: u32,
}

/// A chunk value is well formed when its tag has four bytes, its declared
/// length matches its payload, and its stored checksum is the checksum over
/// tag and payload.
pub open spec fn abs_wf(c: ChunkAbs) -> bool {
    &&& c.type_bytes.len() == 4
    &&& c.data.len() == c.length
    &&& c.crc == crc32_of(c.type_bytes + c.data)
}

/// The chunk that building from a tag and a payload yields: the declared
/// length is the payload length and the checksum is computed fresh over tag
/// and payload.
pub open spec fn spec_encode(type_bytes: Seq<u8>, data: Seq<u8>) -> ChunkAbs
    recommends
        data.len() <= u32::MAX,
{
    ChunkAbs {
        length: data.len() as u32,
        type_bytes: type_bytes,
        data: data,
        crc: crc32_of(type_bytes + data),
    }
}

/// The serialized form of a chunk: big-endian length, the four tag bytes, the
/// payload, and the big-endian checksum.
pub open spec fn spec_serialize(c: ChunkAbs) -> Seq<u8> {
    spec_u32_to_be_bytes(c.length) + c.type_bytes + c.data + spec_u32_to_be_bytes(c.crc)
}

/// What decoding a buffer yields: the parsed record, or the first failure of
/// the sequential all-or-nothing parse.
pub open spec fn spec_decode(buf: Seq<u8>) -> Result<ChunkAbs, ChunkError> {
    if buf.len() < 4 {
        Err(ChunkError::BufferTooShort)
    } else {
        let length = spec_u32_from_be_bytes(buf.subrange(0, 4));
        if length > MAX_CHUNK_LENGTH {
            Err(ChunkError::LengthTooLarge(length))
        } else if buf.len() < 8 {
            Err(ChunkError::BufferTooShort)
        } else if buf.len() < 8 + length {
            Err(ChunkError::IncorrectLength(length))
        } else if buf.len() != 12 + length {
            Err(ChunkError::InvalidChecksumField)
        } else {
            let type_bytes = buf.subrange(4, 8);
            let data = buf.subrange(8, 8 + length as int);
            let stored = spec_u32_from_be_bytes(
                buf.subrange(8 + length as int, 12 + length as int),
            );
            let calculated = crc32_of(type_bytes + data);
            if stored != calculated {
                Err(ChunkError::CrcMismatch { expected: stored, calculated: calculated })
            } else {
                Ok(ChunkAbs { length, type_bytes, data, crc: stored })
            }
        }
    }
}

/// One complete chunk record, owning its payload.
#[derive(Debug)]
pub struct Chunk {
    length: u32,
    chunk_type: ChunkType,
    chunk_data: Vec<u8>,
    crc: u32,
}

impl View for Chunk {
    type V = ChunkAbs;

    closed spec fn view(&self) -> ChunkAbs {
        ChunkAbs {
            length: self.length,
            type_bytes: self.chunk_type@,
            data: self.chunk_data@,
            crc: self.crc,
        }
    }
}

impl Chunk {
    /// True when the record's stored fields agree with each other; every
    /// constructor establishes it.
    pub open spec fn wf(&self) -> bool {
        abs_wf(self@)
    }

    /// Builds a chunk from a tag and a payload, computing the checksum fresh.
    /// The declared length is the payload length; the caller keeps it within
    /// 32 bits (the decoder's stricter bound is not enforced here).
    pub fn new(chunk_type: ChunkType, data: Vec<u8>) -> (c: Chunk)
        requires
            data@.len() <= u32::MAX,
        ensures
            c@ == spec_encode(chunk_type@, data@),
            c.wf(),
    {
        let length = data.len() as u32;
        let type_bytes = chunk_type.bytes();
        let crc = crc32_concat(type_bytes.as_slice(), data.as_slice());
        let c = Chunk { length, chunk_type, chunk_data: data, crc };
        proof {
            assert(c@ =~= spec_encode(c@.type_bytes, c@.data));
        }
        c
    }

    /// Decodes one complete record: length, tag, payload and trailing
    /// checksum, all or nothing. The buffer must end exactly at the record
    /// boundary.
    pub fn try_from(value: &[u8]) -> (r: Result<Chunk, ChunkError>)
        ensures
            match r {
                Ok(c) => spec_decode(value@) == Ok::<ChunkAbs, ChunkError>(c@) && c.wf(),
                Err(e) => spec_decode(value@) == Err::<ChunkAbs, ChunkError>(e),
            },
    {
        if value.len() < 4 {
            return Err(ChunkError::BufferTooShort);
        }
        let length = read_be_u32(value, 0);
        if length > MAX_CHUNK_LENGTH {
            return Err(ChunkError::LengthTooLarge(length));
        }
        if value.len() < 8 {
            return Err(ChunkError::BufferTooShort);
        }
        let len_us = length as usize;
        if value.len() - 8 < len_us {
            return Err(ChunkError::IncorrectLength(length));
        }
        if value.len() - 8 - len_us != 4 {
            return Err(ChunkError::InvalidChecksumField);
        }
        let type_arr = [value[4], value[5], value[6], value[7]];
        let chunk_type = ChunkType::from_raw_bytes(type_arr);
        let data_slice = slice_subrange(value, 8, 8 + len_us);
        let data = slice_to_vec(data_slice);
        let stored = read_be_u32(value, 8 + len_us);
        let type_bytes = chunk_type.bytes();
        let calculated = crc32_concat(type_bytes.as_slice(), data.as_slice());
        proof {
            assert(type_bytes@ =~= value@.subrange(4, 8));
        }
        if stored != calculated {
            return Err(ChunkError::CrcMismatch { expected: stored, calculated });
        }
        let c = Chunk { length, chunk_type, chunk_data: data, crc: stored };
        proof {
            assert(c@.type_bytes =~= value@.subrange(4, 8));
            assert(spec_decode(value@) == Ok::<ChunkAbs, ChunkError>(c@));
        }
        Ok(c)
    }

    /// The declared payload length.
    pub fn length(&self) -> (r: u32)
        ensures
            r == self@.length,
    {
        self.length
    }

    /// The chunk's tag.
    pub fn chunk_type(&self) -> (r: &ChunkType)
        ensures
            r@ == self@.type_bytes,
    {
        &self.chunk_type
    }

    /// The payload, borrowed read-only.
    pub fn data(&self) -> (r: &[u8])
        ensures
            r@ == self@.data,
    {
        self.chunk_data.as_slice()
    }

    /// The stored checksum.
    pub fn crc(&self) -> (r: u32)
        ensures
            r == self@.crc,
    {
        self.crc
    }

    /// Reads the payload as UTF-8 text; fails when it is not valid UTF-8.
    /// The chunk itself is not changed.
    pub fn data_as_string(&self) -> (r: Result<String, ChunkError>)
        ensures
            match r {
                Ok(s) => valid_utf8(self@.data) && s@ == decode_utf8(self@.data),
                Err(e) => !valid_utf8(self@.data) && e == ChunkError::Utf8Decode,
            },
    {
        let bytes = slice_to_vec(self.chunk_data.as_slice());
        match utf8_to_string(bytes) {
            Some(s) => Ok(s),
            None => Err(ChunkError::Utf8Decode),
        }
    }

    /// Serializes the record: big-endian length, the four tag bytes, the
    /// payload, and the big-endian checksum — `length + 12` bytes in all.
    pub fn as_bytes(&self) -> (r: Vec<u8>)
        ensures
            r@ == spec_serialize(self@),
            r@.len() == self@.data.len() + 12,
    {
        let mut result: Vec<u8> = Vec::new();
        push_be_u32(&mut result, self.length);
        let type_bytes = self.chunk_type.bytes();
        result.extend_from_slice(type_bytes.as_slice());
        result.extend_from_slice(self.chunk_data.as_slice());
        push_be_u32(&mut result, self.crc);
        proof {
            assert(result@ =~= spec_serialize(self@));
        }
        result
    }
}

/// Round trip: serializing the chunk built from any four-byte tag and any
/// payload within the decoder's length bound, then decoding the resulting
/// buffer, yields that chunk back, with the same tag, payload and length.
pub proof fn lemma_round_trip(type_bytes: Seq<u8>, data: Seq<u8>)
    requires
        type_bytes.len() == 4,
        data.len() <= MAX_CHUNK_LENGTH,
    ensures
        spec_decode(spec_serialize(spec_encode(type_bytes, data))) == Ok::<
            ChunkAbs,
            ChunkError,
        >(spec_encode(type_bytes, data)),
{
    let c = spec_encode(type_bytes, data);
    let buf = spec_serialize(c);
    lemma_u32_be_bytes_of_u32(c.length);
    lemma_u32_be_bytes_of_u32(c.crc);
    assert(buf.subrange(0, 4) =~= spec_u32_to_be_bytes(c.length));
    assert(buf.subrange(4, 8) =~= type_bytes);
    assert(buf.subrange(8, 8 + c.length as int) =~= data);
    assert(buf.subrange(8 + c.length as int, 12 + c.length as int) =~= spec_u32_to_be_bytes(c.crc));
    assert(spec_decode(buf) matches Ok(d) && d =~= c);
}

/// Tamper detection: decoding a buffer whose trailing checksum field holds
/// anything but the encoding of the checksum over tag and payload — any
/// single flipped bit included — fails with a checksum mismatch; it never
/// silently yields a chunk.
pub proof fn lemma_tamper_detection(type_bytes: Seq<u8>, data: Seq<u8>, tampered: Seq<u8>)
    requires
        type_bytes.len() == 4,
        data.len() <= MAX_CHUNK_LENGTH,
        tampered.len() == 4,
        tampered != spec_u32_to_be_bytes(crc32_of(type_bytes + data)),
    ensures
        ({
            let buf = spec_u32_to_be_bytes(data.len() as u32) + type_bytes + data + tampered;
            spec_decode(buf) == Err::<ChunkAbs, ChunkError>(ChunkError::CrcMismatch {
                expected: spec_u32_from_be_bytes(tampered),
                calculated: crc32_of(type_bytes + data),
            })
        }),
{
    let length = data.len() as u32;
    let buf = spec_u32_to_be_bytes(length) + type_bytes + data + tampered;
    let stored = spec_u32_from_be_bytes(tampered);
    let calculated = crc32_of(type_bytes + data);
    if stored == calculated {
        lemma_u32_be_u32_of_bytes(tampered);
        assert(tampered == spec_u32_to_be_bytes(calculated));
        assert(false);
    }
    lemma_u32_be_bytes_of_u32(length);
    assert(buf.subrange(0, 4) =~= spec_u32_to_be_bytes(length));
    assert(buf.subrange(4, 8) =~= type_bytes);
    assert(buf.subrange(8, 8 + length as int) =~= data);
    assert(buf.subrange(8 + length as int, 12 + length as int) =~= tampered);
}

/// Tamper detection, bit by bit: flipping any single bit of the serialized
/// checksum field changes the stored checksum, so decoding fails with a
/// checksum mismatch; it never silently succeeds.
pub proof fn lemma_single_bit_flip_detection(
    type_bytes: Seq<u8>,
    data: Seq<u8>,
    position: int,
    bit: u8,
)
    requires
        type_bytes.len() == 4,
        data.len() <= MAX_CHUNK_LENGTH,
        0 <= position < 4,
        bit < 8,
    ensures
        ({
            let correct = spec_u32_to_be_bytes(crc32_of(type_bytes + data));
            let flipped = correct.update(position, correct[position] ^ (1u8 << bit));
            let buf = spec_u32_to_be_bytes(data.len() as u32) + type_bytes + data + flipped;
            spec_decode(buf) == Err::<ChunkAbs, ChunkError>(ChunkError::CrcMismatch {
                expected: spec_u32_from_be_bytes(flipped),
                calculated: crc32_of(type_bytes + data),
            })
        }),
{
    let correct = spec_u32_to_be_bytes(crc32_of(type_bytes + data));
    let b = correct[position];
    let flipped = correct.update(position, b ^ (1u8 << bit));
    assert((b ^ (1u8 << bit)) != b) by (bit_vector)
        requires
            bit < 8,
    ;
    assert(flipped[position] != correct[position]);
    lemma_tamper_detection(type_bytes, data, flipped);
}

/// Serializing is the exact inverse of decoding: any buffer that decodes
/// successfully is reproduced, byte for byte, by serializing the chunk it
/// decoded to.
pub proof fn lemma_serialize_inverts_decode(buf: Seq<u8>)
    requires
        spec_decode(buf) is Ok,
    ensures
        spec_serialize(spec_decode(buf).unwrap()) == buf,
{
    let c = spec_decode(buf).unwrap();
    lemma_u32_be_u32_of_bytes(buf.subrange(0, 4));
    lemma_u32_be_u32_of_bytes(buf.subrange(8 + c.length as int, 12 + c.length as int));
    assert(spec_serialize(c) =~= buf);
}

/// Length enforcement: a declared length within the accepted bound but larger
/// than the payload bytes the buffer actually holds is rejected as an
/// incorrect length.
pub proof fn lemma_length_enforcement(buf: Seq<u8>)
    requires
        buf.len() >= 8,
        spec_u32_from_be_bytes(buf.subrange(0, 4)) <= MAX_CHUNK_LENGTH,
        buf.len() < 8 + spec_u32_from_be_bytes(buf.subrange(0, 4)),
    ensures
        spec_decode(buf) == Err::<ChunkAbs, ChunkError>(ChunkError::IncorrectLength(
            spec_u32_from_be_bytes(buf.subrange(0, 4)),
        )),
{
}

/// The display text of a chunk: its length, its tag as text, and its checksum
/// value, one per line. Diagnostic output only, not part of the wire format.
pub open spec fn display_chars(c: ChunkAbs) -> Seq<char> {
    "Chunk length: "@ + decimal_chars(c.length as nat) + "\n"@ + "Chunk type: "@ + Seq::new(
        c.type_bytes.len(),
        |i: int| c.type_bytes[i] as char,
    ) + "\n"@ + "CRC: "@ + decimal_chars(c.crc as nat) + "\n"@
}

impl Chunk {
    /// Renders the chunk for diagnostic printing. Only a chunk whose tag
    /// bytes are ASCII can be rendered; a tag built from text always can be.
    pub fn to_string(&self) -> (r: String)
        requires
            forall|i: int| 0 <= i < self@.type_bytes.len() ==> self@.type_bytes[i] < 0x80,
        ensures
            r@ == display_chars(self@),
    {
        proof {
            crate::chunk_type::lemma_chunk_type_len(&self.chunk_type);
            assert forall|i: int| 0 <= i < 4 implies self.chunk_type@[i] < 0x80 by {
                assert(self@.type_bytes[i] < 0x80);
            }
        }
        let mut s = String::from_str("Chunk length: ");
        let length_text = u32_to_decimal(self.length);
        s.append(length_text.as_str());
        s.append("\n");
        s.append("Chunk type: ");
        let type_text = self.chunk_type.to_string();
        s.append(type_text.as_str());
        s.append("\n");
        s.append("CRC: ");
        let crc_text = u32_to_decimal(self.crc);
        s.append(crc_text.as_str());
        s.append("\n");
        proof {
            assert(type_text@ =~= Seq::new(self@.type_bytes.len(), |i: int| self@.type_bytes[i] as char));
            assert(s@ =~= display_chars(self@));
        }
        s
    }
}

} // verus!
