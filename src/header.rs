use vstd::bytes::{
    spec_u32_from_le_bytes, spec_u32_to_le_bytes, u32_from_le_bytes, u32_to_le_bytes,
};
use vstd::prelude::*;

use crate::error::InvalidHeaderError;

verus! {

/// Size in bytes of the file header, magic tag included.
pub const HEADER_SIZE: usize = 20;

/// The tag `WDBC` read as a little-endian `u32`.
pub const MAGIC: u32 = 0x43424457;

/// The four counters that follow the magic tag.
#[derive(Debug, Clone, Copy, PartialEq, Eq)]
pub struct DbcHeader {
    pub record_count: u32,
    pub field_count: u32,
    pub record_size: u32,
    pub string_block_size: u32,
}

/// The little-endian `u32` stored at byte `at` of `b`.
pub open spec fn word_at(b: Seq<u8>, at: int) -> u32 {
    spec_u32_from_le_bytes(b.subrange(at, at + 4))
}

/// The header described by the first twenty bytes of `b`, whatever its tag.
pub open spec fn header_fields(b: Seq<u8>) -> DbcHeader {
    DbcHeader {
        record_count: word_at(b, 4),
        field_count: word_at(b, 8),
        record_size: word_at(b, 12),
        string_block_size: word_at(b, 16),
    }
}

/// What parsing the first twenty bytes of `b` yields.
pub open spec fn parse_header_spec(b: Seq<u8>) -> Result<DbcHeader, InvalidHeaderError> {
    if word_at(b, 0) != MAGIC {
        Err(InvalidHeaderError::MagicValue { actual: word_at(b, 0) })
    } else {
        Ok(header_fields(b))
    }
}

/// The twenty bytes that encode `h`.
pub open spec fn header_bytes(h: DbcHeader) -> Seq<u8> {
    spec_u32_to_le_bytes(MAGIC) + spec_u32_to_le_bytes(h.record_count) + spec_u32_to_le_bytes(
        h.field_count,
    ) + spec_u32_to_le_bytes(h.record_size) + spec_u32_to_le_bytes(h.string_block_size)
}

/// Reads the little-endian `u32` at byte `at` of `b`.
pub fn read_word(b: &[u8], at: usize) -> (r: u32)
    requires
        at + 4 <= b@.len(),
    ensures
        r == word_at(b@, at as int),
{
    let n = b.len();
    assert(at + 4 <= n);
    let s = &b[at..at + 4];
    assert(s@ == b@.subrange(at as int, at + 4));
    u32_from_le_bytes(s)
}

/// Appends the four little-endian bytes of `v` to `out`.
pub fn push_word(out: &mut Vec<u8>, v: u32)
    ensures
        final(out)@ == old(out)@ + spec_u32_to_le_bytes(v),
{
    let bytes = u32_to_le_bytes(v);
    let ghost start = out@;
    let mut i: usize = 0;
    while i < 4
        invariant
            bytes@ == spec_u32_to_le_bytes(v),
            bytes@.len() == 4,
            0 <= i <= 4,
            out@ == start + bytes@.subrange(0, i as int),
        decreases 4 - i,
    {
        out.push(bytes[i]);
        assert(bytes@.subrange(0, i + 1) == bytes@.subrange(0, i as int).push(bytes@[i as int]));
        i += 1;
    }
    assert(bytes@.subrange(0, 4) == bytes@);
}

/// Parses the header at the start of `b`: the tag must be `WDBC`. The
/// counters are not checked against any table layout here.
pub fn parse_header(b: &[u8]) -> (r: Result<DbcHeader, InvalidHeaderError>)
    requires
        b@.len() >= HEADER_SIZE,
    ensures
        r == parse_header_spec(b@),
{
    let magic = read_word(b, 0);
    if magic != MAGIC {
        return Err(InvalidHeaderError::MagicValue { actual: magic });
    }
    Ok(
        DbcHeader {
            record_count: read_word(b, 4),
            field_count: read_word(b, 8),
            record_size: read_word(b, 12),
            string_block_size: read_word(b, 16),
        },
    )
}

impl DbcHeader {
    /// The tag followed by the four counters, little-endian.
    pub fn write_header(&self) -> (r: Vec<u8>)
        ensures
            r@ == header_bytes(*self),
            r@.len() == HEADER_SIZE,
    {
        let mut out: Vec<u8> = Vec::new();
        push_word(&mut out, MAGIC);
        push_word(&mut out, self.record_count);
        push_word(&mut out, self.field_count);
        push_word(&mut out, self.record_size);
        push_word(&mut out, self.string_block_size);
        proof {
            vstd::bytes::lemma_auto_spec_u32_to_from_le_bytes();
            assert(out@ =~= header_bytes(*self));
        }
        out
    }
}

} // verus!
