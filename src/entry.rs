use vstd::prelude::*;

use crate::bytes::{
    lemma_bytes_len,
    lemma_u32_round_trip,
    lemma_u64_round_trip,
    push_u32_le,
    push_u64_le,
    read_u32_le,
    read_u64_le,
    u32_bytes,
    u32_le,
    u64_bytes,
    u64_le,
};
use crate::error::DecodeError;
use crate::header::{check_magic, has_magic};

verus! {

/// Size in bytes of an entry's fixed part: the signature and ten fields.
pub const CACHE_ENTRY_SIZE: usize = 56;

/// The fixed part of one cache entry. Its signature is not stored: every
/// decoded entry carries the database signature.
#[derive(Debug, PartialEq, Eq, Structural, Clone, Copy)]
pub struct CacheEntry {
    /// Length of the whole record: fixed part, filename, padding and payload.
    pub entry_size: u32,
    pub hash: u64,
    /// Length in bytes of the UTF-16 filename that follows the fixed part.
    pub filename_length: u32,
    /// Length of the gap between the filename and the payload.
    pub padding_size: u32,
    /// Length of the payload.
    pub data_size: u32,
    pub width: u32,
    pub height: u32,
    pub unknown: u32,
    pub data_checksum: u64,
    pub header_checksum: u64,
}

/// The fixed fields stored at offset `off` of `s`.
pub open spec fn entry_fields(s: Seq<u8>, off: int) -> CacheEntry {
    CacheEntry {
        entry_size: u32_le(s, off + 4) as u32,
        hash: u64_le(s, off + 8) as u64,
        filename_length: u32_le(s, off + 16) as u32,
        padding_size: u32_le(s, off + 20) as u32,
        data_size: u32_le(s, off + 24) as u32,
        width: u32_le(s, off + 28) as u32,
        height: u32_le(s, off + 32) as u32,
        unknown: u32_le(s, off + 36) as u32,
        data_checksum: u64_le(s, off + 40) as u64,
        header_checksum: u64_le(s, off + 48) as u64,
    }
}

/// The entry at offset `off` of `s`, or why it cannot be decoded.
pub open spec fn parse_entry(s: Seq<u8>, off: int) -> Result<CacheEntry, DecodeError> {
    let e = entry_fields(s, off);
    if off + CACHE_ENTRY_SIZE > s.len() {
        Err(DecodeError::TooShort)
    } else if !has_magic(s, off) {
        Err(DecodeError::BadMagic)
    } else if e.entry_size == 0 {
        Err(DecodeError::ZeroSizedEntry)
    } else if e.filename_length % 2 != 0 {
        Err(DecodeError::MalformedFilename)
    } else {
        Ok(e)
    }
}

/// The database signature as bytes.
pub open spec fn magic_bytes() -> Seq<u8> {
    seq![0x43u8, 0x4D, 0x4D, 0x4D]
}

/// The bytes of the fixed part of `e`, signature first.
pub open spec fn entry_bytes(e: CacheEntry) -> Seq<u8> {
    magic_bytes() + u32_bytes(e.entry_size) + u64_bytes(e.hash) + u32_bytes(e.filename_length)
        + u32_bytes(e.padding_size) + u32_bytes(e.data_size) + u32_bytes(e.width) + u32_bytes(
        e.height,
    ) + u32_bytes(e.unknown) + u64_bytes(e.data_checksum) + u64_bytes(e.header_checksum)
}

impl CacheEntry {
    /// An entry that the decoder accepts: nonzero size, even filename length.
    pub open spec fn wf(&self) -> bool {
        self.entry_size > 0 && self.filename_length % 2 == 0
    }

    /// The fixed part of this entry as stored in a database.
    pub fn to_bytes(&self) -> (r: Vec<u8>)
        ensures
            r@ == entry_bytes(*self),
            r@.len() == CACHE_ENTRY_SIZE,
    {
        let mut out: Vec<u8> = Vec::new();
        out.push(0x43);
        out.push(0x4D);
        out.push(0x4D);
        out.push(0x4D);
        assert(out@ =~= magic_bytes());
        push_u32_le(&mut out, self.entry_size);
        push_u64_le(&mut out, self.hash);
        push_u32_le(&mut out, self.filename_length);
        push_u32_le(&mut out, self.padding_size);
        push_u32_le(&mut out, self.data_size);
        push_u32_le(&mut out, self.width);
        push_u32_le(&mut out, self.height);
        push_u32_le(&mut out, self.unknown);
        push_u64_le(&mut out, self.data_checksum);
        push_u64_le(&mut out, self.header_checksum);
        proof {
            lemma_entry_layout(*self);
        }
        out
    }
}

/// Decodes the entry at `offset`.
pub fn decode_entry(buf: &[u8], offset: usize) -> (r: Result<CacheEntry, DecodeError>)
    ensures
        r == parse_entry(buf@, offset as int),
{
    if offset > buf.len() || buf.len() - offset < CACHE_ENTRY_SIZE {
        return Err(DecodeError::TooShort);
    }
    if !check_magic(buf, offset) {
        return Err(DecodeError::BadMagic);
    }
    let entry_size = read_u32_le(buf, offset + 4);
    if entry_size == 0 {
        return Err(DecodeError::ZeroSizedEntry);
    }
    let filename_length = read_u32_le(buf, offset + 16);
    if filename_length % 2 != 0 {
        return Err(DecodeError::MalformedFilename);
    }
    Ok(
        CacheEntry {
            entry_size,
            hash: read_u64_le(buf, offset + 8),
            filename_length,
            padding_size: read_u32_le(buf, offset + 20),
            data_size: read_u32_le(buf, offset + 24),
            width: read_u32_le(buf, offset + 28),
            height: read_u32_le(buf, offset + 32),
            unknown: read_u32_le(buf, offset + 36),
            data_checksum: read_u64_le(buf, offset + 40),
            header_checksum: read_u64_le(buf, offset + 48),
        },
    )
}

/// The little-endian `u32` read at `at` from `s` is the one whose bytes
/// stand there.
proof fn lemma_read_u32_at(s: Seq<u8>, at: int, x: u32)
    requires
        0 <= at,
        at + 4 <= s.len(),
        s.subrange(at, at + 4) == u32_bytes(x),
    ensures
        u32_le(s, at) == x,
{
    lemma_u32_round_trip(x);
    assert(u32_le(s, at) == u32_le(s.subrange(at, at + 4), 0));
}

/// The little-endian `u64` read at `at` from `s` is the one whose bytes
/// stand there.
proof fn lemma_read_u64_at(s: Seq<u8>, at: int, x: u64)
    requires
        0 <= at,
        at + 8 <= s.len(),
        s.subrange(at, at + 8) == u64_bytes(x),
    ensures
        u64_le(s, at) == x,
{
    lemma_u64_round_trip(x);
    let t = s.subrange(at, at + 8);
    assert(u32_le(s, at) == u32_le(t, 0));
    assert(u32_le(s, at + 4) == u32_le(t, 4));
}

/// Where each field's bytes stand in the encoding of an entry.
proof fn lemma_entry_layout(e: CacheEntry)
    ensures
        entry_bytes(e).len() == CACHE_ENTRY_SIZE,
        entry_bytes(e).subrange(0, 4) == magic_bytes(),
        entry_bytes(e).subrange(4, 8) == u32_bytes(e.entry_size),
        entry_bytes(e).subrange(8, 16) == u64_bytes(e.hash),
        entry_bytes(e).subrange(16, 20) == u32_bytes(e.filename_length),
        entry_bytes(e).subrange(20, 24) == u32_bytes(e.padding_size),
        entry_bytes(e).subrange(24, 28) == u32_bytes(e.data_size),
        entry_bytes(e).subrange(28, 32) == u32_bytes(e.width),
        entry_bytes(e).subrange(32, 36) == u32_bytes(e.height),
        entry_bytes(e).subrange(36, 40) == u32_bytes(e.unknown),
        entry_bytes(e).subrange(40, 48) == u64_bytes(e.data_checksum),
        entry_bytes(e).subrange(48, 56) == u64_bytes(e.header_checksum),
{
    lemma_bytes_len(e.entry_size, e.hash);
    lemma_bytes_len(e.filename_length, e.data_checksum);
    lemma_bytes_len(e.padding_size, e.header_checksum);
    lemma_bytes_len(e.data_size, e.hash);
    lemma_bytes_len(e.width, e.hash);
    lemma_bytes_len(e.height, e.hash);
    lemma_bytes_len(e.unknown, e.hash);
    let upto_magic = magic_bytes();
    let upto_size = upto_magic + u32_bytes(e.entry_size);
    let upto_hash = upto_size + u64_bytes(e.hash);
    let upto_name_len = upto_hash + u32_bytes(e.filename_length);
    let upto_padding = upto_name_len + u32_bytes(e.padding_size);
    let upto_data_size = upto_padding + u32_bytes(e.data_size);
    let upto_width = upto_data_size + u32_bytes(e.width);
    let upto_height = upto_width + u32_bytes(e.height);
    let upto_unknown = upto_height + u32_bytes(e.unknown);
    let upto_data_sum = upto_unknown + u64_bytes(e.data_checksum);
    let s = upto_data_sum + u64_bytes(e.header_checksum);
    lemma_split(upto_data_sum, u64_bytes(e.header_checksum));
    lemma_split(upto_unknown, u64_bytes(e.data_checksum));
    lemma_split(upto_height, u32_bytes(e.unknown));
    lemma_split(upto_width, u32_bytes(e.height));
    lemma_split(upto_data_size, u32_bytes(e.width));
    lemma_split(upto_padding, u32_bytes(e.data_size));
    lemma_split(upto_name_len, u32_bytes(e.padding_size));
    lemma_split(upto_hash, u32_bytes(e.filename_length));
    lemma_split(upto_size, u64_bytes(e.hash));
    lemma_split(upto_magic, u32_bytes(e.entry_size));
    lemma_within_prefix(s, upto_data_sum, 40, 48);
    lemma_within_prefix(s, upto_data_sum, 0, 40);
    lemma_within_prefix(s, upto_unknown, 36, 40);
    lemma_within_prefix(s, upto_unknown, 0, 36);
    lemma_within_prefix(s, upto_height, 32, 36);
    lemma_within_prefix(s, upto_height, 0, 32);
    lemma_within_prefix(s, upto_width, 28, 32);
    lemma_within_prefix(s, upto_width, 0, 28);
    lemma_within_prefix(s, upto_data_size, 24, 28);
    lemma_within_prefix(s, upto_data_size, 0, 24);
    lemma_within_prefix(s, upto_padding, 20, 24);
    lemma_within_prefix(s, upto_padding, 0, 20);
    lemma_within_prefix(s, upto_name_len, 16, 20);
    lemma_within_prefix(s, upto_name_len, 0, 16);
    lemma_within_prefix(s, upto_hash, 8, 16);
    lemma_within_prefix(s, upto_hash, 0, 8);
    lemma_within_prefix(s, upto_size, 4, 8);
    lemma_within_prefix(s, upto_size, 0, 4);
}

/// The two parts of a concatenation are its two subranges.
proof fn lemma_split(p: Seq<u8>, q: Seq<u8>)
    ensures
        (p + q).subrange(0, p.len() as int) == p,
        (p + q).subrange(p.len() as int, (p.len() + q.len()) as int) == q,
{
    assert((p + q).subrange(0, p.len() as int) =~= p);
    assert((p + q).subrange(p.len() as int, (p.len() + q.len()) as int) =~= q);
}

/// A subrange that lies within a known prefix of `s` is that prefix's subrange.
proof fn lemma_within_prefix(s: Seq<u8>, p: Seq<u8>, a: int, b: int)
    requires
        p.len() <= s.len(),
        s.subrange(0, p.len() as int) == p,
        0 <= a <= b <= p.len(),
    ensures
        s.subrange(a, b) == p.subrange(a, b),
{
    assert forall|i: int| 0 <= i < b - a implies s.subrange(a, b)[i] == p.subrange(a, b)[i] by {
        assert(s.subrange(0, p.len() as int)[a + i] == s[a + i]);
    }
    assert(s.subrange(a, b) =~= p.subrange(a, b));
}

/// Encoding an accepted entry and decoding the bytes gives the entry back.
pub proof fn lemma_entry_round_trip(e: CacheEntry)
    requires
        e.wf(),
    ensures
        parse_entry(entry_bytes(e), 0) == Ok::<CacheEntry, DecodeError>(e),
{
    let s = entry_bytes(e);
    lemma_entry_layout(e);
    lemma_read_u32_at(s, 4, e.entry_size);
    lemma_read_u64_at(s, 8, e.hash);
    lemma_read_u32_at(s, 16, e.filename_length);
    lemma_read_u32_at(s, 20, e.padding_size);
    lemma_read_u32_at(s, 24, e.data_size);
    lemma_read_u32_at(s, 28, e.width);
    lemma_read_u32_at(s, 32, e.height);
    lemma_read_u32_at(s, 36, e.unknown);
    lemma_read_u64_at(s, 40, e.data_checksum);
    lemma_read_u64_at(s, 48, e.header_checksum);
    assert(s[0] == s.subrange(0, 4)[0] && s[1] == s.subrange(0, 4)[1]);
    assert(s[2] == s.subrange(0, 4)[2] && s[3] == s.subrange(0, 4)[3]);
    assert(has_magic(s, 0));
}

} // verus!
