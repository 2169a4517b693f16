use vstd::prelude::*;

use crate::bytes::{read_u32_le, u32_le};
use crate::error::DecodeError;

verus! {

/// Size in bytes of the database header.
pub const DATABASE_HEADER_SIZE: usize = 24;

/// The four bytes ("CMMM") that open the database header and every entry.
pub open spec fn has_magic(s: Seq<u8>, at: int) -> bool {
    &&& s[at] == 0x43
    &&& s[at + 1] == 0x4D
    &&& s[at + 2] == 0x4D
    &&& s[at + 3] == 0x4D
}

/// Whether the four bytes at `at` are the database signature.
pub fn check_magic(buf: &[u8], at: usize) -> (r: bool)
    requires
        at + 4 <= buf@.len(),
    ensures
        r == has_magic(buf@, at as int),
{
    buf[at] == 0x43 && buf[at + 1] == 0x4D && buf[at + 2] == 0x4D && buf[at + 3] == 0x4D
}

/// The header at the start of a database. Its signature is not stored: every
/// decoded header carries the database signature.
#[derive(Debug, PartialEq, Eq, Structural, Clone, Copy)]
pub struct DatabaseHeader {
    pub version: u32,
    pub cache_type: u32,
    pub unknown: u32,
    pub first_entry_offset: u32,
    pub available_entry_offset: u32,
}

/// The thumbnail size or variant class that a database holds.
#[derive(Debug, PartialEq, Eq, Structural, Clone, Copy)]
pub enum CacheType {
    Size16x16,
    Size32x32,
    Size48x48,
    Size96x96,
    Size256x256,
    Size768x768,
    Size1280x1280,
    Size1920x1920,
    Size2560x2560,
    Sr,
    Wide,
    Exif,
    WideAlternate,
    CustomStream,
}

/// The numeric code of each cache type in the header.
pub open spec fn cache_type_code(t: CacheType) -> u32 {
    match t {
        CacheType::Size16x16 => 0x0,
        CacheType::Size32x32 => 0x1,
        CacheType::Size48x48 => 0x2,
        CacheType::Size96x96 => 0x3,
        CacheType::Size256x256 => 0x4,
        CacheType::Size768x768 => 0x5,
        CacheType::Size1280x1280 => 0x6,
        CacheType::Size1920x1920 => 0x7,
        CacheType::Size2560x2560 => 0x8,
        CacheType::Sr => 0x9,
        CacheType::Wide => 0xA,
        CacheType::Exif => 0xB,
        CacheType::WideAlternate => 0xC,
        CacheType::CustomStream => 0xD,
    }
}

/// Codes up to this one name a cache type.
pub const LAST_CACHE_TYPE_CODE: u32 = 0xD;

impl CacheType {
    /// The cache type with the given code, or `None` for an unrecognised code.
    pub fn from_code(value: u32) -> (r: Option<CacheType>)
        ensures
            r is Some <==> value <= LAST_CACHE_TYPE_CODE,
            r matches Some(t) ==> cache_type_code(t) == value,
    {
        match value {
            0x0 => Some(CacheType::Size16x16),
            0x1 => Some(CacheType::Size32x32),
            0x2 => Some(CacheType::Size48x48),
            0x3 => Some(CacheType::Size96x96),
            0x4 => Some(CacheType::Size256x256),
            0x5 => Some(CacheType::Size768x768),
            0x6 => Some(CacheType::Size1280x1280),
            0x7 => Some(CacheType::Size1920x1920),
            0x8 => Some(CacheType::Size2560x2560),
            0x9 => Some(CacheType::Sr),
            0xA => Some(CacheType::Wide),
            0xB => Some(CacheType::Exif),
            0xC => Some(CacheType::WideAlternate),
            0xD => Some(CacheType::CustomStream),
            _ => None,
        }
    }
}

/// The header fields stored in the first bytes of `s`.
pub open spec fn header_fields(s: Seq<u8>) -> DatabaseHeader {
    DatabaseHeader {
        version: u32_le(s, 4) as u32,
        cache_type: u32_le(s, 8) as u32,
        unknown: u32_le(s, 12) as u32,
        first_entry_offset: u32_le(s, 16) as u32,
        available_entry_offset: u32_le(s, 20) as u32,
    }
}

/// The header as far as traversal needs it: long enough, signed, and with a
/// first entry offset between the end of the header and the end of the buffer.
/// The cache type is not examined.
pub open spec fn parse_header_layout(s: Seq<u8>) -> Result<DatabaseHeader, DecodeError> {
    if s.len() < DATABASE_HEADER_SIZE {
        Err(DecodeError::TooShort)
    } else if !has_magic(s, 0) {
        Err(DecodeError::BadMagic)
    } else if u32_le(s, 16) < DATABASE_HEADER_SIZE || u32_le(s, 16) > s.len() {
        Err(DecodeError::OffsetOutOfRange)
    } else {
        Ok(header_fields(s))
    }
}

/// The header with every check, the cache type included.
pub open spec fn parse_header(s: Seq<u8>) -> Result<DatabaseHeader, DecodeError> {
    match parse_header_layout(s) {
        Ok(h) => if h.cache_type > LAST_CACHE_TYPE_CODE {
            Err(DecodeError::UnknownCacheType)
        } else {
            Ok(h)
        },
        Err(e) => Err(e),
    }
}

/// Decodes the header without judging its cache type, which is informational:
/// an unknown one does not keep the entries from being walked.
pub fn read_header(buf: &[u8]) -> (r: Result<DatabaseHeader, DecodeError>)
    ensures
        r == parse_header_layout(buf@),
{
    if buf.len() < DATABASE_HEADER_SIZE {
        return Err(DecodeError::TooShort);
    }
    if !check_magic(buf, 0) {
        return Err(DecodeError::BadMagic);
    }
    let first_entry_offset = read_u32_le(buf, 16);
    if (first_entry_offset as usize) < DATABASE_HEADER_SIZE || first_entry_offset as usize
        > buf.len() {
        return Err(DecodeError::OffsetOutOfRange);
    }
    Ok(
        DatabaseHeader {
            version: read_u32_le(buf, 4),
            cache_type: read_u32_le(buf, 8),
            unknown: read_u32_le(buf, 12),
            first_entry_offset,
            available_entry_offset: read_u32_le(buf, 20),
        },
    )
}

/// Decodes and validates the header, reporting an unknown cache type as
/// `UnknownCacheType`.
pub fn decode_header(buf: &[u8]) -> (r: Result<DatabaseHeader, DecodeError>)
    ensures
        r == parse_header(buf@),
{
    match read_header(buf) {
        Ok(h) => {
            if CacheType::from_code(h.cache_type).is_none() {
                Err(DecodeError::UnknownCacheType)
            } else {
                Ok(h)
            }
        },
        Err(e) => Err(e),
    }
}

impl DatabaseHeader {
    /// The named cache type of this header, or `None` when its code is unknown.
    pub fn kind(&self) -> (r: Option<CacheType>)
        ensures
            r is Some <==> self.cache_type <= LAST_CACHE_TYPE_CODE,
            r matches Some(t) ==> cache_type_code(t) == self.cache_type,
    {
        CacheType::from_code(self.cache_type)
    }
}

} // verus!
