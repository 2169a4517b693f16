use vstd::prelude::*;

verus! {

/// Why a header or an entry could not be decoded.
#[derive(Debug, PartialEq, Eq, Structural, Clone, Copy)]
pub enum DecodeError {
    /// The buffer ends inside a fixed-size record.
    TooShort,
    /// A header or entry does not start with the database signature.
    BadMagic,
    /// The header's cache type is outside the known enumeration.
    UnknownCacheType,
    /// A computed region leaves the buffer, or its end overflows.
    OffsetOutOfRange,
    /// An entry declares a total size of zero.
    ZeroSizedEntry,
    /// An entry's UTF-16 filename has an odd byte length.
    MalformedFilename,
}

} // verus!
