use vstd::prelude::*;

use crate::entry::CACHE_ENTRY_SIZE;
use crate::walker::DecodedRecord;

verus! {

/// The `n` little-endian UTF-16 code units stored from `start` in `s`.
pub open spec fn utf16_units(s: Seq<u8>, start: int, n: nat) -> Seq<u16> {
    Seq::new(n, |i: int| (s[start + 2 * i] as int + s[start + 2 * i + 1] as int * 0x100) as u16)
}

/// The filename region of `r` as code units: a trailing odd byte is no unit.
pub open spec fn filename_units_of(s: Seq<u8>, r: DecodedRecord) -> Seq<u16> {
    utf16_units(s, r.offset + CACHE_ENTRY_SIZE, (r.entry.filename_length / 2) as nat)
}

/// The text that lossy UTF-16 decoding makes of `units`.
pub uninterp spec fn utf16_lossy(units: Seq<u16>) -> Seq<char>;

/// Relies on `String::from_utf16_lossy`: the text depends on the code units
/// alone, with each invalid unit replaced, so no units give no text.
#[verifier::external_body]
fn decode_utf16_lossy(units: &[u16]) -> (r: String)
    ensures
        r@ == utf16_lossy(units@),
        units@.len() == 0 ==> r@.len() == 0,
{
    String::from_utf16_lossy(units)
}

/// Reads `n` little-endian code units starting at `start`.
pub fn read_utf16_units(buf: &[u8], start: usize, n: usize) -> (r: Vec<u16>)
    requires
        start + 2 * n <= buf@.len(),
    ensures
        r@ == utf16_units(buf@, start as int, n as nat),
{
    assert(buf@.len() == buf.len());
    let mut out: Vec<u16> = Vec::new();
    let mut i: usize = 0;
    while i < n
        invariant
            i <= n,
            start + 2 * n <= buf@.len() <= usize::MAX,
            out@ == utf16_units(buf@, start as int, i as nat),
        decreases n - i,
    {
        let at = start + 2 * i;
        let unit = buf[at] as u16 + buf[at + 1] as u16 * 0x100;
        out.push(unit);
        i = i + 1;
        assert(out@ =~= utf16_units(buf@, start as int, i as nat));
    }
    out
}

/// The filename of a record's entry, decoded lossily from UTF-16, or `None`
/// when the filename region does not lie inside `buf`.
pub fn filename(buf: &[u8], record: &DecodedRecord) -> (r: Option<String>)
    ensures
        r is Some <==> record.offset + CACHE_ENTRY_SIZE + record.entry.filename_length
            <= buf@.len(),
        r matches Some(t) ==> t@ == utf16_lossy(filename_units_of(buf@, *record)),
{
    if record.offset > buf.len() || buf.len() - record.offset < CACHE_ENTRY_SIZE {
        return None;
    }
    let start = record.offset + CACHE_ENTRY_SIZE;
    if buf.len() - start < record.entry.filename_length as usize {
        return None;
    }
    let units = read_utf16_units(buf, start, (record.entry.filename_length / 2) as usize);
    Some(decode_utf16_lossy(units.as_slice()))
}

} // verus!
