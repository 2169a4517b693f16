use vstd::prelude::*;

verus! {

/// The image encodings that the signature table recognises.
#[derive(Debug, PartialEq, Eq, Structural, Clone, Copy)]
pub enum FileType {
    JPEG,
    PNG,
    BMP,
    GIF,
}

/// One row of the signature table: an encoding, the file extension used for
/// it, and the leading bytes that identify it.
pub struct FileIdentification {
    pub file_type: FileType,
    pub file_extension: &'static str,
    pub file_header: Vec<u8>,
}

/// Number of rows in the signature table.
pub const SIGNATURE_COUNT: usize = 7;

/// At most this many leading bytes of a payload are examined.
pub const MAX_HEADER_LENGTH: usize = 128;

/// The encoding named by row `k` of the signature table.
pub open spec fn signature_kind(k: int) -> FileType {
    if k < 3 {
        FileType::JPEG
    } else if k == 3 {
        FileType::BMP
    } else if k == 4 {
        FileType::PNG
    } else {
        FileType::GIF
    }
}

/// The identifying bytes of row `k` of the signature table, in priority order.
pub open spec fn signature_bytes(k: int) -> Seq<u8> {
    if k == 0 {
        seq![0xFFu8, 0xD8, 0xFF, 0xD8]
    } else if k == 1 {
        seq![0xFFu8, 0xD8, 0xFF, 0xEE]
    } else if k == 2 {
        seq![0xFFu8, 0xD8, 0xFF, 0xE0, 0x00, 0x10, 0x4A, 0x46, 0x49, 0x46, 0x00, 0x01]
    } else if k == 3 {
        seq![0x42u8, 0x4D]
    } else if k == 4 {
        seq![0x89u8, 0x50, 0x4E, 0x47, 0x0D, 0x0A, 0x1A, 0x0A]
    } else if k == 5 {
        seq![0x47u8, 0x49, 0x46, 0x38, 0x37, 0x61]
    } else {
        seq![0x47u8, 0x49, 0x46, 0x38, 0x39, 0x61]
    }
}

/// The file extension conventionally used for an encoding.
pub open spec fn extension_of(t: FileType) -> Seq<char> {
    match t {
        FileType::JPEG => seq!['j', 'p', 'g'],
        FileType::PNG => seq!['p', 'n', 'g'],
        FileType::BMP => seq!['b', 'm', 'p'],
        FileType::GIF => seq!['g', 'i', 'f'],
    }
}

/// The part of a payload that the matcher looks at.
pub open spec fn scan_window(data: Seq<u8>) -> Seq<u8> {
    if data.len() > MAX_HEADER_LENGTH {
        data.take(MAX_HEADER_LENGTH as int)
    } else {
        data
    }
}

pub open spec fn is_prefix_of(p: Seq<u8>, s: Seq<u8>) -> bool {
    p.len() <= s.len() && s.take(p.len() as int) == p
}

/// Row `k` of the table matches the payload `data`.
pub open spec fn signature_matches(data: Seq<u8>, k: int) -> bool {
    is_prefix_of(signature_bytes(k), scan_window(data))
}

/// The first row at or after `k` whose signature matches `data`.
pub open spec fn first_match_from(data: Seq<u8>, k: int) -> Option<int>
    decreases SIGNATURE_COUNT - k,
{
    if k < 0 || k >= SIGNATURE_COUNT {
        None
    } else if signature_matches(data, k) {
        Some(k)
    } else {
        first_match_from(data, k + 1)
    }
}

/// The row of the table that classifies `data`, if any.
pub open spec fn first_match(data: Seq<u8>) -> Option<int> {
    first_match_from(data, 0)
}

/// The encoding that `data` is classified as, or `None` when unidentified.
pub open spec fn classify(data: Seq<u8>) -> Option<FileType> {
    match first_match(data) {
        Some(k) => Some(signature_kind(k)),
        None => None,
    }
}

impl FileIdentification {
    /// This identification is row `k` of the signature table.
    pub open spec fn is_row(&self, k: int) -> bool {
        &&& self.file_type == signature_kind(k)
        &&& self.file_header@ == signature_bytes(k)
        &&& self.file_extension@ == extension_of(signature_kind(k))
    }
}

/// Builds row `k` of the signature table.
fn signature_row(k: usize) -> (r: FileIdentification)
    requires
        k < SIGNATURE_COUNT,
    ensures
        r.is_row(k as int),
{
    proof {
        reveal_strlit("jpg");
        reveal_strlit("bmp");
        reveal_strlit("png");
        reveal_strlit("gif");
    }
    let r = if k == 0 {
        FileIdentification {
            file_type: FileType::JPEG,
            file_extension: "jpg",
            file_header: vec![0xFFu8, 0xD8, 0xFF, 0xD8],
        }
    } else if k == 1 {
        FileIdentification {
            file_type: FileType::JPEG,
            file_extension: "jpg",
            file_header: vec![0xFFu8, 0xD8, 0xFF, 0xEE],
        }
    } else if k == 2 {
        FileIdentification {
            file_type: FileType::JPEG,
            file_extension: "jpg",
            file_header: vec![0xFFu8, 0xD8, 0xFF, 0xE0, 0x00, 0x10, 0x4A, 0x46, 0x49, 0x46, 0x00, 0x01],
        }
    } else if k == 3 {
        FileIdentification {
            file_type: FileType::BMP,
            file_extension: "bmp",
            file_header: vec![0x42u8, 0x4D],
        }
    } else if k == 4 {
        FileIdentification {
            file_type: FileType::PNG,
            file_extension: "png",
            file_header: vec![0x89u8, 0x50, 0x4E, 0x47, 0x0D, 0x0A, 0x1A, 0x0A],
        }
    } else if k == 5 {
        FileIdentification {
            file_type: FileType::GIF,
            file_extension: "gif",
            file_header: vec![0x47u8, 0x49, 0x46, 0x38, 0x37, 0x61],
        }
    } else {
        FileIdentification {
            file_type: FileType::GIF,
            file_extension: "gif",
            file_header: vec![0x47u8, 0x49, 0x46, 0x38, 0x39, 0x61],
        }
    };
    assert(r.file_header@ =~= signature_bytes(k as int));
    assert(r.file_extension@ =~= extension_of(signature_kind(k as int)));
    r
}

/// Whether `sig` is a prefix of the first `limit` bytes of `data`.
fn starts_with_within(data: &[u8], limit: usize, sig: &Vec<u8>) -> (r: bool)
    requires
        limit <= data@.len(),
    ensures
        r == is_prefix_of(sig@, data@.take(limit as int)),
{
    if sig.len() > limit {
        return false;
    }
    let mut j: usize = 0;
    while j < sig.len()
        invariant
            sig@.len() <= limit <= data@.len(),
            j <= sig@.len(),
            forall|i: int| 0 <= i < j ==> data@[i] == sig@[i],
        decreases sig@.len() - j,
    {
        if data[j] != sig[j] {
            assert(data@.take(limit as int).take(sig@.len() as int)[j as int] != sig@[j as int]);
            return false;
        }
        j = j + 1;
    }
    assert(data@.take(limit as int).take(sig@.len() as int) =~= sig@);
    true
}

/// Classifies a payload by its leading bytes: the first row of the signature
/// table whose bytes are a prefix of the payload's first 128 bytes.
pub fn determine_file_type(header: &[u8]) -> (r: Option<FileIdentification>)
    ensures
        match first_match(header@) {
            Some(k) => r is Some && r->Some_0.is_row(k),
            None => r is None,
        },
{
    let limit: usize = if header.len() > MAX_HEADER_LENGTH {
        MAX_HEADER_LENGTH
    } else {
        header.len()
    };
    assert(scan_window(header@) =~= header@.take(limit as int));
    let mut k: usize = 0;
    while k < SIGNATURE_COUNT
        invariant
            k <= SIGNATURE_COUNT,
            limit <= header@.len(),
            scan_window(header@) == header@.take(limit as int),
            first_match(header@) == first_match_from(header@, k as int),
        decreases SIGNATURE_COUNT - k,
    {
        let row = signature_row(k);
        if starts_with_within(header, limit, &row.file_header) {
            return Some(row);
        }
        k = k + 1;
    }
    None
}

/// A payload that starts with `FF D8 FF D8` is classified as JPEG by the
/// first row of the table, whatever follows.
pub proof fn lemma_jpeg_marker_first(data: Seq<u8>)
    requires
        data.len() >= 4,
        data[0] == 0xFF,
        data[1] == 0xD8,
        data[2] == 0xFF,
        data[3] == 0xD8,
    ensures
        first_match(data) == Some(0int),
        classify(data) == Some(FileType::JPEG),
{
    assert(scan_window(data).take(4) =~= signature_bytes(0));
}

/// A payload shorter than a row's signature never matches that row, so one
/// shorter than every signature is unidentified.
pub proof fn lemma_short_payload_unidentified(data: Seq<u8>)
    ensures
        forall|k: int|
            0 <= k < SIGNATURE_COUNT && data.len() < (#[trigger] signature_bytes(k)).len()
                ==> !signature_matches(data, k),
        data.len() < 2 ==> classify(data) is None,
{
    reveal_with_fuel(first_match_from, 8);
}

} // verus!
