use thumbcache::entry::CACHE_ENTRY_SIZE;
use thumbcache::{
    decode_entry, decode_header, filename, next_step, read_header, walk, CacheEntry, CacheType,
    DecodeError, FileType, Step, WalkEnd,
};

fn header_bytes(cache_type: u32, first_entry_offset: u32) -> Vec<u8> {
    let mut out = vec![0x43, 0x4D, 0x4D, 0x4D];
    for x in [1u32, cache_type, 0, first_entry_offset, first_entry_offset] {
        out.extend_from_slice(&x.to_le_bytes());
    }
    out
}

fn entry(entry_size: u32, filename_length: u32, padding_size: u32, data_size: u32) -> CacheEntry {
    CacheEntry {
        entry_size,
        hash: 0x0123_4567_89AB_CDEF,
        filename_length,
        padding_size,
        data_size,
        width: 256,
        height: 192,
        unknown: 7,
        data_checksum: 0x1111_2222_3333_4444,
        header_checksum: 0x5555_6666_7777_8888,
    }
}

/// Appends an entry, its filename "a.jp" in UTF-16, `padding` zero bytes and its payload.
fn push_entry(buf: &mut Vec<u8>, e: &CacheEntry, payload: &[u8]) {
    buf.extend_from_slice(&e.to_bytes());
    let name: Vec<u8> = "a.jp".encode_utf16().flat_map(|u| u.to_le_bytes()).collect();
    buf.extend_from_slice(&name[..e.filename_length as usize]);
    buf.extend(std::iter::repeat(0u8).take(e.padding_size as usize));
    buf.extend_from_slice(payload);
}

fn scenario_db(data_size: u32, payload: &[u8]) -> Vec<u8> {
    let mut buf = header_bytes(6, 24);
    push_entry(&mut buf, &entry(80, 8, 0, data_size), payload);
    buf
}

#[test]
fn one_jpeg_entry_then_done() {
    let buf = scenario_db(4, &[0xFF, 0xD8, 0xFF, 0xD8]);
    let out = walk(&buf);
    assert_eq!(out.records.len(), 1);
    let r = out.records[0];
    assert_eq!(r.offset, 24);
    assert_eq!(r.classification, Some(FileType::JPEG));
    assert_eq!(r.data_start, 24 + CACHE_ENTRY_SIZE + 8);
    assert_eq!(r.data_end, r.data_start + 4);
    assert_eq!(r.payload(&buf), Some(&[0xFF, 0xD8, 0xFF, 0xD8][..]));
    assert_eq!(r.payload(&buf[..90]), None);
    assert_eq!(r.entry.hash, 0x0123_4567_89AB_CDEF);
    assert_eq!(r.entry.width, 256);
    assert_eq!(r.entry.height, 192);
    assert_eq!(r.entry.data_size, 4);
    assert_eq!(out.end, WalkEnd::Done);
}

#[test]
fn empty_payload_entry_ends_walk() {
    let buf = scenario_db(0, &[]);
    let out = walk(&buf);
    assert_eq!(out.records.len(), 0);
    assert_eq!(out.end, WalkEnd::Done);
}

#[test]
fn corrupted_entry_magic_fails_at_its_offset() {
    let mut buf = scenario_db(4, &[0xFF, 0xD8, 0xFF, 0xD8]);
    buf[24] = 0x00;
    let out = walk(&buf);
    assert_eq!(out.records.len(), 0);
    assert_eq!(out.end, WalkEnd::Failed { error: DecodeError::BadMagic, offset: 24 });
}

#[test]
fn entry_round_trip() {
    let e = entry(0xFFFF_FFFF, 0xFFFF_FFFE, 0x8000_0001, 3);
    let bytes = e.to_bytes();
    assert_eq!(bytes.len(), CACHE_ENTRY_SIZE);
    assert_eq!(&bytes[0..4], b"CMMM");
    assert_eq!(&bytes[4..8], &[0xFF, 0xFF, 0xFF, 0xFF]);
    assert_eq!(&bytes[8..16], &[0xEF, 0xCD, 0xAB, 0x89, 0x67, 0x45, 0x23, 0x01]);
    assert_eq!(decode_entry(&bytes, 0), Ok(e));
}

#[test]
fn entry_round_trip_at_offset() {
    let e = entry(100, 0, 0, 0);
    let mut buf = vec![9u8; 5];
    buf.extend_from_slice(&e.to_bytes());
    assert_eq!(decode_entry(&buf, 5), Ok(e));
}

#[test]
fn entry_errors() {
    let good = entry(80, 8, 0, 4).to_bytes();
    assert_eq!(decode_entry(&good[..55], 0), Err(DecodeError::TooShort));
    assert_eq!(decode_entry(&good, 1), Err(DecodeError::TooShort));
    assert_eq!(decode_entry(&good, usize::MAX), Err(DecodeError::TooShort));
    let mut bad = good.clone();
    bad[3] = 0x4E;
    assert_eq!(decode_entry(&bad, 0), Err(DecodeError::BadMagic));
    let zero = entry(0, 8, 0, 4).to_bytes();
    assert_eq!(decode_entry(&zero, 0), Err(DecodeError::ZeroSizedEntry));
    let odd = entry(80, 7, 0, 4).to_bytes();
    assert_eq!(decode_entry(&odd, 0), Err(DecodeError::MalformedFilename));
}

#[test]
fn header_decoding() {
    let buf = header_bytes(6, 24);
    let h = decode_header(&buf).unwrap();
    assert_eq!(h.version, 1);
    assert_eq!(h.cache_type, 6);
    assert_eq!(h.first_entry_offset, 24);
    assert_eq!(h.available_entry_offset, 24);
    assert_eq!(h.kind(), Some(CacheType::Size1280x1280));
}

#[test]
fn header_errors() {
    let buf = header_bytes(6, 24);
    assert_eq!(decode_header(&buf[..23]), Err(DecodeError::TooShort));
    let mut bad = buf.clone();
    bad[0] = 0x44;
    assert_eq!(decode_header(&bad), Err(DecodeError::BadMagic));
    assert_eq!(decode_header(&header_bytes(6, 23)), Err(DecodeError::OffsetOutOfRange));
    assert_eq!(decode_header(&header_bytes(6, 25)), Err(DecodeError::OffsetOutOfRange));
    assert_eq!(decode_header(&header_bytes(14, 24)), Err(DecodeError::UnknownCacheType));
    assert_eq!(read_header(&header_bytes(14, 24)).unwrap().cache_type, 14);
}

#[test]
fn cache_type_codes() {
    assert_eq!(CacheType::from_code(0), Some(CacheType::Size16x16));
    assert_eq!(CacheType::from_code(0xA), Some(CacheType::Wide));
    assert_eq!(CacheType::from_code(0xD), Some(CacheType::CustomStream));
    assert_eq!(CacheType::from_code(0xE), None);
    assert_eq!(CacheType::from_code(u32::MAX), None);
}

#[test]
fn unknown_cache_type_does_not_stop_walk() {
    let mut buf = header_bytes(99, 24);
    push_entry(&mut buf, &entry(80, 8, 0, 4), &[0x42, 0x4D, 0, 0]);
    let out = walk(&buf);
    assert_eq!(out.records.len(), 1);
    assert_eq!(out.records[0].classification, Some(FileType::BMP));
    assert_eq!(out.end, WalkEnd::Done);
}

#[test]
fn bad_header_fails_at_zero() {
    let out = walk(&[0x43, 0x4D, 0x4D]);
    assert_eq!(out.records.len(), 0);
    assert_eq!(out.end, WalkEnd::Failed { error: DecodeError::TooShort, offset: 0 });
}

#[test]
fn several_entries_in_order() {
    let mut buf = header_bytes(4, 24);
    let first = entry(56 + 4 + 2 + 8, 4, 2, 8);
    push_entry(&mut buf, &first, &[0x89, 0x50, 0x4E, 0x47, 0x0D, 0x0A, 0x1A, 0x0A]);
    let second = entry(56 + 0 + 0 + 3, 0, 0, 3);
    push_entry(&mut buf, &second, &[1, 2, 3]);
    let sentinel = entry(56, 0, 0, 0);
    push_entry(&mut buf, &sentinel, &[]);
    let after = entry(56 + 4, 0, 0, 4);
    push_entry(&mut buf, &after, &[0xFF, 0xD8, 0xFF, 0xD8]);
    let out = walk(&buf);
    assert_eq!(out.records.len(), 2);
    assert_eq!(out.records[0].offset, 24);
    assert_eq!(out.records[0].classification, Some(FileType::PNG));
    assert_eq!(out.records[0].data_start, 24 + 56 + 4 + 2);
    assert_eq!(out.records[1].offset, 24 + 70);
    assert_eq!(out.records[1].classification, None);
    assert_eq!(out.end, WalkEnd::Done);
}

#[test]
fn failure_after_records_keeps_them() {
    let mut buf = header_bytes(6, 24);
    push_entry(&mut buf, &entry(64, 0, 0, 8), b"GIF89a!!");
    push_entry(&mut buf, &entry(0, 0, 0, 8), b"GIF89a!!");
    let out = walk(&buf);
    assert_eq!(out.records.len(), 1);
    assert_eq!(out.records[0].classification, Some(FileType::GIF));
    assert_eq!(out.end, WalkEnd::Failed { error: DecodeError::ZeroSizedEntry, offset: 88 });
}

#[test]
fn oversized_regions_are_rejected() {
    let mut buf = header_bytes(6, 24);
    push_entry(&mut buf, &entry(80, 0, 0, 4), &[0, 0, 0, 0]);
    let len = buf.len();
    for (fl, pad, ds) in [
        (0xFFFF_FFFE, 0, 4),
        (0, 0xFFFF_FFFF, 4),
        (0, 0, 0xFFFF_FFFF),
        (0, 1, 4),
        (0, 0, 5),
    ] {
        let mut b = buf.clone();
        b[24..24 + CACHE_ENTRY_SIZE].copy_from_slice(&entry(80, fl, pad, ds).to_bytes());
        assert_eq!(b.len(), len);
        assert_eq!(next_step(&b, 24), Step::Failed(DecodeError::OffsetOutOfRange));
        let out = walk(&b);
        assert_eq!(out.records.len(), 0);
        assert_eq!(out.end, WalkEnd::Failed { error: DecodeError::OffsetOutOfRange, offset: 24 });
    }
}

#[test]
fn sentinel_with_out_of_range_padding_fails() {
    let mut buf = header_bytes(6, 24);
    push_entry(&mut buf, &entry(80, 0, 0, 0), &[]);
    buf[24 + 20] = 1;
    assert_eq!(walk(&buf).end, WalkEnd::Failed { error: DecodeError::OffsetOutOfRange, offset: 24 });
}

#[test]
fn step_past_end_is_done() {
    let buf = scenario_db(4, &[0xFF, 0xD8, 0xFF, 0xD8]);
    assert_eq!(next_step(&buf, buf.len()), Step::Done);
    assert_eq!(next_step(&buf, usize::MAX), Step::Done);
    match next_step(&buf, 24) {
        Step::Emit { record, next_offset } => {
            assert_eq!(next_offset, 104);
            assert_eq!(record.classification, Some(FileType::JPEG));
        }
        other => panic!("unexpected step {:?}", other),
    }
}

#[test]
fn header_at_end_of_buffer_yields_nothing() {
    let buf = header_bytes(6, 24);
    let out = walk(&buf);
    assert_eq!(out.records.len(), 0);
    assert_eq!(out.end, WalkEnd::Done);
}

#[test]
fn filename_is_decoded_from_utf16() {
    let buf = scenario_db(4, &[0xFF, 0xD8, 0xFF, 0xD8]);
    let out = walk(&buf);
    assert_eq!(filename(&buf, &out.records[0]), Some("a.jp".to_string()));
}

#[test]
fn filename_with_unpaired_surrogate_is_lossy() {
    let mut buf = header_bytes(6, 24);
    push_entry(&mut buf, &entry(80, 4, 0, 4), &[0x42, 0x4D, 0, 0]);
    buf[80] = 0x00;
    buf[81] = 0xD8;
    let out = walk(&buf);
    assert_eq!(out.records.len(), 1);
    assert_eq!(filename(&buf, &out.records[0]), Some("\u{FFFD}.".to_string()));
}

#[test]
fn filename_outside_buffer_is_none() {
    let buf = scenario_db(4, &[0xFF, 0xD8, 0xFF, 0xD8]);
    let record = walk(&buf).records[0];
    assert_eq!(filename(&buf[..85], &record), None);
    assert_eq!(filename(&buf[..88], &record), Some("a.jp".to_string()));
}
