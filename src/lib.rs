//! Decoding of thumbnail cache databases: a fixed header, a chain of
//! self-describing entries, and content sniffing of each entry's payload.

pub mod bytes;
pub mod entry;
pub mod error;
pub mod file_identification;
pub mod filename;
pub mod header;
pub mod walker;

pub use entry::{decode_entry, CacheEntry};
pub use error::DecodeError;
pub use filename::filename;
pub use file_identification::{determine_file_type, FileIdentification, FileType};
pub use header::{decode_header, read_header, CacheType, DatabaseHeader};
pub use walker::{next_step, walk, walk_entries, DecodedRecord, Step, WalkEnd, WalkOutcome};
