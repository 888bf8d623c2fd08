//! Core of a fast local file indexing and search engine.
//!
//! The crate enumerates files on NTFS volumes by parsing change-journal
//! record buffers, reconstructs absolute paths from file-reference parent
//! chains, applies an inclusion policy, and answers name and path queries
//! over a persistent index.

use vstd::prelude::*;

pub mod boundary;
pub mod entry;
pub mod entry_map;
pub mod errors;
pub mod hashing;
pub mod indexer;
pub mod metadata;
pub mod mft;
pub mod refs;
pub mod search;
pub mod text;
pub mod usn;
pub mod watch;

pub use entry::FileEntry;
pub use errors::NexusError;
pub use indexer::{FastIndexer, IndexConfig, IndexStats};
pub use search::{SearchEngine, SearchQuery, SearchResult};
pub use watch::{WatchEvent, WatchEventKind};

verus! {

/// Mask selecting the low 48 bits of an NTFS file reference; the high
/// 16 bits are a sequence counter and are ignored when keying records.
pub const FILE_REF_MASK: u64 = 0x0000FFFFFFFFFFFF;

/// Strip the sequence counter from a file reference, leaving the
/// 48-bit record index used as a key everywhere in this crate.
pub fn mask_file_reference(r: u64) -> (m: u64)
    ensures
        m == r & FILE_REF_MASK,
{
    r & FILE_REF_MASK
}

} // verus!
