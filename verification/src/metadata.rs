//! Deriving complete file entries from a path and the plain metadata
//! values read for it. The filesystem calls that obtain those values
//! live outside the core.

use vstd::prelude::*;
use crate::entry::{
    FileEntry, drive_of, entry_well_formed, extension_of, file_name_of, parent_of, spec_drive,
    spec_extension, spec_file_name, spec_parent,
};
use crate::entry::{last_sep, lemma_last_dot, lemma_last_sep};
use crate::text::str_to_chars;

verus! {

/// The plain values filesystem metadata supplies for one path.
pub struct RawMetadata {
    /// Size in bytes.
    pub size: u64,
    /// The path names a directory.
    pub is_dir: bool,
    /// Creation time in seconds since the UNIX epoch.
    pub created: Option<i64>,
    /// Modification time in seconds since the UNIX epoch.
    pub modified: Option<i64>,
    /// Access time in seconds since the UNIX epoch.
    pub accessed: Option<i64>,
    /// The hidden attribute.
    pub is_hidden: bool,
    /// The system attribute.
    pub is_system: bool,
}

/// Builds file entries from paths and their metadata.
pub struct MetadataExtractor {
    /// Whether symbolic links are followed when metadata is read.
    pub follow_symlinks: bool,
}

impl MetadataExtractor {
    /// An extractor that does not follow symbolic links.
    pub fn new() -> (e: Self)
        ensures
            !e.follow_symlinks,
    {
        MetadataExtractor { follow_symlinks: false }
    }

    /// Build the entry for `path` from its metadata. A path without a
    /// final component yields nothing.
    pub fn extract(&self, path: &str, meta: &RawMetadata) -> (r: Option<FileEntry>)
        ensures
            match r {
                None => spec_file_name(path@).len() == 0,
                Some(e) => {
                    &&& spec_file_name(path@).len() > 0
                    &&& e@.path == path@
                    &&& e@.name == spec_file_name(path@)
                    &&& e@.extension == (if meta.is_dir {
                        None::<Seq<char>>
                    } else {
                        spec_extension(spec_file_name(path@))
                    })
                    &&& e@.size == meta.size
                    &&& e@.created == meta.created
                    &&& e@.modified == meta.modified
                    &&& e@.accessed == meta.accessed
                    &&& e@.is_dir == meta.is_dir
                    &&& e@.is_hidden == meta.is_hidden
                    &&& e@.is_system == meta.is_system
                    &&& e@.content_hash is None
                    &&& e@.parent == spec_parent(path@)
                    &&& e@.drive == spec_drive(path@)
                    &&& entry_well_formed(e@)
                },
            },
    {
        let name = file_name_of(path);
        if name.as_str().is_empty() {
            return None;
        }
        let extension: Option<String> = if meta.is_dir {
            None
        } else {
            extension_of(name.as_str())
        };
        let parent = parent_of(path);
        let drive = drive_of(path);
        let entry = FileEntry {
            path: String::from_str(path),
            name,
            extension,
            size: meta.size,
            created: meta.created,
            modified: meta.modified,
            accessed: meta.accessed,
            is_dir: meta.is_dir,
            is_hidden: meta.is_hidden,
            is_system: meta.is_system,
            content_hash: None,
            parent,
            drive,
        };
        proof {
            lemma_last_sep(path@);
            lemma_last_dot(spec_file_name(path@));
            assert(entry@.parent == spec_parent(path@));
            if last_sep(path@) >= 0 {
                assert(spec_parent(path@) == path@.subrange(0, last_sep(path@)));
                assert(path@.subrange(0, last_sep(path@)) =~= path@.subrange(
                    0,
                    spec_parent(path@).len() as int,
                ));
            } else {
                assert(spec_parent(path@) =~= Seq::<char>::empty());
                assert(path@.subrange(0, 0) =~= Seq::<char>::empty());
            }
            assert(entry_well_formed(entry@));
        }
        Some(entry)
    }
}

impl Default for MetadataExtractor {
    /// The default extractor does not follow symbolic links.
    fn default() -> (e: Self)
        ensures
            !e.follow_symlinks,
    {
        MetadataExtractor::new()
    }
}

/// Attributes derived from a path alone, as the fallback walker uses
/// them: an entry is hidden when its final component starts with a
/// dot; nothing is marked system.
pub fn get_file_attributes(path: &str) -> (r: (bool, bool))
    ensures
        r.0 == (spec_file_name(path@).len() > 0 && spec_file_name(path@)[0] == '.'),
        r.1 == false,
{
    let name = file_name_of(path);
    let cs = str_to_chars(name.as_str());
    if cs.len() > 0 && cs[0] == '.' {
        (true, false)
    } else {
        (false, false)
    }
}

} // verus!
