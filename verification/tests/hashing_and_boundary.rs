//! Tests of content hashing, the boundary computations, metadata
//! derivation, and null-byte sanitising.

use nexus_core::boundary::{count_duplicate_groups, search_entries_by_name, stats_of_entries};
use nexus_core::entry::FileEntry;
use nexus_core::hashing::ContentHasher;
use nexus_core::metadata::{get_file_attributes, MetadataExtractor, RawMetadata};
use nexus_core::text::replace_nul;

fn plain_entry(path: &str, name: &str, size: u64, is_dir: bool) -> FileEntry {
    FileEntry {
        path: path.to_string(),
        name: name.to_string(),
        extension: None,
        size,
        created: None,
        modified: None,
        accessed: None,
        is_dir,
        is_hidden: false,
        is_system: false,
        content_hash: None,
        parent: String::new(),
        drive: 'C',
    }
}

#[test]
fn test_quick_hash() {
    let hasher = ContentHasher::default();
    let data = b"Hello, World!".to_vec();
    let hash = hasher.quick_hash(&data);
    assert!(hash.is_some());
    let other = hasher.quick_hash(&b"Hello, World?".to_vec());
    assert_ne!(hash, other);
}

#[test]
fn test_quick_hash_size_gate() {
    let hasher = ContentHasher::new(4);
    assert!(hasher.quick_hash(&b"1234".to_vec()).is_some());
    assert!(hasher.quick_hash(&b"12345".to_vec()).is_none());
}

#[test]
fn test_sha256_hash() {
    let hasher = ContentHasher::default();
    let hash = hasher.sha256_hash(&b"Hello, World!".to_vec());
    assert!(hash.is_some());
    assert_eq!(hash.unwrap().len(), 64);
}

#[test]
fn test_sha256_known_value() {
    let hasher = ContentHasher::default();
    let hash = hasher.sha256_hash(&b"abc".to_vec()).unwrap();
    assert_eq!(
        hash,
        "ba7816bf8f01cfea414140de5dae2223b00361a396177a9cb410ff61f20015ad"
    );
}

#[test]
fn test_files_equal() {
    let hasher = ContentHasher::default();
    let f1 = b"Same content".to_vec();
    let f2 = b"Same content".to_vec();
    let f3 = b"Different content".to_vec();
    assert_eq!(hasher.files_equal(&f1, &f2), Some(true));
    assert_eq!(hasher.files_equal(&f1, &f3), Some(false));
}

#[test]
fn test_full_hash() {
    let hasher = ContentHasher::default();
    let data = b"abc".to_vec();
    let (quick, secure) = hasher.full_hash(&data).unwrap();
    assert_eq!(Some(quick), hasher.quick_hash(&data));
    assert_eq!(secure.len(), 64);
}

#[test]
fn test_duplicate_grouping() {
    let sizes: [u64; 6] = [100, 100, 200, 200, 200, 300];
    let entries: Vec<FileEntry> = sizes
        .iter()
        .enumerate()
        .map(|(i, s)| plain_entry(&format!("C:\\f{}", i), "f", *s, false))
        .collect();
    assert_eq!(count_duplicate_groups(&entries, 0), 2);
    // Raising the floor drops the 100-byte bucket.
    assert_eq!(count_duplicate_groups(&entries, 150), 1);
    // Directories never take part.
    let dirs: Vec<FileEntry> = vec![
        plain_entry("C:\\d1", "d1", 100, true),
        plain_entry("C:\\d2", "d2", 100, true),
    ];
    assert_eq!(count_duplicate_groups(&dirs, 0), 0);
}

#[test]
fn test_stats_of_entries() {
    let entries = vec![
        plain_entry("C:\\a", "a", 10, false),
        plain_entry("C:\\b", "b", 32, false),
        plain_entry("C:\\d", "d", 0, true),
    ];
    let stats = stats_of_entries(&entries);
    assert_eq!(stats.total_files, 2);
    assert_eq!(stats.total_dirs, 1);
    assert_eq!(stats.total_size, 42);
    assert_eq!(stats.index_time_ms, 0);
}

#[test]
fn test_search_entries_by_name() {
    let entries = vec![
        plain_entry("C:\\Report.txt", "Report.txt", 1, false),
        plain_entry("C:\\other.log", "other.log", 1, false),
        plain_entry("C:\\report2.txt", "report2.txt", 1, false),
    ];
    let hits = search_entries_by_name(&entries, "REPORT", 10);
    assert_eq!(hits.len(), 2);
    assert_eq!(hits[0].name, "Report.txt");
    assert_eq!(hits[1].name, "report2.txt");
    // The cap cuts in insertion order.
    let capped = search_entries_by_name(&entries, "report", 1);
    assert_eq!(capped.len(), 1);
    assert_eq!(capped[0].name, "Report.txt");
    let none = search_entries_by_name(&entries, "missing", 10);
    assert!(none.is_empty());
}

#[test]
fn test_replace_nul() {
    let (clean, found) = replace_nul("a\0b\0");
    assert_eq!(clean, "a_b_");
    assert!(found);
    let (same, found2) = replace_nul("plain");
    assert_eq!(same, "plain");
    assert!(!found2);
}

#[test]
fn test_extract_file_metadata() {
    let extractor = MetadataExtractor::new();
    let meta = RawMetadata {
        size: 9,
        is_dir: false,
        created: Some(100),
        modified: Some(200),
        accessed: Some(300),
        is_hidden: false,
        is_system: false,
    };
    let entry = extractor.extract("C:\\tmp\\test.txt", &meta).unwrap();
    assert_eq!(entry.name, "test.txt");
    assert_eq!(entry.extension, Some("txt".to_string()));
    assert!(!entry.is_dir);
    assert_eq!(entry.size, 9);
    assert_eq!(entry.parent, "C:\\tmp");
    assert_eq!(entry.drive, 'C');
    assert_eq!(entry.modified, Some(200));
}

#[test]
fn test_extract_dir_metadata() {
    let extractor = MetadataExtractor::new();
    let meta = RawMetadata {
        size: 0,
        is_dir: true,
        created: None,
        modified: None,
        accessed: None,
        is_hidden: false,
        is_system: false,
    };
    let entry = extractor.extract("/home/user/subdir", &meta).unwrap();
    assert_eq!(entry.name, "subdir");
    assert!(entry.extension.is_none());
    assert!(entry.is_dir);
    assert_eq!(entry.parent, "/home/user");
}

#[test]
fn test_extract_uppercase_extension_lowered() {
    let extractor = MetadataExtractor::new();
    let meta = RawMetadata {
        size: 1,
        is_dir: false,
        created: None,
        modified: None,
        accessed: None,
        is_hidden: false,
        is_system: false,
    };
    let entry = extractor.extract("C:\\A.TXT", &meta).unwrap();
    assert_eq!(entry.extension, Some("txt".to_string()));
    // A leading dot is not an extension.
    let hidden = extractor.extract("/home/.bashrc", &meta).unwrap();
    assert_eq!(hidden.extension, None);
}

#[test]
fn test_get_file_attributes() {
    assert_eq!(get_file_attributes("/home/.hidden"), (true, false));
    assert_eq!(get_file_attributes("/home/plain"), (false, false));
}
