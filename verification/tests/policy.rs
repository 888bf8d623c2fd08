//! Tests of the indexer configuration, the inclusion policy, the
//! merge with statistics, and size formatting.

use nexus_core::entry::{format_size, FileEntry};
use nexus_core::indexer::{DriveScan, FastIndexer, IndexConfig};

fn plain_entry(path: &str, name: &str, ext: Option<&str>, size: u64, is_dir: bool) -> FileEntry {
    FileEntry {
        path: path.to_string(),
        name: name.to_string(),
        extension: ext.map(|e| e.to_string()),
        size,
        created: None,
        modified: None,
        accessed: None,
        is_dir,
        is_hidden: false,
        is_system: false,
        content_hash: None,
        parent: String::new(),
        drive: 'C',
    }
}

fn open_config() -> IndexConfig {
    IndexConfig {
        drives: vec!['C'],
        include_hidden: true,
        include_system: true,
        compute_hashes: false,
        max_hash_size: 1024,
        extensions: Vec::new(),
        exclude_dirs: Vec::new(),
        use_mft: false,
        threads: 1,
    }
}

#[test]
fn test_config_default() {
    let c = IndexConfig::default();
    assert_eq!(c.drives, vec!['C', 'D', 'E', 'F', 'G']);
    assert!(c.include_hidden);
    assert!(!c.include_system);
    assert!(!c.compute_hashes);
    assert_eq!(c.max_hash_size, 100 * 1024 * 1024);
    assert!(c.extensions.is_empty());
    assert!(c.exclude_dirs.iter().any(|d| d == "Windows"));
    assert_eq!(c.exclude_dirs.len(), 6);
    assert!(c.use_mft);
    assert!(c.threads >= 1);
}

#[test]
fn test_excluded_dir_rejects() {
    let mut config = open_config();
    config.exclude_dirs = vec!["Windows".to_string()];
    let indexer = FastIndexer::new(config);
    let entry = plain_entry("C:\\Windows\\x", "x", None, 0, false);
    assert!(!indexer.should_include(&entry));
    let other = plain_entry("C:\\Users\\x", "x", None, 0, false);
    assert!(indexer.should_include(&other));
}

#[test]
fn test_hidden_and_system_toggles() {
    let mut hidden = plain_entry("C:\\h", "h", None, 0, false);
    hidden.is_hidden = true;
    let mut system = plain_entry("C:\\s", "s", None, 0, false);
    system.is_system = true;

    let mut strict = open_config();
    strict.include_hidden = false;
    strict.include_system = false;
    let strict_indexer = FastIndexer::new(strict);
    assert!(!strict_indexer.should_include(&hidden));
    assert!(!strict_indexer.should_include(&system));

    // Enabling the switches only ever adds entries.
    let lax_indexer = FastIndexer::new(open_config());
    assert!(lax_indexer.should_include(&hidden));
    assert!(lax_indexer.should_include(&system));
}

#[test]
fn test_extension_filter() {
    let mut config = open_config();
    config.extensions = vec!["TXT".to_string()];
    let indexer = FastIndexer::new(config);
    let txt = plain_entry("C:\\a.txt", "a.txt", Some("txt"), 1, false);
    let rs = plain_entry("C:\\a.rs", "a.rs", Some("rs"), 1, false);
    let bare = plain_entry("C:\\noext", "noext", None, 1, false);
    let dir = plain_entry("C:\\d", "d", None, 0, true);
    assert!(indexer.should_include(&txt));
    assert!(!indexer.should_include(&rs));
    assert!(!indexer.should_include(&bare));
    assert!(indexer.should_include(&dir));
}

#[test]
fn test_index_all_empty_drives() {
    let mut config = open_config();
    config.drives = Vec::new();
    let indexer = FastIndexer::new(config);
    let (entries, stats) = indexer.index_all(&Vec::new(), 17);
    assert!(entries.is_empty());
    assert_eq!(stats.total_files, 0);
    assert_eq!(stats.total_dirs, 0);
    assert_eq!(stats.total_size, 0);
    assert_eq!(stats.index_time_ms, 17);
    assert!(stats.drives_indexed.is_empty());
}

#[test]
fn test_index_all_merges_and_counts() {
    let indexer = FastIndexer::new(open_config());
    let scans = vec![
        DriveScan {
            drive: 'C',
            entries: vec![
                plain_entry("C:\\a.txt", "a.txt", Some("txt"), 10, false),
                plain_entry("C:\\d", "d", None, 0, true),
                plain_entry("C:\\a.txt", "a.txt", Some("txt"), 30, false),
            ],
        },
        DriveScan {
            drive: 'C',
            entries: vec![plain_entry("C:\\b.txt", "b.txt", Some("txt"), 5, false)],
        },
    ];
    let (entries, stats) = indexer.index_all(&scans, 1);
    // Replace-on-collision keeps one entry per path.
    assert_eq!(entries.len(), 3);
    let dup = entries.iter().find(|e| e.path == "C:\\a.txt").unwrap();
    assert_eq!(dup.size, 30);
    // Counters see every accepted candidate, including the replaced one.
    assert_eq!(stats.total_files, 3);
    assert_eq!(stats.total_dirs, 1);
    assert_eq!(stats.total_size, 45);
    assert_eq!(stats.drives_indexed, vec!['C']);
}

#[test]
fn test_index_directory_applies_policy() {
    let mut config = open_config();
    config.exclude_dirs = vec!["skip".to_string()];
    let indexer = FastIndexer::new(config);
    let walked = vec![
        plain_entry("C:\\keep\\a", "a", None, 1, false),
        plain_entry("C:\\skip\\b", "b", None, 1, false),
    ];
    let out = indexer.index_directory(&walked);
    assert_eq!(out.len(), 1);
    assert_eq!(out[0].path, "C:\\keep\\a");
}

#[test]
fn test_format_size() {
    assert_eq!(format_size(0), "0.00 B");
    assert_eq!(format_size(1024), "1.00 KB");
    assert_eq!(format_size(1024 * 1024), "1.00 MB");
}

#[test]
fn test_format_size_rounds() {
    assert_eq!(format_size(1536), "1.50 KB");
    assert_eq!(format_size(1023), "1023.00 B");
}

#[test]
fn test_human_size() {
    let mut e = plain_entry("C:\\a", "a", None, 0, false);
    assert_eq!(e.human_size(), "0 B");
    e.size = 512;
    assert_eq!(e.human_size(), "512 B");
    e.size = 2048;
    assert_eq!(e.human_size(), "2.00 KB");
}
