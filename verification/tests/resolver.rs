//! Tests of the reference table, the path resolver, and the full
//! enumeration pipeline from record batches to resolved entries.

use nexus_core::refs::{PathCache, ReferenceTable, resolve_path};
use nexus_core::mft::{process_mft_batch, resolve_entries, volume_open_error, MftReader};
use nexus_core::errors::NexusError;

fn put_u16(buf: &mut Vec<u8>, v: u16) {
    buf.push((v & 0xFF) as u8);
    buf.push((v >> 8) as u8);
}

fn put_u32(buf: &mut Vec<u8>, v: u32) {
    for k in 0..4 {
        buf.push(((v >> (8 * k)) & 0xFF) as u8);
    }
}

fn put_u64(buf: &mut Vec<u8>, v: u64) {
    for k in 0..8 {
        buf.push(((v >> (8 * k)) & 0xFF) as u8);
    }
}

fn push_record(buf: &mut Vec<u8>, fr: u64, pr: u64, reason: u32, attrs: u32, name: &str) {
    let units: Vec<u16> = name.encode_utf16().collect();
    let name_len = (2 * units.len()) as u16;
    let rec_len = 60 + name_len as u32;
    put_u32(buf, rec_len);
    put_u16(buf, 2);
    put_u16(buf, 0);
    put_u64(buf, fr);
    put_u64(buf, pr);
    put_u64(buf, 1);
    put_u64(buf, 2);
    put_u32(buf, reason);
    put_u32(buf, 0);
    put_u32(buf, 0);
    put_u32(buf, attrs);
    put_u16(buf, name_len);
    put_u16(buf, 60);
    for u in units {
        put_u16(buf, u);
    }
}

#[test]
fn test_resolve_simple_chain() {
    let mut table = ReferenceTable::new();
    table.insert_root('C');
    table.insert(10, "Users".to_string(), 5);
    table.insert(20, "file.txt".to_string(), 10);
    let mut cache = PathCache::new();
    let path = resolve_path(&table, &mut cache, 20);
    assert_eq!(path, "C:\\Users\\file.txt");
    let parent = resolve_path(&table, &mut cache, 10);
    assert_eq!(parent, "C:\\Users");
    let root = resolve_path(&table, &mut cache, 5);
    assert_eq!(root, "C:");
}

#[test]
fn test_resolve_unknown_is_empty() {
    let table = ReferenceTable::new();
    let mut cache = PathCache::new();
    assert_eq!(resolve_path(&table, &mut cache, 999), "");
}

#[test]
fn test_resolve_cycle_terminates() {
    let mut table = ReferenceTable::new();
    table.insert(1, "a".to_string(), 2);
    table.insert(2, "b".to_string(), 1);
    let mut cache = PathCache::new();
    // A malformed cyclic table must resolve in bounded steps; the
    // reference met again counts as unknown.
    let p = resolve_path(&table, &mut cache, 1);
    assert_eq!(p, "\\b\\a");
}

#[test]
fn test_resolve_memoized_is_stable() {
    let mut table = ReferenceTable::new();
    table.insert_root('C');
    table.insert(11, "Data".to_string(), 5);
    let mut cache = PathCache::new();
    let first = resolve_path(&table, &mut cache, 11);
    let second = resolve_path(&table, &mut cache, 11);
    assert_eq!(first, second);
    assert_eq!(first, "C:\\Data");
}

#[test]
fn test_enumeration_pipeline() {
    let mut buf: Vec<u8> = Vec::new();
    put_u64(&mut buf, 31);
    push_record(&mut buf, 10, 5, 0, 0x10, "Users");
    push_record(&mut buf, 20, 10, 0, 0x00, "Notes.TXT");
    let n = buf.len();
    let mut table = ReferenceTable::new();
    table.insert_root('C');
    let mut pending = Vec::new();
    let next = process_mft_batch(&buf, n, 'C', &mut table, &mut pending);
    assert_eq!(next, 31);
    assert_eq!(pending.len(), 2);
    let entries = resolve_entries(&table, pending);
    assert_eq!(entries.len(), 2);
    let dir = &entries[0];
    assert_eq!(dir.path, "C:\\Users");
    assert_eq!(dir.name, "Users");
    assert!(dir.is_dir);
    assert_eq!(dir.extension, None);
    assert_eq!(dir.parent, "C:");
    let file = &entries[1];
    assert_eq!(file.path, "C:\\Users\\Notes.TXT");
    assert_eq!(file.name, "Notes.TXT");
    assert!(!file.is_dir);
    assert_eq!(file.extension, Some("txt".to_string()));
    assert_eq!(file.parent, "C:\\Users");
    assert_eq!(file.drive, 'C');
    assert_eq!(file.size, 0);
    // The accepted entries satisfy the entry invariant: a non-empty
    // path of which the parent is a prefix.
    for e in &entries {
        assert!(!e.path.is_empty());
        assert!(e.path.starts_with(&e.parent));
    }
}

#[test]
fn test_dotless_name_has_no_extension() {
    let mut buf: Vec<u8> = Vec::new();
    put_u64(&mut buf, 0);
    push_record(&mut buf, 30, 5, 0, 0x00, "README");
    push_record(&mut buf, 31, 5, 0, 0x00, ".profile");
    let n = buf.len();
    let mut table = ReferenceTable::new();
    table.insert_root('C');
    let mut pending = Vec::new();
    process_mft_batch(&buf, n, 'C', &mut table, &mut pending);
    let entries = resolve_entries(&table, pending);
    assert_eq!(entries.len(), 2);
    // A name without a dot past its first character has no extension.
    assert_eq!(entries[0].name, "README");
    assert_eq!(entries[0].extension, None);
    assert_eq!(entries[1].name, ".profile");
    assert_eq!(entries[1].extension, None);
}

#[test]
fn test_unknown_parent_resolves_empty() {
    let mut buf: Vec<u8> = Vec::new();
    put_u64(&mut buf, 0);
    push_record(&mut buf, 20, 10, 0, 0, "orphan.dat");
    let n = buf.len();
    // No root record: the parent reference stays unknown, so the
    // parent path is empty and the entry's path starts at the name.
    let mut table = ReferenceTable::new();
    let mut pending = Vec::new();
    process_mft_batch(&buf, n, 'C', &mut table, &mut pending);
    let entries = resolve_entries(&table, pending);
    assert_eq!(entries.len(), 1);
    assert_eq!(entries[0].path, "\\orphan.dat");
    assert_eq!(entries[0].parent, "");
}

#[test]
fn test_volume_open_error_carries_drive() {
    let e = volume_open_error('E');
    match &e {
        NexusError::PermissionDenied(msg) => {
            assert!(msg.starts_with('E'));
            assert!(msg.contains("elevated rights"));
        },
        _ => panic!("expected a permission error"),
    }
    let r = MftReader::new('E');
    assert_eq!(r.drive, 'E');
}
