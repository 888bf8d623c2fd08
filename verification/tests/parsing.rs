//! Tests of the change-journal record parser and the typed change
//! events derived from records.

use nexus_core::usn::{
    parse_records_from, changes_from_batch, reason_to_change_type, tail_should_parse, ChangeType,
    UsnJournal,
};
use nexus_core::mask_file_reference;

fn put_u16(buf: &mut Vec<u8>, v: u16) {
    buf.push((v & 0xFF) as u8);
    buf.push((v >> 8) as u8);
}

fn put_u32(buf: &mut Vec<u8>, v: u32) {
    for k in 0..4 {
        buf.push(((v >> (8 * k)) & 0xFF) as u8);
    }
}

fn put_u64(buf: &mut Vec<u8>, v: u64) {
    for k in 0..8 {
        buf.push(((v >> (8 * k)) & 0xFF) as u8);
    }
}

fn push_record(buf: &mut Vec<u8>, fr: u64, pr: u64, reason: u32, attrs: u32, name: &str) {
    let units: Vec<u16> = name.encode_utf16().collect();
    let name_len = (2 * units.len()) as u16;
    let rec_len = 60 + name_len as u32;
    put_u32(buf, rec_len);
    put_u16(buf, 2);
    put_u16(buf, 0);
    put_u64(buf, fr);
    put_u64(buf, pr);
    put_u64(buf, 1);
    put_u64(buf, 2);
    put_u32(buf, reason);
    put_u32(buf, 0);
    put_u32(buf, 0);
    put_u32(buf, attrs);
    put_u16(buf, name_len);
    put_u16(buf, 60);
    for u in units {
        put_u16(buf, u);
    }
}

#[test]
fn test_parse_single_record() {
    let mut buf: Vec<u8> = Vec::new();
    put_u64(&mut buf, 99);
    push_record(&mut buf, 7, 5, 0x100, 0x10, "Users");
    let n = buf.len();
    let (records, end) = parse_records_from(&buf, 8, n);
    assert_eq!(records.len(), 1);
    assert_eq!(end, n);
    let r = &records[0];
    assert_eq!(r.file_reference, 7);
    assert_eq!(r.parent_reference, 5);
    assert_eq!(r.reason, 0x100);
    assert_eq!(r.file_attributes, 0x10);
    let name = String::from_utf16(&r.name_units).unwrap();
    assert_eq!(name, "Users");
}

#[test]
fn test_zero_length_record_stops() {
    let mut buf: Vec<u8> = Vec::new();
    put_u64(&mut buf, 0);
    push_record(&mut buf, 7, 5, 0x100, 0, "a.txt");
    let stop_at = buf.len();
    // A header full of zeroes: record_length is zero.
    for _ in 0..60 {
        buf.push(0);
    }
    push_record(&mut buf, 8, 5, 0x100, 0, "never.txt");
    let n = buf.len();
    let (records, end) = parse_records_from(&buf, 8, n);
    assert_eq!(records.len(), 1);
    assert_eq!(end, stop_at);
}

#[test]
fn test_truncated_record_stops() {
    let mut buf: Vec<u8> = Vec::new();
    put_u64(&mut buf, 0);
    push_record(&mut buf, 7, 5, 0x100, 0, "a.txt");
    let good = buf.len();
    push_record(&mut buf, 8, 5, 0x100, 0, "b.txt");
    // Report fewer bytes than the second record needs.
    let n = buf.len() - 4;
    let (records, end) = parse_records_from(&buf, 8, n);
    assert_eq!(records.len(), 1);
    assert_eq!(end, good);
}

#[test]
fn test_bad_name_bounds_skip_record() {
    let mut buf: Vec<u8> = Vec::new();
    put_u64(&mut buf, 0);
    // First record claims its name starts inside the header: skipped.
    let units: Vec<u16> = "bad".encode_utf16().collect();
    let name_len = (2 * units.len()) as u16;
    let rec_len = 60 + name_len as u32;
    put_u32(&mut buf, rec_len);
    put_u16(&mut buf, 2);
    put_u16(&mut buf, 0);
    put_u64(&mut buf, 9);
    put_u64(&mut buf, 5);
    put_u64(&mut buf, 1);
    put_u64(&mut buf, 2);
    put_u32(&mut buf, 0x100);
    put_u32(&mut buf, 0);
    put_u32(&mut buf, 0);
    put_u32(&mut buf, 0);
    put_u16(&mut buf, name_len);
    put_u16(&mut buf, 30);
    for u in units {
        put_u16(&mut buf, u);
    }
    push_record(&mut buf, 10, 5, 0x100, 0, "good.txt");
    let n = buf.len();
    let (records, end) = parse_records_from(&buf, 8, n);
    assert_eq!(records.len(), 1);
    assert_eq!(records[0].file_reference, 10);
    assert_eq!(end, n);
}

#[test]
fn test_reason_to_change_type() {
    assert_eq!(reason_to_change_type(0x00000100), ChangeType::Created);
    assert_eq!(reason_to_change_type(0x00000200), ChangeType::Deleted);
    assert_eq!(reason_to_change_type(0x00000006), ChangeType::Modified);
    assert_eq!(
        reason_to_change_type(0x00001000),
        ChangeType::Renamed { old_name: String::new() }
    );
    assert_eq!(reason_to_change_type(0x00000800), ChangeType::SecurityChange);
    assert_eq!(reason_to_change_type(0x00000000), ChangeType::Unknown);
}

#[test]
fn test_changes_from_batch() {
    let mut buf: Vec<u8> = Vec::new();
    put_u64(&mut buf, 4242);
    push_record(&mut buf, 7, 5, 0x100, 0x10, "new dir");
    push_record(&mut buf, 8, 5, 0x200, 0x00, "gone.txt");
    let n = buf.len();
    let (next, changes) = changes_from_batch(&buf, n, 'C', 1700000000);
    assert_eq!(next, 4242);
    assert_eq!(changes.len(), 2);
    assert_eq!(changes[0].path, "C:\\...\\new dir");
    assert_eq!(changes[0].change_type, ChangeType::Created);
    assert!(changes[0].is_directory);
    assert_eq!(changes[0].timestamp, 1700000000);
    assert_eq!(changes[1].path, "C:\\...\\gone.txt");
    assert_eq!(changes[1].change_type, ChangeType::Deleted);
    assert!(!changes[1].is_directory);
}

#[test]
fn test_mask_file_reference() {
    assert_eq!(mask_file_reference(0xABCD_0000_0000_0007), 7);
    assert_eq!(mask_file_reference(5), 5);
}

#[test]
fn test_tail_backoff_decision() {
    // A failed read or one without records past the cursor calls for
    // the back-off; anything larger is parsed.
    assert!(!tail_should_parse(false, 4096));
    assert!(!tail_should_parse(true, 8));
    assert!(!tail_should_parse(true, 0));
    assert!(tail_should_parse(true, 9));
}

#[test]
fn test_usn_journal_state() {
    let mut j = UsnJournal::new('D');
    assert_eq!(j.drive, 'D');
    assert!(!j.running);
    j.start();
    assert!(j.running);
    j.stop();
    assert!(!j.running);
}
