//! Change-journal records: the packed on-disk layout, a verified
//! parser for record batches, and the typed change events derived
//! from them.

use vstd::prelude::*;
use crate::text::string_from_chars;

verus! {

/// Size in bytes of the fixed record header that precedes the name.
pub const USN_HEADER_SIZE: usize = 60;

/// Reason flag: a file was created.
pub const USN_REASON_FILE_CREATE: u32 = 0x00000100;

/// Reason flag: a file was deleted.
pub const USN_REASON_FILE_DELETE: u32 = 0x00000200;

/// Reason flag: file data was overwritten.
pub const USN_REASON_DATA_OVERWRITE: u32 = 0x00000001;

/// Reason flag: file data was extended.
pub const USN_REASON_DATA_EXTEND: u32 = 0x00000002;

/// Reason flag: file data was truncated.
pub const USN_REASON_DATA_TRUNCATION: u32 = 0x00000004;

/// Reason flag: a rename reported under the old name.
pub const USN_REASON_RENAME_OLD_NAME: u32 = 0x00001000;

/// Reason flag: a rename reported under the new name.
pub const USN_REASON_RENAME_NEW_NAME: u32 = 0x00002000;

/// Reason flag: a security descriptor changed.
pub const USN_REASON_SECURITY_CHANGE: u32 = 0x00000800;

/// Attribute flag: the record names a directory.
pub const ATTR_DIRECTORY: u32 = 0x10;

/// Attribute flag: the entry is hidden.
pub const ATTR_HIDDEN: u32 = 0x02;

/// Attribute flag: the entry belongs to the system.
pub const ATTR_SYSTEM: u32 = 0x04;

/// Little-endian 16-bit value at byte offset `i`.
pub open spec fn le16(b: Seq<u8>, i: int) -> u16 {
    (b[i] + b[i + 1] * 0x100) as u16
}

/// Little-endian 32-bit value at byte offset `i`.
pub open spec fn le32(b: Seq<u8>, i: int) -> u32 {
    (b[i] + b[i + 1] * 0x100 + b[i + 2] * 0x10000 + b[i + 3] * 0x1000000) as u32
}

/// Little-endian 64-bit value at byte offset `i`.
pub open spec fn le64(b: Seq<u8>, i: int) -> u64 {
    (b[i] + b[i + 1] * 0x100 + b[i + 2] * 0x10000 + b[i + 3] * 0x1000000 + b[i + 4]
        * 0x100000000 + b[i + 5] * 0x10000000000 + b[i + 6] * 0x1000000000000 + b[i + 7]
        * 0x100000000000000) as u64
}

/// Read a little-endian 16-bit value.
pub fn read_le16(b: &Vec<u8>, i: usize) -> (r: u16)
    requires
        i + 2 <= b.len(),
    ensures
        r == le16(b@, i as int),
{
    (b[i] as u16) + (b[i + 1] as u16) * 0x100
}

/// Read a little-endian 32-bit value.
pub fn read_le32(b: &Vec<u8>, i: usize) -> (r: u32)
    requires
        i + 4 <= b.len(),
    ensures
        r == le32(b@, i as int),
{
    (b[i] as u32) + (b[i + 1] as u32) * 0x100 + (b[i + 2] as u32) * 0x10000 + (b[i + 3] as u32)
        * 0x1000000
}

/// Read a little-endian 64-bit value.
pub fn read_le64(b: &Vec<u8>, i: usize) -> (r: u64)
    requires
        i + 8 <= b.len(),
    ensures
        r == le64(b@, i as int),
{
    (b[i] as u64) + (b[i + 1] as u64) * 0x100 + (b[i + 2] as u64) * 0x10000 + (b[i + 3] as u64)
        * 0x1000000 + (b[i + 4] as u64) * 0x100000000 + (b[i + 5] as u64) * 0x10000000000 + (b[i
        + 6] as u64) * 0x1000000000000 + (b[i + 7] as u64) * 0x100000000000000
}

/// The fields of one change-journal record, with the filename as the
/// UTF-16 code units found in the buffer.
pub struct UsnRecord {
    /// Total length of the record, header and name included.
    pub record_length: u32,
    pub major_version: u16,
    pub minor_version: u16,
    /// Reference of the file the record concerns.
    pub file_reference: u64,
    /// Reference of the containing directory.
    pub parent_reference: u64,
    /// Sequence number of the record, as raw bits.
    pub usn: u64,
    /// Journal timestamp, as raw bits.
    pub timestamp: u64,
    /// Reason flags describing the change.
    pub reason: u32,
    pub source_info: u32,
    pub security_id: u32,
    /// File attribute flags.
    pub file_attributes: u32,
    pub file_name_length: u16,
    pub file_name_offset: u16,
    /// UTF-16 code units of the filename.
    pub name_units: Vec<u16>,
}

/// Mathematical value of one record.
#[verifier::ext_equal]
pub ghost struct RecView {
    pub record_length: u32,
    pub major_version: u16,
    pub minor_version: u16,
    pub file_reference: u64,
    pub parent_reference: u64,
    pub usn: u64,
    pub timestamp: u64,
    pub reason: u32,
    pub source_info: u32,
    pub security_id: u32,
    pub file_attributes: u32,
    pub file_name_length: u16,
    pub file_name_offset: u16,
    pub name_units: Seq<u16>,
}

impl View for UsnRecord {
    type V = RecView;

    open spec fn view(&self) -> RecView {
        RecView {
            record_length: self.record_length,
            major_version: self.major_version,
            minor_version: self.minor_version,
            file_reference: self.file_reference,
            parent_reference: self.parent_reference,
            usn: self.usn,
            timestamp: self.timestamp,
            reason: self.reason,
            source_info: self.source_info,
            security_id: self.security_id,
            file_attributes: self.file_attributes,
            file_name_length: self.file_name_length,
            file_name_offset: self.file_name_offset,
            name_units: self.name_units@,
        }
    }
}

/// The name units stored at `start`: `count` little-endian 16-bit values.
pub open spec fn spec_name_units(b: Seq<u8>, start: int, count: int) -> Seq<u16> {
    Seq::new(count as nat, |j: int| le16(b, start + 2 * j))
}

/// The record whose header begins at byte `off`.
pub open spec fn spec_record_at(b: Seq<u8>, off: int) -> RecView {
    RecView {
        record_length: le32(b, off),
        major_version: le16(b, off + 4),
        minor_version: le16(b, off + 6),
        file_reference: le64(b, off + 8),
        parent_reference: le64(b, off + 16),
        usn: le64(b, off + 24),
        timestamp: le64(b, off + 32),
        reason: le32(b, off + 40),
        source_info: le32(b, off + 44),
        security_id: le32(b, off + 48),
        file_attributes: le32(b, off + 52),
        file_name_length: le16(b, off + 56),
        file_name_offset: le16(b, off + 58),
        name_units: spec_name_units(
            b,
            off + le16(b, off + 58),
            le16(b, off + 56) as int / 2,
        ),
    }
}

/// The filename bounds of the record at `off` lie inside both the
/// record and the returned bytes, and leave room for the header.
pub open spec fn record_name_ok(b: Seq<u8>, off: int, n: int) -> bool {
    let len = le32(b, off) as int;
    let noff = le16(b, off + 58) as int;
    let nlen = le16(b, off + 56) as int;
    noff >= USN_HEADER_SIZE && noff + nlen <= len && off + noff + nlen <= n
}

/// Whether the batch stops at `off`: no full header remains, the
/// record length is zero or exceeds the buffer, or the record would
/// run past the returned bytes.
pub open spec fn parse_stops_at(b: Seq<u8>, off: int, n: int, cap: int) -> bool {
    let len = le32(b, off) as int;
    off + USN_HEADER_SIZE > n || len == 0 || len > cap || off + len > n
}

/// Parse the packed records between `off` and `n`. Returns the records
/// whose filename bounds validate, in buffer order, and the offset at
/// which parsing stopped. A record with invalid filename bounds is
/// skipped; advancement is always by `record_length`.
pub open spec fn spec_parse_usn(b: Seq<u8>, off: int, n: int, cap: int) -> (Seq<RecView>, int)
    decreases n - off,
{
    if off + USN_HEADER_SIZE > n || n - off < 0 {
        (Seq::empty(), off)
    } else {
        let len = le32(b, off) as int;
        if len == 0 || len > cap || off + len > n {
            (Seq::empty(), off)
        } else {
            let rest = spec_parse_usn(b, off + len, n, cap);
            if record_name_ok(b, off, n) {
                (seq![spec_record_at(b, off)] + rest.0, rest.1)
            } else {
                rest
            }
        }
    }
}

/// The parser consumes the buffer up to `n` or stops at a validated
/// record boundary: at the stop offset no further record fits.
pub proof fn lemma_parser_stops_at_boundary(b: Seq<u8>, off: int, n: int, cap: int)
    requires
        0 <= off <= n,
    ensures
        off <= spec_parse_usn(b, off, n, cap).1 <= n,
        parse_stops_at(b, spec_parse_usn(b, off, n, cap).1, n, cap),
    decreases n - off,
{
    if off + USN_HEADER_SIZE > n {
    } else {
        let len = le32(b, off) as int;
        if len == 0 || len > cap || off + len > n {
        } else {
            lemma_parser_stops_at_boundary(b, off + len, n, cap);
        }
    }
}

/// A record of length zero stops the batch without advancing.
pub proof fn lemma_zero_length_stops(b: Seq<u8>, off: int, n: int, cap: int)
    requires
        0 <= off,
        off + USN_HEADER_SIZE <= n,
        le32(b, off) == 0,
    ensures
        spec_parse_usn(b, off, n, cap) == (Seq::<RecView>::empty(), off),
{
}

/// Extract the filename units of the record at `off`.
fn read_name_units(buf: &Vec<u8>, start: usize, count: usize) -> (units: Vec<u16>)
    requires
        start + 2 * count <= buf@.len(),
    ensures
        units@ == spec_name_units(buf@, start as int, count as int),
{
    proof {
        assert(start + 2 * count <= buf.len());
    }
    let mut units: Vec<u16> = Vec::new();
    let mut j: usize = 0;
    while j < count
        invariant
            start + 2 * count <= buf.len(),
            buf.len() == buf@.len(),
            j <= count,
            units@.len() == j,
            forall|k: int| 0 <= k < j ==> units@[k] == le16(buf@, start + 2 * k),
        decreases count - j,
    {
        units.push(read_le16(buf, start + 2 * j));
        j = j + 1;
    }
    proof {
        assert(units@ =~= spec_name_units(buf@, start as int, count as int));
    }
    units
}

/// Read the record whose header starts at `off`; bounds must have
/// been validated.
fn read_record_at(buf: &Vec<u8>, off: usize, n: usize) -> (r: UsnRecord)
    requires
        off + USN_HEADER_SIZE <= n <= buf@.len(),
        record_name_ok(buf@, off as int, n as int),
        le32(buf@, off as int) as int <= buf@.len(),
        off + le32(buf@, off as int) as int <= n,
    ensures
        r@ == spec_record_at(buf@, off as int),
{
    let noff = read_le16(buf, off + 58) as usize;
    let nlen = read_le16(buf, off + 56) as usize;
    let units = read_name_units(buf, off + noff, nlen / 2);
    let r = UsnRecord {
        record_length: read_le32(buf, off),
        major_version: read_le16(buf, off + 4),
        minor_version: read_le16(buf, off + 6),
        file_reference: read_le64(buf, off + 8),
        parent_reference: read_le64(buf, off + 16),
        usn: read_le64(buf, off + 24),
        timestamp: read_le64(buf, off + 32),
        reason: read_le32(buf, off + 40),
        source_info: read_le32(buf, off + 44),
        security_id: read_le32(buf, off + 48),
        file_attributes: read_le32(buf, off + 52),
        file_name_length: read_le16(buf, off + 56),
        file_name_offset: read_le16(buf, off + 58),
        name_units: units,
    };
    proof {
        assert(r@ =~= spec_record_at(buf@, off as int));
    }
    r
}

/// Parse every record packed between `start` and `bytes_returned`.
/// Returns the validated records in buffer order and the offset at
/// which parsing stopped.
pub fn parse_records_from(buf: &Vec<u8>, start: usize, bytes_returned: usize) -> (r: (
    Vec<UsnRecord>,
    usize,
))
    requires
        start <= bytes_returned <= buf@.len(),
    ensures
        r.0@.map_values(|u: UsnRecord| u@) == spec_parse_usn(
            buf@,
            start as int,
            bytes_returned as int,
            buf@.len() as int,
        ).0,
        r.1 == spec_parse_usn(buf@, start as int, bytes_returned as int, buf@.len() as int).1,
{
    let n = bytes_returned;
    let cap = buf.len();
    let mut off = start;
    let mut out: Vec<UsnRecord> = Vec::new();
    let ghost full = spec_parse_usn(buf@, start as int, n as int, cap as int);
    proof {
        assert(out@.map_values(|u: UsnRecord| u@) =~= Seq::<RecView>::empty());
    }
    loop
        invariant
            start <= off <= n <= cap == buf@.len(),
            full == spec_parse_usn(buf@, start as int, n as int, cap as int),
            full.0 == out@.map_values(|u: UsnRecord| u@) + spec_parse_usn(
                buf@,
                off as int,
                n as int,
                cap as int,
            ).0,
            full.1 == spec_parse_usn(buf@, off as int, n as int, cap as int).1,
        ensures
            spec_parse_usn(buf@, off as int, n as int, cap as int) == (
                Seq::<RecView>::empty(),
                off as int,
            ),
            full.0 == out@.map_values(|u: UsnRecord| u@),
            full.1 == off as int,
        decreases n - off,
    {
        if n - off < USN_HEADER_SIZE {
            break ;
        }
        let len32 = read_le32(buf, off);
        if len32 == 0 {
            break ;
        }
        let len = len32 as usize;
        if len > cap {
            break ;
        }
        if n - off < len {
            break ;
        }
        let ghost before = spec_parse_usn(buf@, off as int, n as int, cap as int);
        let ghost after = spec_parse_usn(buf@, (off + len) as int, n as int, cap as int);
        let noff = read_le16(buf, off + 58) as usize;
        let nlen = read_le16(buf, off + 56) as usize;
        if noff >= USN_HEADER_SIZE && noff + nlen <= len {
            let rec = read_record_at(buf, off, n);
            out.push(rec);
            proof {
                assert(before.0 =~= seq![spec_record_at(buf@, off as int)] + after.0);
                assert(out@.map_values(|u: UsnRecord| u@) =~= out@.drop_last().map_values(
                    |u: UsnRecord| u@,
                ) + seq![spec_record_at(buf@, off as int)]);
                assert(full.0 =~= out@.map_values(|u: UsnRecord| u@) + after.0);
            }
        } else {
            proof {
                assert(!record_name_ok(buf@, off as int, n as int));
                assert(before == after);
            }
        }
        off = off + len;
    }
    (out, off)
}

/// The cursor that precedes the records of a batch: the next sequence
/// number, stored in the first eight bytes.
pub fn batch_cursor(buf: &Vec<u8>) -> (r: u64)
    requires
        8 <= buf@.len(),
    ensures
        r == le64(buf@, 0),
{
    read_le64(buf, 0)
}

/// What `String::from_utf16_lossy` returns for a given sequence of
/// code units. The text depends on the units alone.
pub uninterp spec fn utf16_lossy_of(units: Seq<u16>) -> Seq<char>;

/// Relies on String::from_utf16_lossy: decodes UTF-16, replacing
/// malformed sequences with the replacement character; a unit below
/// the surrogate range decodes to the code point of the same value.
#[verifier::external_body]
pub fn utf16_lossy(units: &Vec<u16>) -> (r: String)
    ensures
        r@ == utf16_lossy_of(units@),
        (forall|i: int| 0 <= i < units@.len() ==> units@[i] < 0xD800) ==> r@ == units@.map(
            |i: int, u: u16| u as char,
        ),
{
    String::from_utf16_lossy(units.as_slice())
}

/// The kind of filesystem change a record reports.
pub ghost enum ChangeKind {
    Created,
    Deleted,
    Modified,
    Renamed,
    SecurityChange,
    Unknown,
}

/// The kind of change that a reason mask denotes; the first matching
/// group of flags wins.
pub open spec fn reason_kind(reason: u32) -> ChangeKind {
    if reason & USN_REASON_FILE_CREATE != 0 {
        ChangeKind::Created
    } else if reason & USN_REASON_FILE_DELETE != 0 {
        ChangeKind::Deleted
    } else if reason & (USN_REASON_DATA_OVERWRITE | USN_REASON_DATA_EXTEND
        | USN_REASON_DATA_TRUNCATION) != 0 {
        ChangeKind::Modified
    } else if reason & (USN_REASON_RENAME_OLD_NAME | USN_REASON_RENAME_NEW_NAME) != 0 {
        ChangeKind::Renamed
    } else if reason & USN_REASON_SECURITY_CHANGE != 0 {
        ChangeKind::SecurityChange
    } else {
        ChangeKind::Unknown
    }
}

/// A typed filesystem change. Rename records carry no old name here:
/// correlating the two rename records is left to consumers.
#[derive(Debug, Clone, PartialEq, Eq)]
pub enum ChangeType {
    Created,
    Deleted,
    Modified,
    Renamed { old_name: String },
    SecurityChange,
    Unknown,
}

impl ChangeType {
    /// The kind this value denotes, forgetting any carried name.
    pub open spec fn kind(&self) -> ChangeKind {
        match self {
            ChangeType::Created => ChangeKind::Created,
            ChangeType::Deleted => ChangeKind::Deleted,
            ChangeType::Modified => ChangeKind::Modified,
            ChangeType::Renamed { .. } => ChangeKind::Renamed,
            ChangeType::SecurityChange => ChangeKind::SecurityChange,
            ChangeType::Unknown => ChangeKind::Unknown,
        }
    }

    /// The old name carried by a rename; empty for every other kind.
    pub open spec fn renamed_old_name(&self) -> Seq<char> {
        match self {
            ChangeType::Renamed { old_name } => old_name@,
            _ => Seq::empty(),
        }
    }
}

/// Map a record's reason mask to the change it denotes.
pub fn reason_to_change_type(reason: u32) -> (r: ChangeType)
    ensures
        r.kind() == reason_kind(reason),
        r.renamed_old_name() == Seq::<char>::empty(),
{
    if reason & USN_REASON_FILE_CREATE != 0 {
        ChangeType::Created
    } else if reason & USN_REASON_FILE_DELETE != 0 {
        ChangeType::Deleted
    } else if reason & (USN_REASON_DATA_OVERWRITE | USN_REASON_DATA_EXTEND
        | USN_REASON_DATA_TRUNCATION) != 0 {
        ChangeType::Modified
    } else if reason & (USN_REASON_RENAME_OLD_NAME | USN_REASON_RENAME_NEW_NAME) != 0 {
        ChangeType::Renamed { old_name: String::new() }
    } else if reason & USN_REASON_SECURITY_CHANGE != 0 {
        ChangeType::SecurityChange
    } else {
        ChangeType::Unknown
    }
}

/// A change event delivered by the journal tail. The path is
/// provisional: records carry only a filename, so the directory part
/// is elided.
#[derive(Debug, Clone)]
pub struct UsnChange {
    /// Synthesized path of the changed entry.
    pub path: String,
    /// What happened.
    pub change_type: ChangeType,
    /// The record concerns a directory.
    pub is_directory: bool,
    /// When the event was observed, in seconds since the UNIX epoch.
    pub timestamp: i64,
}

/// The synthesized, provisional path of a change: the drive tag, an
/// elision mark, and the record's filename.
pub open spec fn spec_change_path(drive: char, name: Seq<char>) -> Seq<char> {
    seq![drive, ':', '\\', '.', '.', '.', '\\'] + name
}

/// Convert one parsed record into a typed change event.
pub fn record_to_change(rec: &UsnRecord, drive: char, now: i64) -> (c: UsnChange)
    ensures
        c.path@ == spec_change_path(drive, utf16_lossy_of(rec@.name_units)),
        c.change_type.kind() == reason_kind(rec@.reason),
        c.change_type.renamed_old_name() == Seq::<char>::empty(),
        c.is_directory == ((rec@.file_attributes & ATTR_DIRECTORY) != 0),
        c.timestamp == now,
{
    let name = utf16_lossy(&rec.name_units);
    let mut v: Vec<char> = Vec::new();
    v.push(drive);
    v.push(':');
    v.push('\\');
    v.push('.');
    v.push('.');
    v.push('.');
    v.push('\\');
    let mut path = string_from_chars(&v);
    path.append(name.as_str());
    proof {
        assert(path@ =~= spec_change_path(drive, utf16_lossy_of(rec@.name_units)));
    }
    UsnChange {
        path,
        change_type: reason_to_change_type(rec.reason),
        is_directory: (rec.file_attributes & ATTR_DIRECTORY) != 0,
        timestamp: now,
    }
}

/// Parse one read-journal batch into the new cursor and the typed
/// changes of its validated records, in journal order.
pub fn changes_from_batch(buf: &Vec<u8>, bytes_returned: usize, drive: char, now: i64) -> (r: (
    u64,
    Vec<UsnChange>,
))
    requires
        8 <= bytes_returned <= buf.len(),
    ensures
        r.0 == le64(buf@, 0),
        ({
            let recs = spec_parse_usn(buf@, 8, bytes_returned as int, buf@.len() as int).0;
            &&& r.1@.len() == recs.len()
            &&& forall|i: int|
                0 <= i < recs.len() ==> {
                    &&& (#[trigger] r.1@[i]).path@ == spec_change_path(
                        drive,
                        utf16_lossy_of(recs[i].name_units),
                    )
                    &&& r.1@[i].change_type.kind() == reason_kind(recs[i].reason)
                    &&& r.1@[i].change_type.renamed_old_name() == Seq::<char>::empty()
                    &&& r.1@[i].is_directory == ((recs[i].file_attributes & ATTR_DIRECTORY) != 0)
                    &&& r.1@[i].timestamp == now
                }
        }),
{
    let cursor = batch_cursor(buf);
    let (records, _end) = parse_records_from(buf, 8, bytes_returned);
    let ghost recs = spec_parse_usn(buf@, 8, bytes_returned as int, buf@.len() as int).0;
    let mut changes: Vec<UsnChange> = Vec::new();
    let mut i: usize = 0;
    while i < records.len()
        invariant
            records@.map_values(|u: UsnRecord| u@) == recs,
            i <= records@.len(),
            changes@.len() == i,
            forall|k: int|
                0 <= k < i ==> {
                    &&& (#[trigger] changes@[k]).path@ == spec_change_path(
                        drive,
                        utf16_lossy_of(recs[k].name_units),
                    )
                    &&& changes@[k].change_type.kind() == reason_kind(recs[k].reason)
                    &&& changes@[k].change_type.renamed_old_name() == Seq::<char>::empty()
                    &&& changes@[k].is_directory == ((recs[k].file_attributes & ATTR_DIRECTORY)
                        != 0)
                    &&& changes@[k].timestamp == now
                },
        decreases records@.len() - i,
    {
        let c = record_to_change(&records[i], drive, now);
        changes.push(c);
        i = i + 1;
    }
    (cursor, changes)
}

/// Whether one read of the journal produced records worth parsing, or
/// the tail loop should back off and retry.
pub fn tail_should_parse(read_ok: bool, bytes_returned: usize) -> (b: bool)
    ensures
        b == (read_ok && bytes_returned > 8),
{
    read_ok && bytes_returned > 8
}

/// Control state of a journal monitor for one drive. The blocking
/// tail loop runs outside the core and observes `running` through a
/// shared flag; this records the decisions it must follow.
pub struct UsnJournal {
    /// The drive whose journal is tailed.
    pub drive: char,
    /// The monitor should keep tailing.
    pub running: bool,
}

impl UsnJournal {
    /// A monitor for `drive`, not yet running.
    pub fn new(drive: char) -> (j: Self)
        ensures
            j.drive == drive,
            !j.running,
    {
        UsnJournal { drive, running: false }
    }

    /// Mark the monitor running, as starting the tail loop does.
    pub fn start(&mut self)
        ensures
            final(self).drive == old(self).drive,
            final(self).running,
    {
        self.running = true;
    }

    /// Ask the tail loop to exit at its next iteration boundary.
    pub fn stop(&mut self)
        ensures
            final(self).drive == old(self).drive,
            !final(self).running,
    {
        self.running = false;
    }
}

} // verus!
