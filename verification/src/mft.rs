//! Volume enumeration: turning enumeration record batches into a
//! reference table and partial entries, and resolving those entries
//! into complete paths.

use vstd::prelude::*;
use crate::FILE_REF_MASK;
use crate::entry::{EntryView, FileEntry, extension_of, spec_extension};
use crate::errors::NexusError;
use crate::refs::{PathCache, RefData, ReferenceTable, cache_ok, resolve_path, spec_resolve};
use crate::text::{is_prefix_of, string_from_chars};
use crate::usn::{
    ATTR_DIRECTORY, ATTR_HIDDEN, ATTR_SYSTEM, RecView, UsnRecord, le64, parse_records_from,
    spec_parse_usn, utf16_lossy, utf16_lossy_of,
};

verus! {

/// Reads the master file table of one volume. The blocking volume
/// calls live outside the core; this carries the drive and the logic
/// that digests each returned batch.
pub struct MftReader {
    /// The drive this reader enumerates.
    pub drive: char,
}

impl MftReader {
    /// A reader for `drive`.
    pub fn new(drive: char) -> (r: Self)
        ensures
            r.drive == drive,
    {
        MftReader { drive }
    }
}

/// The error returned when a volume cannot be opened: permission
/// denied, carrying the drive letter in its message.
pub fn volume_open_error(drive: char) -> (e: NexusError)
    ensures
        e is PermissionDenied,
        e.message_spec() == seq![drive] + ":\\ cannot be opened; elevated rights are required"@,
        e.message_spec()[0] == drive,
{
    let mut v: Vec<char> = Vec::new();
    v.push(drive);
    let mut msg = string_from_chars(&v);
    msg.append(":\\ cannot be opened; elevated rights are required");
    proof {
        assert(msg@ =~= seq![drive] + ":\\ cannot be opened; elevated rights are required"@);
    }
    NexusError::PermissionDenied(msg)
}

/// A record accumulated during enumeration: the masked references and
/// the partial entry, whose path and parent are still empty.
pub struct PendingEntry {
    /// Masked reference of the entry itself.
    pub file_reference: u64,
    /// Masked reference of its containing directory.
    pub parent_reference: u64,
    /// The entry, with `path` and `parent` not yet resolved.
    pub entry: FileEntry,
}

/// Mathematical value of a pending entry.
#[verifier::ext_equal]
pub ghost struct PendView {
    pub file_reference: u64,
    pub parent_reference: u64,
    pub entry: EntryView,
}

impl View for PendingEntry {
    type V = PendView;

    open spec fn view(&self) -> PendView {
        PendView {
            file_reference: self.file_reference,
            parent_reference: self.parent_reference,
            entry: self.entry@,
        }
    }
}

/// The model of a reference table: each reference mapped to the name
/// and masked parent it records.
pub open spec fn table_model(m: Map<u64, RefData>) -> Map<u64, (Seq<char>, u64)> {
    Map::new(|k: u64| m.dom().contains(k), |k: u64| (m[k].name@, m[k].parent))
}

/// The pending entry a record contributes: name decoded from UTF-16,
/// attribute flags unpacked, the extension of a file derived from its
/// name (absent when the name has no dot past its first character),
/// path and parent left empty, size zero (enumeration reports no
/// sizes).
pub open spec fn pend_view_of(r: RecView, drive: char) -> PendView {
    let nm = utf16_lossy_of(r.name_units);
    let dir = (r.file_attributes & ATTR_DIRECTORY) != 0;
    PendView {
        file_reference: r.file_reference & FILE_REF_MASK,
        parent_reference: r.parent_reference & FILE_REF_MASK,
        entry: EntryView {
            path: Seq::empty(),
            name: nm,
            extension: if dir {
                None
            } else {
                spec_extension(nm)
            },
            size: 0,
            created: None,
            modified: None,
            accessed: None,
            is_dir: dir,
            is_hidden: (r.file_attributes & ATTR_HIDDEN) != 0,
            is_system: (r.file_attributes & ATTR_SYSTEM) != 0,
            content_hash: None,
            parent: Seq::empty(),
            drive,
        },
    }
}

/// Digesting a batch of records front to back: each record with a
/// non-empty name updates the table under its masked reference and
/// appends a pending entry; nameless records contribute nothing.
pub open spec fn spec_ingest(
    t: Map<u64, (Seq<char>, u64)>,
    recs: Seq<RecView>,
    drive: char,
) -> (Map<u64, (Seq<char>, u64)>, Seq<PendView>)
    decreases recs.len(),
{
    if recs.len() == 0 {
        (t, Seq::empty())
    } else {
        let r = recs[0];
        if r.name_units.len() > 0 {
            let fr = r.file_reference & FILE_REF_MASK;
            let pr = r.parent_reference & FILE_REF_MASK;
            let t1 = t.insert(fr, (utf16_lossy_of(r.name_units), pr));
            let rest = spec_ingest(t1, recs.drop_first(), drive);
            (rest.0, seq![pend_view_of(r, drive)] + rest.1)
        } else {
            spec_ingest(t, recs.drop_first(), drive)
        }
    }
}

/// Digest one enumeration batch: parse its records, record each named
/// one in the table, and append its partial entry. Returns the cursor
/// for the next enumeration call, read from the head of the buffer.
pub fn process_mft_batch(
    buf: &Vec<u8>,
    bytes_returned: usize,
    drive: char,
    table: &mut ReferenceTable,
    pending: &mut Vec<PendingEntry>,
) -> (next: u64)
    requires
        8 <= bytes_returned <= buf.len(),
    ensures
        next == le64(buf@, 0),
        ({
            let recs = spec_parse_usn(buf@, 8, bytes_returned as int, buf@.len() as int).0;
            let goal = spec_ingest(table_model(old(table)@), recs, drive);
            &&& table_model(final(table)@) == goal.0
            &&& final(pending)@.map_values(|p: PendingEntry| p@) == old(pending)@.map_values(
                |p: PendingEntry| p@,
            ) + goal.1
        }),
{
    let next = crate::usn::batch_cursor(buf);
    let (records, _end) = parse_records_from(buf, 8, bytes_returned);
    let ghost recs = spec_parse_usn(buf@, 8, bytes_returned as int, buf@.len() as int).0;
    let ghost goal = spec_ingest(table_model(old(table)@), recs, drive);
    let ghost pend0 = old(pending)@.map_values(|p: PendingEntry| p@);
    let n = records.len();
    let mut i: usize = 0;
    proof {
        assert(recs.skip(0) =~= recs);
    }
    while i < n
        invariant
            n == records@.len(),
            records@.map_values(|u: UsnRecord| u@) == recs,
            i <= n,
            goal == spec_ingest(table_model(old(table)@), recs, drive),
            pend0 == old(pending)@.map_values(|p: PendingEntry| p@),
            goal.0 == spec_ingest(table_model(table@), recs.skip(i as int), drive).0,
            pend0 + goal.1 == pending@.map_values(|p: PendingEntry| p@) + spec_ingest(
                table_model(table@),
                recs.skip(i as int),
                drive,
            ).1,
        decreases n - i,
    {
        let ghost pre_model = table_model(table@);
        let ghost cur = spec_ingest(pre_model, recs.skip(i as int), drive);
        proof {
            assert(recs.skip(i as int).drop_first() =~= recs.skip(i + 1 as int));
            assert(recs.skip(i as int)[0] == recs[i as int]);
        }
        let rec = &records[i];
        if rec.name_units.len() > 0 {
            let name = utf16_lossy(&rec.name_units);
            let fr = rec.file_reference & FILE_REF_MASK;
            let pr = rec.parent_reference & FILE_REF_MASK;
            let is_dir = (rec.file_attributes & ATTR_DIRECTORY) != 0;
            let is_hidden = (rec.file_attributes & ATTR_HIDDEN) != 0;
            let is_system = (rec.file_attributes & ATTR_SYSTEM) != 0;
            let extension: Option<String> = if is_dir {
                None
            } else {
                extension_of(name.as_str())
            };
            table.insert(fr, name.clone(), pr);
            let entry = FileEntry {
                path: String::new(),
                name,
                extension,
                size: 0,
                created: None,
                modified: None,
                accessed: None,
                is_dir,
                is_hidden,
                is_system,
                content_hash: None,
                parent: String::new(),
                drive,
            };
            let pe = PendingEntry { file_reference: fr, parent_reference: pr, entry };
            let ghost old_pending = pending@;
            pending.push(pe);
            proof {
                assert(table_model(table@) =~= pre_model.insert(
                    fr,
                    (utf16_lossy_of(recs[i as int].name_units), pr),
                ));
                assert(pe@ =~= pend_view_of(recs[i as int], drive));
                assert(pending@.map_values(|p: PendingEntry| p@) =~= old_pending.map_values(
                    |p: PendingEntry| p@,
                ) + seq![pend_view_of(recs[i as int], drive)]);
                assert(pend0 + goal.1 =~= pending@.map_values(|p: PendingEntry| p@)
                    + spec_ingest(table_model(table@), recs.skip(i + 1 as int), drive).1);
            }
        }
        i = i + 1;
    }
    proof {
        assert(recs.skip(n as int) =~= Seq::<RecView>::empty());
        assert(pend0 + goal.1 =~= pending@.map_values(|p: PendingEntry| p@));
    }
    next
}

/// The entries that resolution yields: each pending entry whose path
/// resolves non-empty, with its path and parent filled in; the rest
/// are dropped.
pub open spec fn spec_resolve_entries(m: Map<u64, RefData>, pend: Seq<PendView>) -> Seq<EntryView>
    decreases pend.len(),
{
    if pend.len() == 0 {
        Seq::empty()
    } else {
        let p = spec_resolve(m, pend[0].file_reference, Set::empty());
        let rest = spec_resolve_entries(m, pend.drop_first());
        if p.len() == 0 {
            rest
        } else {
            let e = EntryView {
                path: p,
                parent: spec_resolve(m, pend[0].parent_reference, Set::empty()),
                ..pend[0].entry
            };
            seq![e] + rest
        }
    }
}

/// Resolve the accumulated entries against the finished table. Entries
/// whose reference does not resolve are dropped; every returned entry
/// has a non-empty path.
pub fn resolve_entries(table: &ReferenceTable, pending: Vec<PendingEntry>) -> (out: Vec<FileEntry>)
    ensures
        out@.map_values(|e: FileEntry| e@) == spec_resolve_entries(
            table@,
            pending@.map_values(|p: PendingEntry| p@),
        ),
        forall|i: int| 0 <= i < out@.len() ==> (#[trigger] out@[i])@.path.len() > 0,
{
    let ghost pend = pending@.map_values(|p: PendingEntry| p@);
    let ghost goal = spec_resolve_entries(table@, pend);
    let mut cache = PathCache::new();
    let mut out: Vec<FileEntry> = Vec::new();
    let n = pending.len();
    let mut i: usize = 0;
    proof {
        assert(pend.skip(0) =~= pend);
    }
    while i < n
        invariant
            n == pending@.len(),
            pend == pending@.map_values(|p: PendingEntry| p@),
            i <= n,
            cache_ok(cache@, table@),
            goal == spec_resolve_entries(table@, pend),
            goal == out@.map_values(|e: FileEntry| e@) + spec_resolve_entries(
                table@,
                pend.skip(i as int),
            ),
            forall|k: int| 0 <= k < out@.len() ==> (#[trigger] out@[k])@.path.len() > 0,
        decreases n - i,
    {
        proof {
            assert(pend.skip(i as int).drop_first() =~= pend.skip(i + 1 as int));
            assert(pend.skip(i as int)[0] == pend[i as int]);
        }
        let pe = &pending[i];
        let path = resolve_path(table, &mut cache, pe.file_reference);
        if !path.as_str().is_empty() {
            let parent = resolve_path(table, &mut cache, pe.parent_reference);
            let mut entry = pe.entry.clone();
            entry.path = path;
            entry.parent = parent;
            let ghost old_out = out@;
            out.push(entry);
            proof {
                let ev = EntryView {
                    path: spec_resolve(table@, pend[i as int].file_reference, Set::empty()),
                    parent: spec_resolve(table@, pend[i as int].parent_reference, Set::empty()),
                    ..pend[i as int].entry
                };
                assert(out@[out@.len() - 1]@ =~= ev);
                assert(out@.map_values(|e: FileEntry| e@) =~= old_out.map_values(
                    |e: FileEntry| e@,
                ) + seq![ev]);
                assert(goal =~= out@.map_values(|e: FileEntry| e@) + spec_resolve_entries(
                    table@,
                    pend.skip(i + 1 as int),
                ));
            }
        }
        i = i + 1;
    }
    proof {
        assert(pend.skip(n as int) =~= Seq::<PendView>::empty());
        assert(goal =~= out@.map_values(|e: FileEntry| e@));
    }
    out
}

/// Every file the enumeration pass accumulates carries exactly the
/// extension its name derives: the lowercased suffix after the last
/// dot, absent when the name has no dot past its first character.
pub proof fn law_ingested_extension(
    t: Map<u64, (Seq<char>, u64)>,
    recs: Seq<RecView>,
    drive: char,
)
    ensures
        forall|i: int|
            0 <= i < spec_ingest(t, recs, drive).1.len() ==> {
                let e = (#[trigger] spec_ingest(t, recs, drive).1[i]).entry;
                !e.is_dir ==> e.extension == spec_extension(e.name)
            },
    decreases recs.len(),
{
    if recs.len() > 0 {
        law_ingested_extension(t, recs.drop_first(), drive);
        let r = recs[0];
        if r.name_units.len() > 0 {
            let fr = r.file_reference & FILE_REF_MASK;
            let pr = r.parent_reference & FILE_REF_MASK;
            let t1 = t.insert(fr, (utf16_lossy_of(r.name_units), pr));
            law_ingested_extension(t1, recs.drop_first(), drive);
        }
    }
}

/// Field agreement between a resolved entry and the pending record it
/// came from: everything but path and parent.
pub open spec fn same_record_fields(e: EntryView, p: EntryView) -> bool {
    &&& e.name == p.name
    &&& e.extension == p.extension
    &&& e.is_dir == p.is_dir
    &&& e.is_hidden == p.is_hidden
    &&& e.is_system == p.is_system
    &&& e.size == p.size
    &&& e.drive == p.drive
}

/// A resolved entry keeps the name, extension, attribute flags, size
/// and drive of some pending record; only path and parent change.
pub proof fn lemma_resolution_preserves_fields(m: Map<u64, RefData>, pend: Seq<PendView>)
    ensures
        forall|i: int|
            0 <= i < spec_resolve_entries(m, pend).len() ==> exists|j: int|
                0 <= j < pend.len() && same_record_fields(
                    #[trigger] spec_resolve_entries(m, pend)[i],
                    (#[trigger] pend[j]).entry,
                ),
    decreases pend.len(),
{
    if pend.len() > 0 {
        lemma_resolution_preserves_fields(m, pend.drop_first());
        let p0 = spec_resolve(m, pend[0].file_reference, Set::empty());
        let rest = spec_resolve_entries(m, pend.drop_first());
        let whole = spec_resolve_entries(m, pend);
        assert forall|i: int| 0 <= i < whole.len() implies exists|j: int|
            0 <= j < pend.len() && same_record_fields(
                #[trigger] whole[i],
                (#[trigger] pend[j]).entry,
            ) by {
            if p0.len() > 0 && i == 0 {
                assert(same_record_fields(whole[0], pend[0].entry));
            } else {
                let k: int = if p0.len() == 0 {
                    i
                } else {
                    i - 1
                };
                assert(whole[i] == rest[k]);
                let j0 = choose|j: int|
                    0 <= j < pend.drop_first().len() && same_record_fields(
                        #[trigger] rest[k],
                        (#[trigger] pend.drop_first()[j]).entry,
                    );
                assert(pend[j0 + 1].entry == pend.drop_first()[j0].entry);
                assert(same_record_fields(whole[i], pend[j0 + 1].entry));
            }
        }
    }
}

/// Every entry that resolution keeps has a non-empty path.
pub proof fn lemma_resolved_paths_nonempty(m: Map<u64, RefData>, pend: Seq<PendView>)
    ensures
        forall|i: int|
            0 <= i < spec_resolve_entries(m, pend).len() ==> (#[trigger] spec_resolve_entries(
                m,
                pend,
            )[i]).path.len() > 0,
    decreases pend.len(),
{
    if pend.len() > 0 {
        lemma_resolved_paths_nonempty(m, pend.drop_first());
    }
}

/// Entries accepted from one enumeration pass satisfy the entry
/// invariant's first two clauses: a non-empty path, and for files
/// exactly the extension the name derives.
pub proof fn law_enumerated_entries_well_formed(
    t: Map<u64, (Seq<char>, u64)>,
    recs: Seq<RecView>,
    drive: char,
    m: Map<u64, RefData>,
)
    ensures
        ({
            let out = spec_resolve_entries(m, spec_ingest(t, recs, drive).1);
            forall|i: int|
                0 <= i < out.len() ==> {
                    let e = #[trigger] out[i];
                    &&& e.path.len() > 0
                    &&& !e.is_dir ==> e.extension == spec_extension(e.name)
                }
        }),
{
    let pend = spec_ingest(t, recs, drive).1;
    let out = spec_resolve_entries(m, pend);
    lemma_resolved_paths_nonempty(m, pend);
    lemma_resolution_preserves_fields(m, pend);
    law_ingested_extension(t, recs, drive);
    assert forall|i: int| 0 <= i < out.len() implies {
        let e = #[trigger] out[i];
        &&& e.path.len() > 0
        &&& !e.is_dir ==> e.extension == spec_extension(e.name)
    } by {
        let j = choose|j: int|
            0 <= j < pend.len() && same_record_fields(out[i], (#[trigger] pend[j]).entry);
        assert(!pend[j].entry.is_dir ==> pend[j].entry.extension == spec_extension(
            pend[j].entry.name,
        ));
    }
}

/// When the parent of a reference resolves the same whether or not the
/// reference itself is under resolution — as on every table without a
/// cycle through it — the resolved parent path is a prefix of the
/// resolved path.
pub proof fn law_resolved_parent_is_prefix(m: Map<u64, RefData>, fr: u64)
    requires
        m.dom().finite(),
        m.dom().contains(fr),
        m[fr].parent != 0,
        m[fr].parent != fr,
        spec_resolve(m, m[fr].parent, Set::empty().insert(fr)) == spec_resolve(
            m,
            m[fr].parent,
            Set::empty(),
        ),
    ensures
        is_prefix_of(
            spec_resolve(m, m[fr].parent, Set::empty()),
            spec_resolve(m, fr, Set::empty()),
        ),
{
    let pp = spec_resolve(m, m[fr].parent, Set::empty());
    let full = spec_resolve(m, fr, Set::empty());
    assert(full == pp + seq!['\\'] + m[fr].name@);
    assert(full.subrange(0, pp.len() as int) =~= pp);
}

} // verus!
