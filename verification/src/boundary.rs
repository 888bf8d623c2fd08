//! The computations behind the foreign boundary: statistics over the
//! cached entries, case-insensitive name search, and duplicate-group
//! counting. The pointer handling of the boundary itself lives outside
//! the core.

use vstd::prelude::*;
use crate::entry::{EntryView, FileEntry};
use crate::indexer::wrap_add64;
use crate::text::{chars_contains, contains_seq, lower_of, lowercase, str_to_chars};

verus! {

/// Aggregate statistics handed across the foreign boundary.
#[derive(Debug, Clone, Copy, PartialEq, Eq, Structural)]
pub struct FfiIndexStats {
    /// Files among the cached entries.
    pub total_files: u64,
    /// Directories among the cached entries.
    pub total_dirs: u64,
    /// Sum of cached file sizes, wrapping on overflow.
    pub total_size: u64,
    /// Wall time of the last run, in milliseconds.
    pub index_time_ms: u64,
}

/// Counts over a sequence of entries, front to back: files,
/// directories, and the wrapping sum of file sizes.
pub open spec fn spec_entry_stats(s: Seq<EntryView>) -> (u64, u64, u64)
    decreases s.len(),
{
    if s.len() == 0 {
        (0u64, 0u64, 0u64)
    } else {
        let rest = spec_entry_stats(s.drop_first());
        if s[0].is_dir {
            (rest.0, wrap_add64(rest.1, 1), rest.2)
        } else {
            (wrap_add64(rest.0, 1), rest.1, wrap_add64(rest.2, s[0].size))
        }
    }
}

/// The statistics of the cached entries; the run time is not known
/// here and reported as zero.
pub fn stats_of_entries(entries: &Vec<FileEntry>) -> (r: FfiIndexStats)
    ensures
        ({
            let g = spec_entry_stats(entries@.map_values(|e: FileEntry| e@));
            &&& r.total_files == g.0
            &&& r.total_dirs == g.1
            &&& r.total_size == g.2
            &&& r.index_time_ms == 0
        }),
{
    let ghost s = entries@.map_values(|e: FileEntry| e@);
    let n = entries.len();
    let mut files: u64 = 0;
    let mut dirs: u64 = 0;
    let mut size: u64 = 0;
    let mut i: usize = n;
    proof {
        assert(s.skip(n as int) =~= Seq::<EntryView>::empty());
    }
    while i > 0
        invariant
            n == entries@.len(),
            s == entries@.map_values(|e: FileEntry| e@),
            i <= n,
            spec_entry_stats(s.skip(i as int)) == (files, dirs, size),
        decreases i,
    {
        i = i - 1;
        proof {
            assert(s.skip(i as int).drop_first() =~= s.skip(i + 1 as int));
            assert(s.skip(i as int)[0] == s[i as int]);
        }
        let e = &entries[i];
        if e.is_dir {
            dirs = dirs.wrapping_add(1);
        } else {
            files = files.wrapping_add(1);
            size = size.wrapping_add(e.size);
        }
    }
    proof {
        assert(s.skip(0) =~= s);
    }
    FfiIndexStats { total_files: files, total_dirs: dirs, total_size: size, index_time_ms: 0 }
}

/// Case-insensitive substring search over entry names, front to back,
/// keeping at most `max` matches.
pub open spec fn spec_name_search(s: Seq<EntryView>, q: Seq<char>, max: int) -> Seq<EntryView>
    decreases s.len(),
{
    if s.len() == 0 || max <= 0 {
        Seq::empty()
    } else if contains_seq(lower_of(s[0].name), q) {
        seq![s[0]] + spec_name_search(s.drop_first(), q, max - 1)
    } else {
        spec_name_search(s.drop_first(), q, max)
    }
}

/// The entries whose lowercased name contains the lowercased query,
/// in insertion order, at most `max` of them.
pub fn search_entries_by_name(entries: &Vec<FileEntry>, query: &str, max: usize) -> (r: Vec<
    FileEntry,
>)
    ensures
        r@.map_values(|e: FileEntry| e@) == spec_name_search(
            entries@.map_values(|e: FileEntry| e@),
            lower_of(query@),
            max as int,
        ),
{
    let ghost s = entries@.map_values(|e: FileEntry| e@);
    let ghost q = lower_of(query@);
    let query_l = lowercase(query);
    let qchars = str_to_chars(query_l.as_str());
    let ghost goal = spec_name_search(s, q, max as int);
    let mut out: Vec<FileEntry> = Vec::new();
    let n = entries.len();
    let mut i: usize = 0;
    proof {
        assert(s.skip(0) =~= s);
        assert(out@.map_values(|e: FileEntry| e@) =~= Seq::<EntryView>::empty());
    }
    while i < n && out.len() < max
        invariant
            n == entries@.len(),
            s == entries@.map_values(|e: FileEntry| e@),
            q == lower_of(query@),
            qchars@ == q,
            i <= n,
            out@.len() <= max,
            goal == spec_name_search(s, q, max as int),
            goal == out@.map_values(|e: FileEntry| e@) + spec_name_search(
                s.skip(i as int),
                q,
                max - out@.len(),
            ),
        decreases n - i,
    {
        proof {
            assert(s.skip(i as int).drop_first() =~= s.skip(i + 1 as int));
            assert(s.skip(i as int)[0] == s[i as int]);
        }
        let e = &entries[i];
        let name_l = lowercase(e.name.as_str());
        let nchars = str_to_chars(name_l.as_str());
        if chars_contains(&nchars, &qchars) {
            let ghost old_out = out@;
            out.push(e.clone());
            proof {
                assert(out@.map_values(|x: FileEntry| x@) =~= old_out.map_values(
                    |x: FileEntry| x@,
                ) + seq![s[i as int]]);
            }
        }
        i = i + 1;
    }
    proof {
        if i < n {
            assert(out@.len() == max);
            assert(spec_name_search(s.skip(i as int), q, 0) =~= Seq::<EntryView>::empty());
        } else {
            assert(s.skip(i as int) =~= Seq::<EntryView>::empty());
        }
        assert(goal =~= out@.map_values(|e: FileEntry| e@));
    }
    out
}

/// An entry takes part in duplicate screening when it is a file at
/// least `min` bytes large.
pub open spec fn spec_qualifies(e: EntryView, min: u64) -> bool {
    !e.is_dir && e.size >= min
}

/// How many qualifying entries have exactly size `sz`.
pub open spec fn spec_count_size(s: Seq<EntryView>, min: u64, sz: u64) -> int
    decreases s.len(),
{
    if s.len() == 0 {
        0
    } else {
        (if spec_qualifies(s[0], min) && s[0].size == sz {
            1int
        } else {
            0int
        }) + spec_count_size(s.drop_first(), min, sz)
    }
}

/// The entry at `k` is the first qualifying entry of its size.
pub open spec fn spec_first_of_size(s: Seq<EntryView>, min: u64, k: int) -> bool {
    &&& spec_qualifies(s[k], min)
    &&& forall|j: int| 0 <= j < k ==> !(spec_qualifies(#[trigger] s[j], min) && s[j].size == s[k].size)
}

/// The number of duplicate groups among the first `k` entries: sizes
/// whose qualifying entries, over the whole sequence, number at least
/// two. Each size is counted at its first qualifying occurrence.
pub open spec fn spec_dup_groups_upto(s: Seq<EntryView>, min: u64, k: int) -> int
    decreases k,
{
    if k <= 0 {
        0
    } else {
        spec_dup_groups_upto(s, min, k - 1) + (if spec_first_of_size(s, min, k - 1)
            && spec_count_size(s, min, s[k - 1].size) >= 2 {
            1int
        } else {
            0int
        })
    }
}

/// The number of size buckets that hold two or more qualifying files.
pub open spec fn spec_dup_groups(s: Seq<EntryView>, min: u64) -> int {
    spec_dup_groups_upto(s, min, s.len() as int)
}

/// Count the qualifying entries of size `sz`.
fn count_of_size(entries: &Vec<FileEntry>, min: u64, sz: u64) -> (c: u64)
    ensures
        c == spec_count_size(entries@.map_values(|e: FileEntry| e@), min, sz),
        c <= entries@.len(),
{
    let ghost s = entries@.map_values(|e: FileEntry| e@);
    let n = entries.len();
    let mut c: u64 = 0;
    let mut i: usize = n;
    proof {
        assert(s.skip(n as int) =~= Seq::<EntryView>::empty());
    }
    while i > 0
        invariant
            n == entries@.len(),
            s == entries@.map_values(|e: FileEntry| e@),
            i <= n,
            c == spec_count_size(s.skip(i as int), min, sz),
            c <= n - i,
        decreases i,
    {
        i = i - 1;
        proof {
            assert(s.skip(i as int).drop_first() =~= s.skip(i + 1 as int));
            assert(s.skip(i as int)[0] == s[i as int]);
        }
        let e = &entries[i];
        if !e.is_dir && e.size >= min && e.size == sz {
            c = c + 1;
        }
    }
    proof {
        assert(s.skip(0) =~= s);
    }
    c
}

/// Count the size buckets holding at least two qualifying files, as
/// the duplicate pre-filter reports them.
pub fn count_duplicate_groups(entries: &Vec<FileEntry>, min_size: u64) -> (groups: u64)
    ensures
        groups == spec_dup_groups(entries@.map_values(|e: FileEntry| e@), min_size),
        groups <= entries@.len(),
{
    let ghost s = entries@.map_values(|e: FileEntry| e@);
    let n = entries.len();
    let mut groups: u64 = 0;
    let mut i: usize = 0;
    while i < n
        invariant
            n == entries@.len(),
            s == entries@.map_values(|e: FileEntry| e@),
            i <= n,
            groups == spec_dup_groups_upto(s, min_size, i as int),
            groups <= i,
        decreases n - i,
    {
        let e = &entries[i];
        if !e.is_dir && e.size >= min_size {
            let mut first = true;
            let mut j: usize = 0;
            while j < i
                invariant
                    n == entries@.len(),
                    s == entries@.map_values(|e2: FileEntry| e2@),
                    i < n,
                    j <= i,
                    e@ == s[i as int],
                    spec_qualifies(s[i as int], min_size),
                    first == forall|k: int|
                        0 <= k < j ==> !(spec_qualifies(#[trigger] s[k], min_size) && s[k].size
                            == s[i as int].size),
                decreases i - j,
            {
                let o = &entries[j];
                proof {
                    assert(s[j as int] == entries@.map_values(|e2: FileEntry| e2@)[j as int]);
                    assert(s[j as int] == entries@[j as int]@);
                }
                if !o.is_dir && o.size >= min_size && o.size == e.size {
                    proof {
                        assert(spec_qualifies(s[j as int], min_size) && s[j as int].size == s[
                            i as int].size);
                    }
                    first = false;
                } else {
                    proof {
                        assert(!(spec_qualifies(s[j as int], min_size) && s[j as int].size == s[
                            i as int].size));
                    }
                }
                j = j + 1;
            }
            if first {
                let total = count_of_size(entries, min_size, e.size);
                if total >= 2 {
                    groups = groups + 1;
                }
            }
            proof {
                if !first {
                    assert(!spec_first_of_size(s, min_size, i as int));
                }
            }
        } else {
            proof {
                assert(!spec_qualifies(s[i as int], min_size));
            }
        }
        i = i + 1;
    }
    groups
}

} // verus!
