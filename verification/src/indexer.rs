//! The indexing orchestrator's logic: configuration, the inclusion
//! policy, and the merge of scanned entries into the shared map with
//! running statistics.

use vstd::prelude::*;
use crate::entry::{EntryView, FileEntry};
use crate::entry_map::{EntryMap, entry_map_model};
use crate::text::{ascii_eq_ignore_case, contains_seq, str_contains, str_eq_ignore_ascii_case};

verus! {

/// Options governing what is indexed and how.
pub struct IndexConfig {
    /// Drives to index.
    pub drives: Vec<char>,
    /// Include entries with the hidden attribute.
    pub include_hidden: bool,
    /// Include entries with the system attribute.
    pub include_system: bool,
    /// Compute content hashes for duplicate screening.
    pub compute_hashes: bool,
    /// Largest file size that will be hashed, in bytes.
    pub max_hash_size: u64,
    /// Extensions to index; empty means all.
    pub extensions: Vec<String>,
    /// Path substrings whose entries are excluded.
    pub exclude_dirs: Vec<String>,
    /// Prefer volume enumeration where the platform offers it.
    pub use_mft: bool,
    /// Number of parallel workers.
    pub threads: usize,
}

/// Mathematical value of a configuration.
#[verifier::ext_equal]
pub ghost struct ConfigView {
    pub drives: Seq<char>,
    pub include_hidden: bool,
    pub include_system: bool,
    pub compute_hashes: bool,
    pub max_hash_size: u64,
    pub extensions: Seq<Seq<char>>,
    pub exclude_dirs: Seq<Seq<char>>,
    pub use_mft: bool,
    pub threads: usize,
}

impl View for IndexConfig {
    type V = ConfigView;

    open spec fn view(&self) -> ConfigView {
        ConfigView {
            drives: self.drives@,
            include_hidden: self.include_hidden,
            include_system: self.include_system,
            compute_hashes: self.compute_hashes,
            max_hash_size: self.max_hash_size,
            extensions: self.extensions.deep_view(),
            exclude_dirs: self.exclude_dirs.deep_view(),
            use_mft: self.use_mft,
            threads: self.threads,
        }
    }
}

/// Copy a vector of characters.
fn clone_char_vec(v: &Vec<char>) -> (r: Vec<char>)
    ensures
        r@ == v@,
{
    let mut r: Vec<char> = Vec::new();
    let n = v.len();
    let mut i: usize = 0;
    while i < n
        invariant
            n == v@.len(),
            i <= n,
            r@ == v@.subrange(0, i as int),
        decreases n - i,
    {
        r.push(v[i]);
        proof {
            assert(r@ =~= v@.subrange(0, i + 1 as int));
        }
        i = i + 1;
    }
    proof {
        assert(r@ =~= v@);
    }
    r
}

/// Copy a vector of strings.
fn clone_string_vec(v: &Vec<String>) -> (r: Vec<String>)
    ensures
        r.deep_view() == v.deep_view(),
{
    let mut r: Vec<String> = Vec::new();
    let n = v.len();
    let mut i: usize = 0;
    while i < n
        invariant
            n == v@.len(),
            i <= n,
            r@.len() == i,
            forall|k: int| 0 <= k < i ==> (#[trigger] r@[k])@ == v@[k]@,
        decreases n - i,
    {
        r.push(v[i].clone());
        i = i + 1;
    }
    proof {
        assert(r.deep_view() =~= v.deep_view());
    }
    r
}

impl Clone for IndexConfig {
    fn clone(&self) -> (r: Self)
        ensures
            r@ == self@,
    {
        let r = IndexConfig {
            drives: clone_char_vec(&self.drives),
            include_hidden: self.include_hidden,
            include_system: self.include_system,
            compute_hashes: self.compute_hashes,
            max_hash_size: self.max_hash_size,
            extensions: clone_string_vec(&self.extensions),
            exclude_dirs: clone_string_vec(&self.exclude_dirs),
            use_mft: self.use_mft,
            threads: self.threads,
        };
        proof {
            assert(r@ =~= self@);
        }
        r
    }
}

/// Relies on num_cpus::get: the number of logical processors, always
/// at least one.
#[verifier::external_body]
fn logical_cpu_count() -> (n: usize)
    ensures
        n >= 1,
{
    num_cpus::get()
}

impl Default for IndexConfig {
    /// The default configuration: drives C through G, hidden entries
    /// kept, system entries dropped, no hashing, the well-known system
    /// directories excluded, volume enumeration on, one worker per
    /// processor.
    fn default() -> (c: Self)
        ensures
            c@.drives == seq!['C', 'D', 'E', 'F', 'G'],
            c@.include_hidden,
            !c@.include_system,
            !c@.compute_hashes,
            c@.max_hash_size == 104857600,
            c@.extensions.len() == 0,
            c@.exclude_dirs.len() == 6,
            c@.exclude_dirs[0] == "$Recycle.Bin"@,
            c@.exclude_dirs[1] == "System Volume Information"@,
            c@.exclude_dirs[2] == "Windows"@,
            c@.exclude_dirs[3] == "Program Files"@,
            c@.exclude_dirs[4] == "Program Files (x86)"@,
            c@.exclude_dirs[5] == "ProgramData"@,
            c@.use_mft,
            c@.threads >= 1,
    {
        let mut drives: Vec<char> = Vec::new();
        drives.push('C');
        drives.push('D');
        drives.push('E');
        drives.push('F');
        drives.push('G');
        let mut exclude_dirs: Vec<String> = Vec::new();
        exclude_dirs.push(String::from_str("$Recycle.Bin"));
        exclude_dirs.push(String::from_str("System Volume Information"));
        exclude_dirs.push(String::from_str("Windows"));
        exclude_dirs.push(String::from_str("Program Files"));
        exclude_dirs.push(String::from_str("Program Files (x86)"));
        exclude_dirs.push(String::from_str("ProgramData"));
        let c = IndexConfig {
            drives,
            include_hidden: true,
            include_system: false,
            compute_hashes: false,
            max_hash_size: 100 * 1024 * 1024,
            extensions: Vec::new(),
            exclude_dirs,
            use_mft: true,
            threads: logical_cpu_count(),
        };
        proof {
            assert(c@.drives =~= seq!['C', 'D', 'E', 'F', 'G']);
            assert(c@.extensions =~= Seq::<Seq<char>>::empty());
        }
        c
    }
}

/// The inclusion policy: an entry is kept unless it is hidden or
/// system while those are excluded, its path contains an excluded
/// substring, or an extension filter is set and the entry is a file
/// whose extension is not among the configured ones.
pub open spec fn spec_included(cfg: ConfigView, e: EntryView) -> bool {
    &&& (cfg.include_hidden || !e.is_hidden)
    &&& (cfg.include_system || !e.is_system)
    &&& !(exists|i: int|
        0 <= i < cfg.exclude_dirs.len() && contains_seq(e.path, #[trigger] cfg.exclude_dirs[i]))
    &&& (cfg.extensions.len() == 0 || e.is_dir || (match e.extension {
        Some(x) => exists|i: int|
            0 <= i < cfg.extensions.len() && ascii_eq_ignore_case(
                #[trigger] cfg.extensions[i],
                x,
            ),
        None => false,
    }))
}

/// Statistics of one indexing run.
#[derive(Debug)]
pub struct IndexStats {
    /// Files accepted.
    pub total_files: u64,
    /// Directories accepted.
    pub total_dirs: u64,
    /// Sum of accepted file sizes, wrapping on overflow.
    pub total_size: u64,
    /// Wall time of the run in milliseconds.
    pub index_time_ms: u64,
    /// Every drive the run was configured to index.
    pub drives_indexed: Vec<char>,
}

impl Default for IndexStats {
    /// Zero counts and no drives.
    fn default() -> (s: Self)
        ensures
            s.total_files == 0,
            s.total_dirs == 0,
            s.total_size == 0,
            s.index_time_ms == 0,
            s.drives_indexed@.len() == 0,
    {
        IndexStats {
            total_files: 0,
            total_dirs: 0,
            total_size: 0,
            index_time_ms: 0,
            drives_indexed: Vec::new(),
        }
    }
}

impl Clone for IndexStats {
    fn clone(&self) -> (r: Self)
        ensures
            r.total_files == self.total_files,
            r.total_dirs == self.total_dirs,
            r.total_size == self.total_size,
            r.index_time_ms == self.index_time_ms,
            r.drives_indexed@ == self.drives_indexed@,
    {
        IndexStats {
            total_files: self.total_files,
            total_dirs: self.total_dirs,
            total_size: self.total_size,
            index_time_ms: self.index_time_ms,
            drives_indexed: clone_char_vec(&self.drives_indexed),
        }
    }
}

/// Addition on byte totals, wrapping as the 64-bit counters do.
pub open spec fn wrap_add64(x: u64, y: u64) -> u64 {
    if x + y > u64::MAX {
        (x + y - 0x10000000000000000) as u64
    } else {
        (x + y) as u64
    }
}

/// The running totals of a merge: the map contents and the counters.
/// The counters wrap on overflow, as the run's shared atomics do.
#[verifier::ext_equal]
pub ghost struct Tally {
    pub map: Map<Seq<char>, EntryView>,
    pub files: u64,
    pub dirs: u64,
    pub size: u64,
}

/// Merging candidates front to back: an included entry replaces the
/// map entry under its path and bumps the counters; the rest pass by.
pub open spec fn spec_apply(cfg: ConfigView, t: Tally, s: Seq<EntryView>) -> Tally
    decreases s.len(),
{
    if s.len() == 0 {
        t
    } else {
        let e = s[0];
        let t1 = if spec_included(cfg, e) {
            Tally {
                map: t.map.insert(e.path, e),
                files: if e.is_dir {
                    t.files
                } else {
                    wrap_add64(t.files, 1)
                },
                dirs: if e.is_dir {
                    wrap_add64(t.dirs, 1)
                } else {
                    t.dirs
                },
                size: if e.is_dir {
                    t.size
                } else {
                    wrap_add64(t.size, e.size)
                },
            }
        } else {
            t
        };
        spec_apply(cfg, t1, s.drop_first())
    }
}

/// One drive's raw scan: the drive tag and every candidate entry the
/// scan produced, before the inclusion policy is applied.
pub struct DriveScan {
    /// The scanned drive.
    pub drive: char,
    /// Candidate entries of that drive.
    pub entries: Vec<FileEntry>,
}

/// Merging a sequence of scans, drive after drive.
pub open spec fn spec_apply_scans(cfg: ConfigView, t: Tally, scans: Seq<Seq<EntryView>>) -> Tally
    decreases scans.len(),
{
    if scans.len() == 0 {
        t
    } else {
        spec_apply_scans(cfg, spec_apply(cfg, t, scans[0]), scans.drop_first())
    }
}

/// The fast file indexer: policy, merge and statistics. The blocking
/// scans themselves run outside the core and hand their results in.
pub struct FastIndexer {
    /// The configuration this indexer applies.
    pub config: IndexConfig,
    /// Builds entries from walked paths and their metadata.
    pub metadata_extractor: crate::metadata::MetadataExtractor,
    /// Hashes contents for duplicate screening.
    pub content_hasher: crate::hashing::ContentHasher,
}

impl FastIndexer {
    /// An indexer for `config`.
    pub fn new(config: IndexConfig) -> (r: Self)
        ensures
            r.config@ == config@,
            r.content_hasher.max_size == config.max_hash_size,
            !r.metadata_extractor.follow_symlinks,
    {
        let max = config.max_hash_size;
        FastIndexer {
            config,
            metadata_extractor: crate::metadata::MetadataExtractor::new(),
            content_hasher: crate::hashing::ContentHasher::new(max),
        }
    }

    /// Whether the inclusion policy keeps `entry`.
    pub fn should_include(&self, entry: &FileEntry) -> (b: bool)
        ensures
            b == spec_included(self.config@, entry@),
    {
        if !self.config.include_hidden && entry.is_hidden {
            return false;
        }
        if !self.config.include_system && entry.is_system {
            return false;
        }
        let ghost cfg = self.config@;
        let ghost ev = entry@;
        let nex = self.config.exclude_dirs.len();
        let mut i: usize = 0;
        while i < nex
            invariant
                nex == cfg.exclude_dirs.len(),
                cfg == self.config@,
                ev == entry@,
                cfg.include_hidden || !ev.is_hidden,
                cfg.include_system || !ev.is_system,
                i <= nex,
                forall|k: int| 0 <= k < i ==> !contains_seq(ev.path, #[trigger] cfg.exclude_dirs[k]),
            decreases nex - i,
        {
            if str_contains(entry.path.as_str(), self.config.exclude_dirs[i].as_str()) {
                proof {
                    assert(contains_seq(ev.path, cfg.exclude_dirs[i as int]));
                }
                return false;
            }
            i = i + 1;
        }
        if self.config.extensions.len() > 0 && !entry.is_dir {
            match &entry.extension {
                Some(ext) => {
                    let nxt = self.config.extensions.len();
                    let mut j: usize = 0;
                    while j < nxt
                        invariant
                            nxt == cfg.extensions.len(),
                            cfg == self.config@,
                            ev == entry@,
                            ev.extension == Some(ext@),
                            !ev.is_dir,
                            cfg.include_hidden || !ev.is_hidden,
                            cfg.include_system || !ev.is_system,
                            forall|k: int|
                                0 <= k < cfg.exclude_dirs.len() ==> !contains_seq(
                                    ev.path,
                                    #[trigger] cfg.exclude_dirs[k],
                                ),
                            j <= nxt,
                            forall|k: int|
                                0 <= k < j ==> !ascii_eq_ignore_case(
                                    #[trigger] cfg.extensions[k],
                                    ext@,
                                ),
                        decreases nxt - j,
                    {
                        if str_eq_ignore_ascii_case(self.config.extensions[j].as_str(), ext.as_str())
                        {
                            proof {
                                assert(ascii_eq_ignore_case(cfg.extensions[j as int], ext@));
                            }
                            return true;
                        }
                        j = j + 1;
                    }
                    return false;
                },
                None => {
                    return false;
                },
            }
        }
        true
    }

    /// Merge one batch of candidates into the shared map, applying the
    /// inclusion policy and advancing the counters.
    pub fn apply_entries(
        &self,
        candidates: &Vec<FileEntry>,
        map: &mut EntryMap,
        files: &mut u64,
        dirs: &mut u64,
        size: &mut u64,
    )
        ensures
            ({
                let g = spec_apply(
                    self.config@,
                    Tally {
                        map: entry_map_model(old(map)),
                        files: *old(files),
                        dirs: *old(dirs),
                        size: *old(size),
                    },
                    candidates@.map_values(|e: FileEntry| e@),
                );
                &&& entry_map_model(final(map)) == g.map
                &&& *final(files) == g.files
                &&& *final(dirs) == g.dirs
                &&& *final(size) == g.size
            }),
    {
        let ghost cfg = self.config@;
        let ghost cand = candidates@.map_values(|e: FileEntry| e@);
        let ghost goal = spec_apply(
            cfg,
            Tally {
                map: entry_map_model(old(map)),
                files: *old(files),
                dirs: *old(dirs),
                size: *old(size),
            },
            cand,
        );
        let n = candidates.len();
        let mut i: usize = 0;
        proof {
            assert(cand.skip(0) =~= cand);
        }
        while i < n
            invariant
                n == candidates@.len(),
                cand == candidates@.map_values(|e: FileEntry| e@),
                cfg == self.config@,
                i <= n,
                goal == spec_apply(
                    cfg,
                    Tally {
                        map: entry_map_model(map),
                        files: *files,
                        dirs: *dirs,
                        size: *size,
                    },
                    cand.skip(i as int),
                ),
            decreases n - i,
        {
            proof {
                assert(cand.skip(i as int).drop_first() =~= cand.skip(i + 1 as int));
                assert(cand.skip(i as int)[0] == cand[i as int]);
            }
            let entry = &candidates[i];
            if self.should_include(entry) {
                if entry.is_dir {
                    *dirs = dirs.wrapping_add(1);
                } else {
                    *files = files.wrapping_add(1);
                    *size = size.wrapping_add(entry.size);
                }
                map.insert(entry.clone());
            }
            i = i + 1;
        }
        proof {
            assert(cand.skip(n as int) =~= Seq::<EntryView>::empty());
        }
    }

    /// Merge every drive's scan into a fresh shared map and report the
    /// accepted entries with the run's statistics. With no scans — as
    /// with an empty configured drive set — the entry set is empty and
    /// every count is zero.
    pub fn index_all(&self, scans: &Vec<DriveScan>, elapsed_ms: u64) -> (r: (
        Vec<FileEntry>,
        IndexStats,
    ))
        ensures
            ({
                let g = spec_apply_scans(
                    self.config@,
                    Tally { map: Map::empty(), files: 0, dirs: 0, size: 0 },
                    scans@.map_values(|s: DriveScan| s.entries@.map_values(|e: FileEntry| e@)),
                );
                &&& r.1.total_files == g.files
                &&& r.1.total_dirs == g.dirs
                &&& r.1.total_size == g.size
                &&& r.1.index_time_ms == elapsed_ms
                &&& r.1.drives_indexed@ == self.config.drives@
                &&& r.0@.len() == g.map.dom().len()
                &&& forall|i: int|
                    0 <= i < r.0@.len() ==> {
                        &&& g.map.contains_key((#[trigger] r.0@[i])@.path)
                        &&& g.map[r.0@[i]@.path] == r.0@[i]@
                    }
                &&& forall|i: int, j: int|
                    0 <= i < j < r.0@.len() ==> (#[trigger] r.0@[i])@.path != (
                    #[trigger] r.0@[j])@.path
            }),
            scans@.len() == 0 ==> r.0@.len() == 0 && r.1.total_files == 0 && r.1.total_dirs == 0
                && r.1.total_size == 0,
    {
        let mut map = EntryMap::new();
        let mut files: u64 = 0;
        let mut dirs: u64 = 0;
        let mut size: u64 = 0;
        let ghost cfg = self.config@;
        let ghost all = scans@.map_values(
            |s: DriveScan| s.entries@.map_values(|e: FileEntry| e@),
        );
        let ghost goal = spec_apply_scans(
            cfg,
            Tally { map: Map::empty(), files: 0, dirs: 0, size: 0 },
            all,
        );
        let n = scans.len();
        let mut i: usize = 0;
        proof {
            assert(all.skip(0) =~= all);
        }
        while i < n
            invariant
                n == scans@.len(),
                cfg == self.config@,
                all == scans@.map_values(|s: DriveScan| s.entries@.map_values(|e: FileEntry| e@)),
                i <= n,
                goal == spec_apply_scans(
                    cfg,
                    Tally {
                        map: entry_map_model(&map),
                        files: files,
                        dirs: dirs,
                        size: size,
                    },
                    all.skip(i as int),
                ),
            decreases n - i,
        {
            proof {
                assert(all.skip(i as int).drop_first() =~= all.skip(i + 1 as int));
                assert(all.skip(i as int)[0] == all[i as int]);
            }
            let scan = &scans[i];
            self.apply_entries(&scan.entries, &mut map, &mut files, &mut dirs, &mut size);
            i = i + 1;
        }
        proof {
            assert(all.skip(n as int) =~= Seq::<Seq<EntryView>>::empty());
        }
        let entries = map.values();
        let stats = IndexStats {
            total_files: files,
            total_dirs: dirs,
            total_size: size,
            index_time_ms: elapsed_ms,
            drives_indexed: clone_char_vec(&self.config.drives),
        };
        (entries, stats)
    }

    /// Filter one directory walk's candidates by the inclusion policy
    /// and deduplicate them by path.
    pub fn index_directory(&self, walked: &Vec<FileEntry>) -> (r: Vec<FileEntry>)
        ensures
            ({
                let g = spec_apply(
                    self.config@,
                    Tally { map: Map::empty(), files: 0, dirs: 0, size: 0 },
                    walked@.map_values(|e: FileEntry| e@),
                );
                &&& r@.len() == g.map.dom().len()
                &&& forall|i: int|
                    0 <= i < r@.len() ==> {
                        &&& g.map.contains_key((#[trigger] r@[i])@.path)
                        &&& g.map[r@[i]@.path] == r@[i]@
                    }
                &&& forall|i: int, j: int|
                    0 <= i < j < r@.len() ==> (#[trigger] r@[i])@.path != (#[trigger] r@[j])@.path
            }),
    {
        let mut map = EntryMap::new();
        let mut files: u64 = 0;
        let mut dirs: u64 = 0;
        let mut size: u64 = 0;
        self.apply_entries(walked, &mut map, &mut files, &mut dirs, &mut size);
        map.values()
    }
}

/// Enabling the hidden or system switches only ever admits more
/// entries: anything included under the stricter configuration stays
/// included under the laxer one.
pub proof fn law_inclusion_flags_monotone(c1: ConfigView, c2: ConfigView, e: EntryView)
    requires
        c1.include_hidden ==> c2.include_hidden,
        c1.include_system ==> c2.include_system,
        c1.extensions == c2.extensions,
        c1.exclude_dirs == c2.exclude_dirs,
        spec_included(c1, e),
    ensures
        spec_included(c2, e),
{
}

/// Adding exclusion substrings only ever removes entries: anything
/// included under the larger exclusion list stays included under the
/// smaller one.
pub proof fn law_exclusions_antitone(c1: ConfigView, c2: ConfigView, e: EntryView)
    requires
        c1.include_hidden == c2.include_hidden,
        c1.include_system == c2.include_system,
        c1.extensions == c2.extensions,
        forall|i: int|
            0 <= i < c1.exclude_dirs.len() ==> exists|j: int|
                0 <= j < c2.exclude_dirs.len() && #[trigger] c1.exclude_dirs[i]
                    == c2.exclude_dirs[j],
        spec_included(c2, e),
    ensures
        spec_included(c1, e),
{
    assert forall|i: int|
        0 <= i < c1.exclude_dirs.len() implies !contains_seq(
        e.path,
        #[trigger] c1.exclude_dirs[i],
    ) by {
        let j = choose|j: int|
            0 <= j < c2.exclude_dirs.len() && c1.exclude_dirs[i] == c2.exclude_dirs[j];
        assert(!contains_seq(e.path, c2.exclude_dirs[j]));
    }
}

} // verus!
