//! The canonical file entry and the derivation of its named parts
//! (name, extension, parent, drive) from a path.

use vstd::prelude::*;
use crate::text::{
    lower_of, lowercase, string_from_chars, str_to_chars, to_upper_ascii, upper_char_ascii,
    dec_of, digit_char, push_dec, is_prefix_of,
};

verus! {

/// A file or directory known to the index.
///
/// Timestamps are UTC instants in whole seconds since the UNIX epoch;
/// they are absent when the enumeration source does not supply them.
#[derive(Debug)]
pub struct FileEntry {
    /// Absolute, volume-qualified path.
    pub path: String,
    /// Final path component.
    pub name: String,
    /// Lowercase extension without the dot; absent for directories.
    pub extension: Option<String>,
    /// Size in bytes; zero when the source does not report sizes.
    pub size: u64,
    /// Creation time.
    pub created: Option<i64>,
    /// Last modification time.
    pub modified: Option<i64>,
    /// Last access time.
    pub accessed: Option<i64>,
    /// The entry is a directory.
    pub is_dir: bool,
    /// The entry carries the hidden attribute.
    pub is_hidden: bool,
    /// The entry carries the system attribute.
    pub is_system: bool,
    /// Content digest, set only by an external hasher.
    pub content_hash: Option<String>,
    /// Absolute path of the containing directory.
    pub parent: String,
    /// Drive letter or volume tag.
    pub drive: char,
}

/// The mathematical value of a `FileEntry`: every string as a
/// character sequence.
#[verifier::ext_equal]
pub ghost struct EntryView {
    pub path: Seq<char>,
    pub name: Seq<char>,
    pub extension: Option<Seq<char>>,
    pub size: u64,
    pub created: Option<i64>,
    pub modified: Option<i64>,
    pub accessed: Option<i64>,
    pub is_dir: bool,
    pub is_hidden: bool,
    pub is_system: bool,
    pub content_hash: Option<Seq<char>>,
    pub parent: Seq<char>,
    pub drive: char,
}

impl View for FileEntry {
    type V = EntryView;

    open spec fn view(&self) -> EntryView {
        EntryView {
            path: self.path@,
            name: self.name@,
            extension: match self.extension {
                Some(ref s) => Some(s@),
                None => None,
            },
            size: self.size,
            created: self.created,
            modified: self.modified,
            accessed: self.accessed,
            is_dir: self.is_dir,
            is_hidden: self.is_hidden,
            is_system: self.is_system,
            content_hash: match self.content_hash {
                Some(ref s) => Some(s@),
                None => None,
            },
            parent: self.parent@,
            drive: self.drive,
        }
    }
}

impl Clone for FileEntry {
    fn clone(&self) -> (r: Self)
        ensures
            r@ == self@,
    {
        let r = FileEntry {
            path: self.path.clone(),
            name: self.name.clone(),
            extension: match &self.extension {
                Some(s) => Some(s.clone()),
                None => None,
            },
            size: self.size,
            created: self.created,
            modified: self.modified,
            accessed: self.accessed,
            is_dir: self.is_dir,
            is_hidden: self.is_hidden,
            is_system: self.is_system,
            content_hash: match &self.content_hash {
                Some(s) => Some(s.clone()),
                None => None,
            },
            parent: self.parent.clone(),
            drive: self.drive,
        };
        proof {
            assert(r@ =~= self@);
        }
        r
    }
}

/// A path separator: volumes use backslash, the fallback walker may
/// produce forward slashes.
pub open spec fn sep_char(c: char) -> bool {
    c == '\\' || c == '/'
}

/// Index of the last dot in `s`, or -1 when there is none.
pub open spec fn last_dot(s: Seq<char>) -> int
    decreases s.len(),
{
    if s.len() == 0 {
        -1
    } else if s[s.len() - 1] == '.' {
        s.len() - 1
    } else {
        last_dot(s.drop_last())
    }
}

/// Index of the last separator in `s`, or -1 when there is none.
pub open spec fn last_sep(s: Seq<char>) -> int
    decreases s.len(),
{
    if s.len() == 0 {
        -1
    } else if sep_char(s[s.len() - 1]) {
        s.len() - 1
    } else {
        last_sep(s.drop_last())
    }
}

pub proof fn lemma_last_dot(s: Seq<char>)
    ensures
        -1 <= last_dot(s) < s.len(),
        last_dot(s) >= 0 ==> s[last_dot(s)] == '.',
        forall|j: int| last_dot(s) < j < s.len() ==> s[j] != '.',
    decreases s.len(),
{
    if s.len() == 0 {
    } else if s[s.len() - 1] == '.' {
    } else {
        lemma_last_dot(s.drop_last());
        assert forall|j: int| last_dot(s) < j < s.len() implies s[j] != '.' by {
            if j < s.len() - 1 {
                assert(s.drop_last()[j] == s[j]);
            }
        }
    }
}

pub proof fn lemma_last_sep(s: Seq<char>)
    ensures
        -1 <= last_sep(s) < s.len(),
        last_sep(s) >= 0 ==> sep_char(s[last_sep(s)]),
        forall|j: int| last_sep(s) < j < s.len() ==> !sep_char(s[j]),
    decreases s.len(),
{
    if s.len() == 0 {
    } else if sep_char(s[s.len() - 1]) {
    } else {
        lemma_last_sep(s.drop_last());
        assert forall|j: int| last_sep(s) < j < s.len() implies !sep_char(s[j]) by {
            if j < s.len() - 1 {
                assert(s.drop_last()[j] == s[j]);
            }
        }
    }
}

/// Find the last dot in a character vector.
fn find_last_dot(cs: &Vec<char>) -> (r: Option<usize>)
    ensures
        match r {
            Some(i) => last_dot(cs@) == i,
            None => last_dot(cs@) == -1,
        },
{
    proof {
        lemma_last_dot(cs@);
    }
    let mut i: usize = cs.len();
    while i > 0
        invariant
            i <= cs@.len(),
            forall|j: int| i <= j < cs@.len() ==> cs@[j] != '.',
            -1 <= last_dot(cs@) < cs@.len(),
            last_dot(cs@) >= 0 ==> cs@[last_dot(cs@)] == '.',
            forall|j: int| last_dot(cs@) < j < cs@.len() ==> cs@[j] != '.',
        decreases i,
    {
        i = i - 1;
        if cs[i] == '.' {
            return Some(i);
        }
    }
    None
}

/// Find the last separator in a character vector.
fn find_last_sep(cs: &Vec<char>) -> (r: Option<usize>)
    ensures
        match r {
            Some(i) => last_sep(cs@) == i,
            None => last_sep(cs@) == -1,
        },
{
    proof {
        lemma_last_sep(cs@);
    }
    let mut i: usize = cs.len();
    while i > 0
        invariant
            i <= cs@.len(),
            forall|j: int| i <= j < cs@.len() ==> !sep_char(cs@[j]),
            -1 <= last_sep(cs@) < cs@.len(),
            last_sep(cs@) >= 0 ==> sep_char(cs@[last_sep(cs@)]),
            forall|j: int| last_sep(cs@) < j < cs@.len() ==> !sep_char(cs@[j]),
        decreases i,
    {
        i = i - 1;
        let c = cs[i];
        if c == '\\' || c == '/' {
            return Some(i);
        }
    }
    None
}

/// Copy `cs[from..to]` into a fresh vector.
pub fn chars_slice(cs: &Vec<char>, from: usize, to: usize) -> (r: Vec<char>)
    requires
        from <= to <= cs@.len(),
    ensures
        r@ == cs@.subrange(from as int, to as int),
{
    let mut out: Vec<char> = Vec::new();
    let mut i: usize = from;
    while i < to
        invariant
            from <= i <= to <= cs@.len(),
            out@ == cs@.subrange(from as int, i as int),
        decreases to - i,
    {
        out.push(cs[i]);
        proof {
            assert(out@ =~= cs@.subrange(from as int, i + 1 as int));
        }
        i = i + 1;
    }
    proof {
        assert(out@ =~= cs@.subrange(from as int, to as int));
    }
    out
}

/// The final component of a path: everything after the last separator.
pub open spec fn spec_file_name(path: Seq<char>) -> Seq<char> {
    path.subrange(last_sep(path) + 1, path.len() as int)
}

/// The containing directory of a path: everything before the last
/// separator; empty when the path has no separator.
pub open spec fn spec_parent(path: Seq<char>) -> Seq<char> {
    if last_sep(path) >= 0 {
        path.subrange(0, last_sep(path))
    } else {
        Seq::empty()
    }
}

/// The suffix after the last dot; the whole name when it has no dot.
pub open spec fn spec_suffix_after_last_dot(name: Seq<char>) -> Seq<char> {
    name.subrange(last_dot(name) + 1, name.len() as int)
}

/// The extension a walked file reports: the lowercased suffix after the
/// last dot, provided that dot is neither absent nor leading.
pub open spec fn spec_extension(name: Seq<char>) -> Option<Seq<char>> {
    if last_dot(name) > 0 {
        Some(lower_of(spec_suffix_after_last_dot(name)))
    } else {
        None
    }
}

/// The drive tag derived from a path: its first character uppercased,
/// or `C` when the path is empty.
pub open spec fn spec_drive(path: Seq<char>) -> char {
    if path.len() == 0 {
        'C'
    } else {
        upper_char_ascii(path[0])
    }
}

/// Final path component, as a string.
pub fn file_name_of(path: &str) -> (r: String)
    ensures
        r@ == spec_file_name(path@),
{
    let cs = str_to_chars(path);
    proof {
        lemma_last_sep(cs@);
    }
    let n = cs.len();
    let cut: usize = match find_last_sep(&cs) {
        Some(i) => {
            proof {
                assert(i < cs@.len());
            }
            i + 1
        },
        None => 0,
    };
    let part = chars_slice(&cs, cut, n);
    string_from_chars(&part)
}

/// Containing directory, as a string.
pub fn parent_of(path: &str) -> (r: String)
    ensures
        r@ == spec_parent(path@),
{
    let cs = str_to_chars(path);
    proof {
        lemma_last_sep(cs@);
    }
    let cut: usize = match find_last_sep(&cs) {
        Some(i) => i,
        None => 0,
    };
    let part = chars_slice(&cs, 0, cut);
    proof {
        if last_sep(cs@) < 0 {
            assert(part@ =~= Seq::<char>::empty());
        }
    }
    string_from_chars(&part)
}

/// Extension of a file name: lowercased suffix after a non-leading dot.
pub fn extension_of(name: &str) -> (r: Option<String>)
    ensures
        match r {
            Some(e) => spec_extension(name@) == Some(e@),
            None => spec_extension(name@) is None,
        },
{
    let cs = str_to_chars(name);
    proof {
        lemma_last_dot(cs@);
    }
    let n = cs.len();
    match find_last_dot(&cs) {
        Some(i) => {
            if i > 0 {
                proof {
                    assert(i < n);
                }
                let part = chars_slice(&cs, i + 1, n);
                let raw = string_from_chars(&part);
                Some(lowercase(raw.as_str()))
            } else {
                None
            }
        },
        None => None,
    }
}

/// Drive tag of a path.
pub fn drive_of(path: &str) -> (r: char)
    ensures
        r == spec_drive(path@),
{
    let cs = str_to_chars(path);
    if cs.len() == 0 {
        'C'
    } else {
        to_upper_ascii(cs[0])
    }
}

/// The shape every accepted entry has: a non-empty path; for files an
/// extension that is absent or the lowercased suffix after the last dot
/// of the name; a parent that is a prefix of the path.
pub open spec fn entry_well_formed(e: EntryView) -> bool {
    &&& e.path.len() > 0
    &&& !e.is_dir ==> match e.extension {
        Some(x) => x == lower_of(spec_suffix_after_last_dot(e.name)),
        None => true,
    }
    &&& is_prefix_of(e.parent, e.path)
}

/// Order of magnitude used to render a size: bytes, kibi, mebi, gibi
/// or tebi.
pub open spec fn unit_idx_of(size: u64) -> int {
    if size < 1024 {
        0
    } else if size < 1048576 {
        1
    } else if size < 1073741824 {
        2
    } else if size < 1099511627776 {
        3
    } else {
        4
    }
}

/// The divisor belonging to a unit index.
pub open spec fn unit_divisor(k: int) -> int {
    if k == 0 {
        1
    } else if k == 1 {
        1024
    } else if k == 2 {
        1048576
    } else if k == 3 {
        1073741824
    } else {
        1099511627776
    }
}

/// The unit label belonging to a unit index.
pub open spec fn unit_chars(k: int) -> Seq<char> {
    if k == 0 {
        seq!['B']
    } else if k == 1 {
        seq!['K', 'B']
    } else if k == 2 {
        seq!['M', 'B']
    } else if k == 3 {
        seq!['G', 'B']
    } else {
        seq!['T', 'B']
    }
}

/// The scaled size in hundredths of its unit, rounded to nearest.
pub open spec fn hundredths_of(size: u64) -> int {
    (size * 100 + unit_divisor(unit_idx_of(size)) / 2) / unit_divisor(unit_idx_of(size))
}

/// A size rendered with two decimals and a unit label.
pub open spec fn spec_format_size(size: u64) -> Seq<char> {
    dec_of((hundredths_of(size) / 100) as nat) + seq!['.'] + seq![
        digit_char((((hundredths_of(size) / 10) % 10) as nat)),
        digit_char(((hundredths_of(size) % 10) as nat)),
    ] + seq![' '] + unit_chars(unit_idx_of(size))
}

/// A size rendered for humans: whole bytes below one kibibyte, two
/// decimals and a unit label above.
pub open spec fn spec_human_size(size: u64) -> Seq<char> {
    if size < 1024 {
        dec_of(size as nat) + seq![' ', 'B']
    } else {
        spec_format_size(size)
    }
}

/// Scaled hundredths of the display unit, computed exactly.
fn scaled_hundredths(size: u64) -> (h: u64)
    ensures
        h == hundredths_of(size),
        h >= 0,
{
    if size < 1024 {
        size * 100
    } else {
        let d: u64 = if size < 1048576 {
            1024
        } else if size < 1073741824 {
            1048576
        } else if size < 1099511627776 {
            1073741824
        } else {
            1099511627776
        };
        let wide: u128 = ((size as u128) * 100 + (d as u128) / 2) / (d as u128);
        proof {
            let s100 = (size as int) * 100 + (d as int) / 2;
            let top = 0xFFFFFFFFFFFFFFFFint * 100 + 549755813888int;
            assert(s100 <= top);
            vstd::arithmetic::div_mod::lemma_div_is_ordered_by_denominator(s100, 1024, d as int);
            vstd::arithmetic::div_mod::lemma_div_is_ordered(s100, top, 1024);
            vstd::arithmetic::div_mod::lemma_fundamental_div_mod_converse(
                top,
                1024,
                1801439851485069311,
                924,
            );
            assert(s100 / (d as int) <= 1801439851485069311int);
        }
        wide as u64
    }
}

/// Render the two-decimal body and unit for a size.
fn render_scaled(size: u64) -> (s: String)
    ensures
        s@ == spec_format_size(size),
{
    let h = scaled_hundredths(size);
    let mut v: Vec<char> = Vec::new();
    push_dec(h / 100, &mut v);
    v.push('.');
    v.push(((((h / 10) % 10) as u8) + 48) as char);
    v.push((((h % 10) as u8) + 48) as char);
    v.push(' ');
    if size < 1024 {
        v.push('B');
    } else if size < 1048576 {
        v.push('K');
        v.push('B');
    } else if size < 1073741824 {
        v.push('M');
        v.push('B');
    } else if size < 1099511627776 {
        v.push('G');
        v.push('B');
    } else {
        v.push('T');
        v.push('B');
    }
    proof {
        assert(v@ =~= spec_format_size(size));
    }
    string_from_chars(&v)
}

/// Format a size with two decimals and a unit, as the statistics
/// report does.
pub fn format_size(size: u64) -> (s: String)
    ensures
        s@ == spec_format_size(size),
{
    render_scaled(size)
}

impl FileEntry {
    /// Human-readable rendering of this entry's size.
    pub fn human_size(&self) -> (s: String)
        ensures
            s@ == spec_human_size(self.size),
    {
        if self.size < 1024 {
            let mut v: Vec<char> = Vec::new();
            push_dec(self.size, &mut v);
            v.push(' ');
            v.push('B');
            proof {
                assert(v@ =~= spec_human_size(self.size));
            }
            string_from_chars(&v)
        } else {
            render_scaled(self.size)
        }
    }
}

} // verus!
