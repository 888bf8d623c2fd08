//! Verified text utilities: character sequences, substring search,
//! ASCII case folding, decimal rendering, and null-byte sanitising.

use vstd::prelude::*;

verus! {

/// What `str::to_lowercase` returns for a given character sequence.
/// The mapping depends on the characters alone.
pub uninterp spec fn lower_of(s: Seq<char>) -> Seq<char>;

/// Relies on str::to_lowercase: the Unicode lowercase mapping of `s`,
/// a function of the characters alone.
#[verifier::external_body]
pub fn lowercase(s: &str) -> (r: String)
    ensures
        r@ == lower_of(s@),
{
    s.to_lowercase()
}

/// Relies on String's FromIterator impl: collecting chars yields the
/// string with exactly those characters in order.
#[verifier::external_body]
pub fn string_from_chars(v: &Vec<char>) -> (s: String)
    ensures
        s@ == v@,
{
    v.iter().collect()
}

/// The characters of `s`, as a vector.
pub fn str_to_chars(s: &str) -> (v: Vec<char>)
    ensures
        v@ == s@,
{
    let n = s.unicode_len();
    let mut v: Vec<char> = Vec::new();
    let mut i: usize = 0;
    while i < n
        invariant
            i <= n,
            n == s@.len(),
            v@ == s@.subrange(0, i as int),
        decreases n - i,
    {
        v.push(s.get_char(i));
        proof {
            assert(v@ =~= s@.subrange(0, i + 1 as int));
        }
        i = i + 1;
    }
    proof {
        assert(v@ =~= s@);
    }
    v
}

/// `needle` occurs as a contiguous run somewhere in `hay`.
pub open spec fn contains_seq(hay: Seq<char>, needle: Seq<char>) -> bool {
    exists|i: int|
        0 <= i && i + needle.len() <= hay.len() && #[trigger] hay.subrange(
            i,
            i + needle.len() as int,
        ) == needle
}

/// Substring search over character vectors.
pub fn chars_contains(hay: &Vec<char>, needle: &Vec<char>) -> (b: bool)
    ensures
        b == contains_seq(hay@, needle@),
{
    let nlen = needle.len();
    let hlen = hay.len();
    if nlen == 0 {
        proof {
            assert(hay@.subrange(0, 0 + needle@.len() as int) =~= needle@);
        }
        return true;
    }
    if nlen > hlen {
        return false;
    }
    let end = hlen - nlen;
    let mut i: usize = 0;
    while i <= end
        invariant
            1 <= nlen == needle@.len(),
            hlen == hay@.len(),
            nlen <= hlen,
            end == hlen - nlen,
            i <= end + 1,
            forall|k: int|
                0 <= k < i ==> #[trigger] hay@.subrange(k, k + needle@.len() as int) != needle@,
        decreases end + 1 - i,
    {
        let mut j: usize = 0;
        let mut matched = true;
        while matched && j < nlen
            invariant
                1 <= nlen == needle@.len(),
                hlen == hay@.len(),
                i + nlen <= hlen,
                j <= nlen,
                matched ==> forall|t: int| 0 <= t < j ==> hay@[i + t] == needle@[t],
                !matched ==> hay@.subrange(i as int, i + needle@.len() as int) != needle@,
            decreases nlen - j + (if matched {
                1int
            } else {
                0int
            }),
        {
            if hay[i + j] != needle[j] {
                proof {
                    assert(hay@.subrange(i as int, i + needle@.len() as int)[j as int] == hay@[i
                        + j]);
                }
                matched = false;
            } else {
                j = j + 1;
            }
        }
        if matched {
            proof {
                assert(hay@.subrange(i as int, i + needle@.len() as int) =~= needle@);
            }
            return true;
        }
        i = i + 1;
    }
    false
}

/// Substring search over string slices.
pub fn str_contains(hay: &str, needle: &str) -> (b: bool)
    ensures
        b == contains_seq(hay@, needle@),
{
    let h = str_to_chars(hay);
    let n = str_to_chars(needle);
    chars_contains(&h, &n)
}

/// ASCII lowercase of one character; other characters are unchanged.
pub open spec fn lower_char_ascii(c: char) -> char {
    if 'A' <= c && c <= 'Z' {
        ((c as u32) + 32) as char
    } else {
        c
    }
}

/// ASCII uppercase of one character; other characters are unchanged.
pub open spec fn upper_char_ascii(c: char) -> char {
    if 'a' <= c && c <= 'z' {
        ((c as u32) - 32) as char
    } else {
        c
    }
}

/// Executable ASCII lowercase of one character.
pub fn to_lower_ascii(c: char) -> (r: char)
    ensures
        r == lower_char_ascii(c),
{
    if 'A' <= c && c <= 'Z' {
        (((c as u8) + 32) as char)
    } else {
        c
    }
}

/// Executable ASCII uppercase of one character.
pub fn to_upper_ascii(c: char) -> (r: char)
    ensures
        r == upper_char_ascii(c),
{
    if 'a' <= c && c <= 'z' {
        (((c as u8) - 32) as char)
    } else {
        c
    }
}

/// Equality of two character sequences up to ASCII case.
pub open spec fn ascii_eq_ignore_case(a: Seq<char>, b: Seq<char>) -> bool {
    a.len() == b.len() && forall|i: int|
        0 <= i < a.len() ==> lower_char_ascii(a[i]) == lower_char_ascii(b[i])
}

/// Compare two strings for equality up to ASCII case.
pub fn str_eq_ignore_ascii_case(a: &str, b: &str) -> (r: bool)
    ensures
        r == ascii_eq_ignore_case(a@, b@),
{
    let av = str_to_chars(a);
    let bv = str_to_chars(b);
    if av.len() != bv.len() {
        return false;
    }
    let n = av.len();
    let mut i: usize = 0;
    while i < n
        invariant
            n == av@.len() == bv@.len(),
            av@ == a@,
            bv@ == b@,
            i <= n,
            forall|k: int| 0 <= k < i ==> lower_char_ascii(a@[k]) == lower_char_ascii(b@[k]),
        decreases n - i,
    {
        if to_lower_ascii(av[i]) != to_lower_ascii(bv[i]) {
            return false;
        }
        i = i + 1;
    }
    true
}

/// The decimal digit character for `d`, which must be below ten.
pub open spec fn digit_char(d: nat) -> char {
    (48 + d) as char
}

/// The decimal rendering of `n`, most significant digit first.
pub open spec fn dec_of(n: nat) -> Seq<char>
    decreases n,
{
    if n < 10 {
        seq![digit_char(n)]
    } else {
        dec_of(n / 10) + seq![digit_char(n % 10)]
    }
}

/// Append the decimal rendering of `n` to `out`.
pub fn push_dec(n: u64, out: &mut Vec<char>)
    ensures
        final(out)@ == old(out)@ + dec_of(n as nat),
    decreases n,
{
    if n < 10 {
        out.push((((n as u8) + 48) as char));
    } else {
        push_dec(n / 10, out);
        out.push(((((n % 10) as u8) + 48) as char));
        proof {
            assert(out@ =~= old(out)@ + dec_of(n as nat));
        }
    }
}

/// `s` with every null byte replaced by an underscore.
pub open spec fn sanitized(s: Seq<char>) -> Seq<char> {
    s.map(|i: int, c: char| if c == '\0' { '_' } else { c })
}

/// Replace null characters by `_`, reporting whether any was found.
pub fn replace_nul(s: &str) -> (r: (String, bool))
    ensures
        r.0@ == sanitized(s@),
        r.1 == exists|i: int| 0 <= i < s@.len() && s@[i] == '\0',
{
    let cs = str_to_chars(s);
    let n = cs.len();
    let mut out: Vec<char> = Vec::new();
    let mut found = false;
    let mut i: usize = 0;
    while i < n
        invariant
            n == cs@.len(),
            cs@ == s@,
            i <= n,
            out@ == sanitized(s@).subrange(0, i as int),
            found == exists|k: int| 0 <= k < i && s@[k] == '\0',
        decreases n - i,
    {
        let c = cs[i];
        if c == '\0' {
            out.push('_');
            found = true;
        } else {
            out.push(c);
        }
        proof {
            assert(out@ =~= sanitized(s@).subrange(0, i + 1 as int));
        }
        i = i + 1;
    }
    proof {
        assert(out@ =~= sanitized(s@));
    }
    (string_from_chars(&out), found)
}

/// `p` is a prefix of `s`.
pub open spec fn is_prefix_of(p: Seq<char>, s: Seq<char>) -> bool {
    p.len() <= s.len() && s.subrange(0, p.len() as int) == p
}

} // verus!
