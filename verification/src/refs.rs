//! The reference table built during one enumeration pass and the path
//! resolver that turns file references into absolute paths.

use vstd::prelude::*;
use std::collections::HashMap;
use crate::text::string_from_chars;

verus! {

/// The well-known reference of a volume's root directory.
pub const ROOT_FILE_REFERENCE: u64 = 5;

/// What the table records for one reference: the entry's name and the
/// masked reference of its parent.
pub struct RefData {
    /// Name of the entry.
    pub name: String,
    /// Masked reference of the containing directory; zero or the
    /// entry's own reference marks a root.
    pub parent: u64,
}

/// Mapping from masked 48-bit file reference to name and parent,
/// filled while records are enumerated and read during resolution.
pub struct ReferenceTable {
    map: HashMap<u64, RefData>,
}

/// The absolute path of `r` in table `m`, walking parent links until a
/// root (parent zero or self), an unknown reference, or a reference
/// already being resolved; the latter two yield the empty path for
/// that link. Names are joined with backslashes, parent first.
pub open spec fn spec_resolve(m: Map<u64, RefData>, r: u64, seen: Set<u64>) -> Seq<char>
    decreases m.dom().difference(seen).len()
        when m.dom().finite()
        via spec_resolve_decreases
{
    if seen.contains(r) || !m.dom().contains(r) {
        Seq::empty()
    } else {
        let d = m[r];
        if d.parent == 0 || d.parent == r {
            d.name@
        } else {
            spec_resolve(m, d.parent, seen.insert(r)) + seq!['\\'] + d.name@
        }
    }
}

#[via_fn]
proof fn spec_resolve_decreases(m: Map<u64, RefData>, r: u64, seen: Set<u64>) {
    if !(seen.contains(r) || !m.dom().contains(r)) {
        let d = m[r];
        if !(d.parent == 0 || d.parent == r) {
            assert(m.dom().difference(seen.insert(r)) =~= m.dom().difference(seen).remove(r));
            assert(m.dom().difference(seen).contains(r));
        }
    }
}

impl ReferenceTable {
    /// An empty table.
    pub fn new() -> (t: Self)
        ensures
            t@ == Map::<u64, RefData>::empty(),
    {
        ReferenceTable { map: HashMap::new() }
    }

    /// Record `reference` with its name and parent; a reference seen
    /// again replaces the earlier record.
    pub fn insert(&mut self, reference: u64, name: String, parent: u64)
        ensures
            final(self)@ == old(self)@.insert(reference, RefData { name, parent }),
    {
        self.map.insert(reference, RefData { name, parent });
    }

    /// Insert the synthesized root record: the drive tag followed by a
    /// colon, with the sentinel parent zero.
    pub fn insert_root(&mut self, drive: char)
        ensures
            final(self)@.dom() == old(self)@.dom().insert(ROOT_FILE_REFERENCE),
            final(self)@[ROOT_FILE_REFERENCE].name@ == seq![drive, ':'],
            final(self)@[ROOT_FILE_REFERENCE].parent == 0,
            forall|k: u64|
                k != ROOT_FILE_REFERENCE && old(self)@.dom().contains(k) ==> final(self)@[k]
                    == old(self)@[k],
    {
        let mut v: Vec<char> = Vec::new();
        v.push(drive);
        v.push(':');
        let name = string_from_chars(&v);
        proof {
            assert(name@ =~= seq![drive, ':']);
        }
        self.map.insert(ROOT_FILE_REFERENCE, RefData { name, parent: 0 });
    }

    /// How many references the table holds.
    pub fn len(&self) -> (n: usize)
        ensures
            n == self@.dom().len(),
    {
        self.map.len()
    }
}

impl View for ReferenceTable {
    type V = Map<u64, RefData>;

    closed spec fn view(&self) -> Map<u64, RefData> {
        self.map@
    }
}

/// Memo of completed resolutions for one pass over one table.
pub struct PathCache {
    map: HashMap<u64, String>,
}

impl View for PathCache {
    type V = Map<u64, String>;

    closed spec fn view(&self) -> Map<u64, String> {
        self.map@
    }
}

/// Every memoized path is the one the table resolves to.
pub open spec fn cache_ok(c: Map<u64, String>, m: Map<u64, RefData>) -> bool {
    forall|k: u64|
        c.dom().contains(k) ==> (#[trigger] c[k])@ == spec_resolve(m, k, Set::empty())
}

impl PathCache {
    /// An empty memo, valid for any table.
    pub fn new() -> (c: Self)
        ensures
            c@ == Map::<u64, String>::empty(),
    {
        PathCache { map: HashMap::new() }
    }
}

/// Joining a walked chain of names back onto a base path: each name is
/// appended behind a backslash, last walked first.
pub open spec fn unwind_chain(base: Seq<char>, names: Seq<Seq<char>>) -> Seq<char>
    decreases names.len(),
{
    if names.len() == 0 {
        base
    } else {
        unwind_chain(base + seq!['\\'] + names.last(), names.drop_last())
    }
}

/// One walked link: a reference and its recorded name.
struct ChainStep {
    reference: u64,
    name: String,
}

/// Resolve the absolute path of `reference` against `table`,
/// memoizing the result. Unknown references resolve to the empty
/// string; a reference met again during its own resolution counts as
/// unknown, so malformed cyclic tables resolve in bounded steps.
pub fn resolve_path(table: &ReferenceTable, cache: &mut PathCache, reference: u64) -> (p: String)
    requires
        cache_ok(old(cache)@, table@),
    ensures
        p@ == spec_resolve(table@, reference, Set::empty()),
        cache_ok(final(cache)@, table@),
        final(cache)@.dom().contains(reference),
{
    let ghost m = table@;
    if let Some(hit) = cache.map.get(&reference) {
        return hit.clone();
    }
    let mut chain: Vec<ChainStep> = Vec::new();
    let mut visited: std::collections::HashSet<u64> = std::collections::HashSet::new();
    let mut cur: u64 = reference;
    let mut base: String;
    proof {
        assert(chain@.map_values(|s: ChainStep| s.name@) =~= Seq::<Seq<char>>::empty());
    }
    loop
        invariant
            m == table@,
            m.dom().finite(),
            cache_ok(cache@, m),
            visited@.finite(),
            visited@.subset_of(m.dom()),
            chain@.len() == 0 ==> cur == reference,
            chain@.len() > 0 ==> chain@[0].reference == reference,
            forall|i: int|
                0 <= i < chain@.len() ==> {
                    let cr = (#[trigger] chain@[i]).reference;
                    &&& m.dom().contains(cr)
                    &&& m[cr].name@ == chain@[i].name@
                    &&& m[cr].parent != 0
                    &&& m[cr].parent != cr
                    &&& m[cr].parent == (if i + 1 < chain@.len() {
                        chain@[i + 1].reference
                    } else {
                        cur
                    })
                },
            forall|x: u64|
                visited@.contains(x) <==> exists|i: int|
                    0 <= i < chain@.len() && (#[trigger] chain@[i]).reference == x,
            spec_resolve(m, reference, Set::empty()) == unwind_chain(
                spec_resolve(m, cur, visited@),
                chain@.map_values(|s: ChainStep| s.name@),
            ),
        ensures
            spec_resolve(m, reference, Set::empty()) == unwind_chain(
                base@,
                chain@.map_values(|s: ChainStep| s.name@),
            ),
        decreases m.dom().difference(visited@).len(),
    {
        if visited.contains(&cur) {
            base = String::new();
            break ;
        }
        match table.map.get(&cur) {
            None => {
                base = String::new();
                break ;
            },
            Some(d) => {
                if d.parent == 0 || d.parent == cur {
                    base = d.name.clone();
                    break ;
                }
                let parent = d.parent;
                let step = ChainStep { reference: cur, name: d.name.clone() };
                let ghost old_chain = chain@;
                let ghost old_visited = visited@;
                let ghost old_cur = cur;
                chain.push(step);
                visited.insert(cur);
                cur = parent;
                proof {
                    let names_old = old_chain.map_values(|s: ChainStep| s.name@);
                    let names_new = chain@.map_values(|s: ChainStep| s.name@);
                    assert(names_new.drop_last() =~= names_old);
                    assert(names_new.last() == m[old_cur].name@);
                    assert forall|x: u64| visited@.contains(x) implies exists|i: int|
                        0 <= i < chain@.len() && (#[trigger] chain@[i]).reference == x by {
                        if x == old_cur {
                            assert(chain@[chain@.len() - 1].reference == x);
                        } else {
                            let i = choose|i: int|
                                0 <= i < old_chain.len() && (#[trigger] old_chain[i]).reference
                                    == x;
                            assert(chain@[i].reference == x);
                        }
                    }
                    assert forall|x: u64|
                        (exists|i: int|
                            0 <= i < chain@.len() && (#[trigger] chain@[i]).reference
                                == x) implies visited@.contains(x) by {
                        let i = choose|i: int|
                            0 <= i < chain@.len() && (#[trigger] chain@[i]).reference == x;
                        if i < chain@.len() - 1 {
                            assert(old_chain[i].reference == x);
                        }
                    }
                    assert(spec_resolve(m, old_cur, old_visited) == spec_resolve(
                        m,
                        cur,
                        old_visited.insert(old_cur),
                    ) + seq!['\\'] + m[old_cur].name@);
                    assert(unwind_chain(spec_resolve(m, cur, visited@), names_new)
                        == unwind_chain(
                        spec_resolve(m, cur, visited@) + seq!['\\'] + names_new.last(),
                        names_old,
                    ));
                    assert(m.dom().difference(visited@) =~= m.dom().difference(
                        old_visited,
                    ).remove(old_cur));
                    assert(m.dom().difference(old_visited).contains(old_cur));
                }
            },
        }
    }
    let mut path = base;
    loop
        invariant
            m == table@,
            cache_ok(cache@, m),
            spec_resolve(m, reference, Set::empty()) == unwind_chain(
                path@,
                chain@.map_values(|s: ChainStep| s.name@),
            ),
        ensures
            path@ == spec_resolve(m, reference, Set::empty()),
        decreases chain@.len(),
    {
        let ghost old_chain = chain@;
        let ghost old_path = path@;
        match chain.pop() {
            None => {
                break ;
            },
            Some(step) => {
                path.append("\\");
                path.append(step.name.as_str());
                proof {
                    reveal_strlit("\\");
                    assert("\\"@ =~= seq!['\\']);
                    let names_old = old_chain.map_values(|s: ChainStep| s.name@);
                    let names_new = chain@.map_values(|s: ChainStep| s.name@);
                    assert(names_new =~= names_old.drop_last());
                    assert(names_old.last() == step.name@);
                    assert(path@ =~= old_path + seq!['\\'] + names_old.last());
                    assert(unwind_chain(old_path, names_old) == unwind_chain(
                        old_path + seq!['\\'] + names_old.last(),
                        names_old.drop_last(),
                    ));
                }
            },
        }
    }
    cache.map.insert(reference, path.clone());
    path
}

} // verus!
