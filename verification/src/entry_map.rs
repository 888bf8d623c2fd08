//! The shared entry map: a concurrent mapping from path to entry with
//! replace-on-insert, held behind a verified interface. The map itself
//! is dashmap's; its contents are modelled as a map from path to entry
//! value.

use vstd::prelude::*;
use crate::entry::{EntryView, FileEntry};

verus! {

/// Deduplicated store of entries keyed by path. Holds a concurrent
/// dashmap so that readers outside the core may share it; the verified
/// interface takes exclusive references for every mutation.
#[verifier::external_body]
pub struct EntryMap {
    map: dashmap::DashMap<String, FileEntry>,
}

/// What the map holds: each stored path mapped to the value of the
/// entry stored under it.
pub uninterp spec fn entry_map_model(m: &EntryMap) -> Map<Seq<char>, EntryView>;

/// The model of a map that holds nothing.
pub open spec fn empty_entry_model() -> Map<Seq<char>, EntryView> {
    Map::empty()
}

impl EntryMap {
    /// Relies on dashmap::DashMap::new: a map holding nothing.
    #[verifier::external_body]
    pub fn new() -> (m: Self)
        ensures
            entry_map_model(&m) == empty_entry_model(),
    {
        EntryMap { map: dashmap::DashMap::new() }
    }

    /// Relies on dashmap::DashMap::insert: stores `entry` under its
    /// path, replacing any entry stored there before.
    #[verifier::external_body]
    pub fn insert(&mut self, entry: FileEntry)
        ensures
            entry_map_model(final(self)) == entry_map_model(old(self)).insert(
                entry.path@,
                entry@,
            ),
    {
        self.map.insert(entry.path.clone(), entry);
    }

    /// Relies on dashmap::DashMap::get: the entry stored under `path`,
    /// if any, copied out.
    #[verifier::external_body]
    pub fn get(&self, path: &String) -> (r: Option<FileEntry>)
        ensures
            match r {
                Some(e) => entry_map_model(self).contains_key(path@) && e@ == entry_map_model(
                    self,
                )[path@],
                None => !entry_map_model(self).contains_key(path@),
            },
    {
        self.map.get(path).map(|r| r.value().clone())
    }

    /// Relies on dashmap::DashMap::len: how many entries are stored.
    #[verifier::external_body]
    pub fn len(&self) -> (n: usize)
        ensures
            n == entry_map_model(self).dom().len(),
    {
        self.map.len()
    }

    /// Relies on dashmap::DashMap::clear: removes every entry.
    #[verifier::external_body]
    pub fn clear(&mut self)
        ensures
            entry_map_model(final(self)) == empty_entry_model(),
    {
        self.map.clear();
    }

    /// Relies on dashmap::DashMap::iter: every stored entry exactly
    /// once, each under its own path, in no promised order.
    #[verifier::external_body]
    pub fn values(&self) -> (r: Vec<FileEntry>)
        ensures
            r@.len() == entry_map_model(self).dom().len(),
            forall|i: int|
                0 <= i < r@.len() ==> {
                    &&& entry_map_model(self).contains_key((#[trigger] r@[i])@.path)
                    &&& entry_map_model(self)[r@[i]@.path] == r@[i]@
                },
            forall|i: int, j: int|
                0 <= i < j < r@.len() ==> (#[trigger] r@[i])@.path != (#[trigger] r@[j])@.path,
    {
        self.map.iter().map(|e| e.value().clone()).collect()
    }
}

} // verus!
