//! The asset cache: a concurrent map from file identifier to the last
//! successfully computed (digest, output) pair for that file. An entry is
//! fresh for a file's current bytes exactly when its recorded digest equals
//! the digest of those bytes; there is no other freshness channel.

use vstd::prelude::*;

verus! {

/// The last successfully computed output for one file: the digest of the
/// input bytes it was computed from, and the transformed text itself.
#[derive(Clone)]
pub struct CacheEntry {
    pub hash: String,
    pub content: String,
}

impl CacheEntry {
    /// The mathematical value of an entry: its digest and output text.
    pub open spec fn model(self) -> (Seq<char>, Seq<char>) {
        (self.hash@, self.content@)
    }
}

#[verifier::external_type_specification]
#[verifier::external_body]
#[verifier::reject_recursive_types(K)]
#[verifier::reject_recursive_types(V)]
#[verifier::reject_recursive_types(S)]
pub struct ExDashMap<K, V, S>(dashmap::DashMap<K, V, S>);

/// What a cache store holds: the map from key to (digest, output), as a
/// mathematical map over the views of the strings involved.
pub uninterp spec fn store_contents(m: dashmap::DashMap<String, CacheEntry>) -> Map<
    Seq<char>,
    (Seq<char>, Seq<char>),
>;

/// Key-to-entry store for transformation results. Offers per-key reads and
/// unconditional overwrites; no merge semantics, no cross-key atomicity.
pub struct AssetCache {
    pub store: dashmap::DashMap<String, CacheEntry>,
}

impl View for AssetCache {
    type V = Map<Seq<char>, (Seq<char>, Seq<char>)>;

    open spec fn view(&self) -> Map<Seq<char>, (Seq<char>, Seq<char>)> {
        store_contents(self.store)
    }
}

/// The empty store contents.
pub open spec fn empty_contents() -> Map<Seq<char>, (Seq<char>, Seq<char>)> {
    Map::empty()
}

impl AssetCache {
    /// Relies on dashmap::DashMap::new: a freshly created map holds nothing.
    #[verifier::external_body]
    pub fn new() -> (r: Self)
        ensures
            store_contents(r.store) == empty_contents(),
    {
        AssetCache { store: dashmap::DashMap::new() }
    }

    /// Relies on dashmap::DashMap::get: returns the entry under `key`, or
    /// nothing if the key is absent.
    #[verifier::external_body]
    pub fn get(&self, key: &str) -> (r: Option<CacheEntry>)
        ensures
            match r {
                Some(e) => store_contents(self.store).dom().contains(key@)
                    && e.model() == store_contents(self.store)[key@],
                None => !store_contents(self.store).dom().contains(key@),
            },
    {
        self.store.get(key).map(|v| v.value().clone())
    }

    /// Relies on dashmap::DashMap::insert: unconditionally replaces any
    /// existing entry under `key`.
    #[verifier::external_body]
    pub fn insert(&mut self, key: String, entry: CacheEntry)
        ensures
            store_contents(final(self).store) == store_contents(old(self).store).insert(
                key@,
                entry.model(),
            ),
    {
        self.store.insert(key, entry);
    }

    /// Relies on dashmap::DashMap::len: the number of resident entries.
    #[verifier::external_body]
    pub fn len(&self) -> (n: usize)
        ensures
            n == store_contents(self.store).dom().len(),
    {
        self.store.len()
    }

    /// Relies on dashmap::DashMap::clear: empties the whole store.
    #[verifier::external_body]
    pub fn clear(&mut self)
        ensures
            store_contents(final(self).store) == empty_contents(),
    {
        self.store.clear();
    }

    /// Relies on dashmap::DashMap::remove: deletes the entry under `key` if
    /// present; a no-op if absent.
    #[verifier::external_body]
    pub fn remove(&mut self, key: &str)
        ensures
            store_contents(final(self).store) == store_contents(old(self).store).remove(key@),
    {
        self.store.remove(key);
    }
}

} // verus!
