use vstd::prelude::*;

use crate::meta::WorkMetadata;

verus! {

/// A bounded, concurrency-safe store of extracted work metadata, keyed by
/// work identifier, with a recency/frequency eviction policy. It holds a
/// moka synchronous cache; the store may drop entries at any point to keep
/// its population bounded, so nothing here promises that an entry stays.
#[verifier::external_body]
pub struct WorkCache {
    inner: moka::sync::Cache<u64, WorkMetadata>,
}

/// The mapping from work identifier to stored metadata that the cache holds.
pub uninterp spec fn cache_view(c: WorkCache) -> Map<u64, WorkMetadata>;

impl WorkCache {
    /// Relies on moka::sync::Cache::new: a freshly built cache, bounded to
    /// the given number of entries, holds nothing.
    #[verifier::external_body]
    pub fn new(capacity: u64) -> (r: WorkCache)
        ensures
            forall|k: u64, v: WorkMetadata| !cache_view(r).contains_pair(k, v),
    {
        WorkCache { inner: moka::sync::Cache::new(capacity) }
    }

    /// Relies on moka::sync::Cache::get: whatever comes back for a key was
    /// stored under that key.
    #[verifier::external_body]
    pub fn get(&self, id: u64) -> (r: Option<WorkMetadata>)
        ensures
            (match r {
                Some(w) => cache_view(*self).contains_pair(id, w),
                None => true,
            }),
    {
        self.inner.get(&id)
    }

    /// Relies on moka::sync::Cache::insert: afterwards the store holds at
    /// most the inserted pair besides entries it already held; the eviction
    /// policy may have dropped any of them, the new pair included.
    #[verifier::external_body]
    pub fn insert(&mut self, id: u64, work: &WorkMetadata)
        ensures
            forall|k: u64, v: WorkMetadata|
                cache_view(*final(self)).contains_pair(k, v) ==> ((k == id && v == *work)
                    || cache_view(*old(self)).contains_pair(k, v)),
    {
        self.inner.insert(id, work.clone());
    }
}

} // verus!
