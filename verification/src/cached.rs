//! Caches of a bounded size.
use vstd::prelude::*;

verus! {

/// A cache from keys to values.
pub trait Cached<K, V>: Sized {
    /// The value kept under the key, if there is one.
    fn cache_get(&mut self, class_hash: &K) -> Option<&V>;

    /// Keeps the value under the key.
    fn cache_set(&mut self, class_hash: K, contract_class: V);

    /// An empty cache for about `size` values.
    fn with_size(size: usize) -> Self;

    /// The number of values in the cache. A cache that does not count them
    /// says one.
    fn cache_size(&self) -> usize {
        1
    }

    /// The number of hits that the cache had, if it counts them. A cache that
    /// does not count them says one.
    fn cache_hits(&self) -> Option<usize> {
        Some(1)
    }
}

} // verus!
