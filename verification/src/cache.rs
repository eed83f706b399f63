use vstd::prelude::*;
use core::num::NonZeroUsize;

verus! {

#[verifier::external_type_specification]
#[verifier::external_body]
#[verifier::reject_recursive_types(K)]
#[verifier::reject_recursive_types(V)]
#[verifier::reject_recursive_types(S)]
pub struct ExLruCache<K, V, S>(lru::LruCache<K, V, S>);

/// An empty cache model.
pub open spec fn empty_cache_model() -> Map<Seq<char>, Seq<u8>> {
    Map::empty()
}

/// What the cache holds: each resident composite key mapped to the plaintext
/// payload cached under it.
pub uninterp spec fn cache_map(c: lru::LruCache<String, Vec<u8>>) -> Map<Seq<char>, Seq<u8>>;

/// The fixed capacity the cache was created with.
pub uninterp spec fn cache_cap(c: lru::LruCache<String, Vec<u8>>) -> nat;

/// Relies on lru::LruCache::new: an empty cache of the given capacity.
#[verifier::external_body]
pub(crate) fn cache_new(cap: usize) -> (c: lru::LruCache<String, Vec<u8>>)
    requires
        1 <= cap,
    ensures
        cache_map(c) == empty_cache_model(),
        cache_cap(c) == cap,
{
    lru::LruCache::new(NonZeroUsize::new(cap).unwrap())
}

/// Relies on lru::LruCache::get: returns the value resident under the key and
/// only refreshes its recency, leaving the contents as they are.
#[verifier::external_body]
pub(crate) fn cache_get(c: &mut lru::LruCache<String, Vec<u8>>, k: &String) -> (r: Option<Vec<u8>>)
    ensures
        cache_map(*final(c)) == cache_map(*old(c)),
        cache_cap(*final(c)) == cache_cap(*old(c)),
        r matches Some(v) ==> cache_map(*old(c)).contains_key(k@) && v@ == cache_map(*old(c))[k@],
        r is None ==> !cache_map(*old(c)).contains_key(k@),
{
    c.get(k).cloned()
}

/// Relies on lru::LruCache::put: the pair becomes resident; when the key is
/// new and the cache is full, the least-recently-used entry is evicted, so no
/// other entry changes its value, no key appears from nowhere, and the length
/// stays within capacity.
#[verifier::external_body]
pub(crate) fn cache_put(c: &mut lru::LruCache<String, Vec<u8>>, k: String, v: Vec<u8>)
    ensures
        cache_cap(*final(c)) == cache_cap(*old(c)),
        cache_map(*final(c)).contains_pair(k@, v@),
        forall|k2: Seq<char>|
            k2 != k@ && #[trigger] cache_map(*final(c)).contains_key(k2) ==> cache_map(
                *old(c),
            ).contains_pair(k2, cache_map(*final(c))[k2]),
        cache_map(*old(c)).dom().finite() ==> cache_map(*final(c)).dom().finite() && cache_map(
            *final(c),
        ).dom().len() <= cache_cap(*old(c)),
        cache_map(*old(c)).dom().len() < cache_cap(*old(c)) || cache_map(*old(c)).contains_key(k@)
            ==> cache_map(*final(c)) == cache_map(*old(c)).insert(k@, v@),
{
    c.put(k, v);
}

/// Relies on lru::LruCache::pop: removes exactly the entry under the key, and
/// returns what was resident there.
#[verifier::external_body]
pub(crate) fn cache_pop(c: &mut lru::LruCache<String, Vec<u8>>, k: &String) -> (r: Option<Vec<u8>>)
    ensures
        cache_cap(*final(c)) == cache_cap(*old(c)),
        cache_map(*final(c)) == cache_map(*old(c)).remove(k@),
        r matches Some(v) ==> cache_map(*old(c)).contains_pair(k@, v@),
        r is None ==> !cache_map(*old(c)).contains_key(k@),
{
    c.pop(k)
}

/// Relies on lru::LruCache::clear: empties the cache.
#[verifier::external_body]
pub(crate) fn cache_clear(c: &mut lru::LruCache<String, Vec<u8>>)
    ensures
        cache_cap(*final(c)) == cache_cap(*old(c)),
        cache_map(*final(c)) == empty_cache_model(),
{
    c.clear();
}

/// Relies on lru::LruCache::iter: walks every resident entry, so the returned
/// keys are exactly the cache's keys, most recently used first.
#[verifier::external_body]
pub(crate) fn cache_keys(c: &lru::LruCache<String, Vec<u8>>) -> (r: Vec<String>)
    ensures
        forall|i: int| 0 <= i < r@.len() ==> cache_map(*c).contains_key(#[trigger] r@[i]@),
        forall|k2: Seq<char>|
            #[trigger] cache_map(*c).contains_key(k2) ==> exists|i: int|
                0 <= i < r@.len() && r@[i]@ == k2,
{
    c.iter().map(|e| e.0.clone()).collect()
}

} // verus!
