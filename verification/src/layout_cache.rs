//! The first-level cache of resolved page layouts: an `lru::LruCache` keyed by
//! page slug, device type and maturity rating, seen through what it holds, the
//! order of its entries from most to least recently used, and the number of
//! entries it was made for.

use vstd::prelude::*;
use lru::LruCache;
use crate::pages::PageLayout;

verus! {

/// A cache key: page slug, device type, maturity rating.
pub type LayoutKey = (String, Option<String>, Option<String>);

/// A cache key as characters.
pub type LayoutKeyView = (Seq<char>, Option<Seq<char>>, Option<Seq<char>>);

/// An optional text as characters.
pub open spec fn opt_chars(o: Option<String>) -> Option<Seq<char>> {
    match o {
        Some(s) => Some(s@),
        None => None,
    }
}

/// A cache key as characters.
pub open spec fn key_chars(k: LayoutKey) -> LayoutKeyView {
    (k.0@, opt_chars(k.1), opt_chars(k.2))
}

/// The empty cache contents.
pub open spec fn no_layouts() -> Map<LayoutKeyView, PageLayout> {
    Map::empty()
}

/// An order of use lists exactly the keys held, each once.
pub open spec fn order_matches(contents: Map<LayoutKeyView, PageLayout>, order: Seq<LayoutKeyView>) -> bool {
    &&& order.no_duplicates()
    &&& forall|k: LayoutKeyView| #[trigger] contents.contains_key(k) <==> order.contains(k)
}

/// An order of use without `k`.
pub open spec fn without_key(order: Seq<LayoutKeyView>, k: LayoutKeyView) -> Seq<LayoutKeyView> {
    order.filter(|x: LayoutKeyView| x != k)
}

/// An order of use after `k` is used: `k` first, the others as they were.
pub open spec fn used_first(order: Seq<LayoutKeyView>, k: LayoutKeyView) -> Seq<LayoutKeyView> {
    seq![k] + without_key(order, k)
}

#[verifier::external_type_specification]
#[verifier::external_body]
#[verifier::reject_recursive_types(K)]
#[verifier::reject_recursive_types(V)]
#[verifier::reject_recursive_types(S)]
pub struct ExLruCache<K, V, S>(LruCache<K, V, S>);

#[verifier::external_type_specification]
#[verifier::external_body]
pub struct ExLruDefaultHasher(lru::DefaultHasher);

/// What a layout cache holds: the layout stored under each key.
pub uninterp spec fn layout_cache_contents(cache: LruCache<LayoutKey, PageLayout>) -> Map<LayoutKeyView, PageLayout>;

/// The keys a layout cache holds, from the most recently used to the least
/// recently used (the order of the cache's internal list, head to tail).
pub uninterp spec fn layout_cache_recency(cache: LruCache<LayoutKey, PageLayout>) -> Seq<LayoutKeyView>;

/// The number of entries a layout cache was made to hold.
pub uninterp spec fn layout_cache_capacity(cache: LruCache<LayoutKey, PageLayout>) -> nat;

/// `LruCache::new`: an empty cache that holds at most `cap` entries.
#[verifier::external_body]
pub(crate) fn lru_new(cap: usize) -> (cache: LruCache<LayoutKey, PageLayout>)
    requires
        cap > 0,
    ensures
        layout_cache_contents(cache) == no_layouts(),
        layout_cache_recency(cache) == Seq::<LayoutKeyView>::empty(),
        layout_cache_capacity(cache) == cap,
{
    LruCache::new(std::num::NonZeroUsize::new(cap).unwrap())
}

/// `LruCache::get`: the layout stored under `key`, if any. The entry becomes
/// the most recently used one; what the cache holds is unchanged.
#[verifier::external_body]
pub(crate) fn lru_get<'a>(cache: &'a mut LruCache<LayoutKey, PageLayout>, key: &LayoutKey) -> (r: Option<&'a PageLayout>)
    ensures
        layout_cache_contents(*final(cache)) == layout_cache_contents(*old(cache)),
        layout_cache_capacity(*final(cache)) == layout_cache_capacity(*old(cache)),
        layout_cache_recency(*final(cache)) == if layout_cache_contents(*old(cache)).contains_key(key_chars(*key)) {
            used_first(layout_cache_recency(*old(cache)), key_chars(*key))
        } else {
            layout_cache_recency(*old(cache))
        },
        order_matches(layout_cache_contents(*final(cache)), layout_cache_recency(*final(cache))),
        r is Some == layout_cache_contents(*old(cache)).contains_key(key_chars(*key)),
        r matches Some(l) ==> *l == layout_cache_contents(*old(cache))[key_chars(*key)],
{
    cache.get(key)
}

/// `LruCache::put`: stores `layout` under `key` and makes it the most
/// recently used entry. Where the key is new and the cache is full, the least
/// recently used entry (the last in the order of use) is evicted first.
#[verifier::external_body]
pub(crate) fn lru_put(cache: &mut LruCache<LayoutKey, PageLayout>, key: LayoutKey, layout: PageLayout)
    ensures
        layout_cache_capacity(*final(cache)) == layout_cache_capacity(*old(cache)),
        ({
            let before = layout_cache_contents(*old(cache));
            let order = layout_cache_recency(*old(cache));
            let after = layout_cache_contents(*final(cache));
            let k = key_chars(key);
            if before.contains_key(k) || before.len() < layout_cache_capacity(*old(cache)) {
                &&& after == before.insert(k, layout)
                &&& layout_cache_recency(*final(cache)) == used_first(order, k)
            } else {
                &&& after == before.remove(order.last()).insert(k, layout)
                &&& layout_cache_recency(*final(cache)) == seq![k] + order.drop_last()
            }
        }),
        order_matches(layout_cache_contents(*final(cache)), layout_cache_recency(*final(cache))),
{
    cache.put(key, layout);
}

/// `LruCache::pop`: removes the entry under `key` and returns its layout.
#[verifier::external_body]
pub(crate) fn lru_pop(cache: &mut LruCache<LayoutKey, PageLayout>, key: &LayoutKey) -> (r: Option<PageLayout>)
    ensures
        layout_cache_contents(*final(cache)) == layout_cache_contents(*old(cache)).remove(key_chars(*key)),
        layout_cache_recency(*final(cache)) == without_key(layout_cache_recency(*old(cache)), key_chars(*key)),
        layout_cache_capacity(*final(cache)) == layout_cache_capacity(*old(cache)),
        order_matches(layout_cache_contents(*final(cache)), layout_cache_recency(*final(cache))),
        r is Some == layout_cache_contents(*old(cache)).contains_key(key_chars(*key)),
        r matches Some(l) ==> l == layout_cache_contents(*old(cache))[key_chars(*key)],
{
    cache.pop(key)
}

/// `LruCache::clear`: removes every entry.
#[verifier::external_body]
pub(crate) fn lru_clear(cache: &mut LruCache<LayoutKey, PageLayout>)
    ensures
        layout_cache_contents(*final(cache)) == no_layouts(),
        layout_cache_recency(*final(cache)) == Seq::<LayoutKeyView>::empty(),
        layout_cache_capacity(*final(cache)) == layout_cache_capacity(*old(cache)),
{
    cache.clear();
}

/// `LruCache::iter`, keys only: each key the cache holds, once, in
/// most-recently-used order.
#[verifier::external_body]
pub(crate) fn lru_keys(cache: &LruCache<LayoutKey, PageLayout>) -> (keys: Vec<LayoutKey>)
    ensures
        keys@.len() == layout_cache_recency(*cache).len(),
        forall|i: int| 0 <= i < keys@.len() ==> #[trigger] key_chars(keys@[i]) == layout_cache_recency(*cache)[i],
        keys@.len() == layout_cache_contents(*cache).len(),
        forall|i: int| 0 <= i < keys@.len() ==> layout_cache_contents(*cache).contains_key(#[trigger] key_chars(keys@[i])),
        forall|k: LayoutKeyView| #[trigger] layout_cache_contents(*cache).contains_key(k)
            ==> exists|i: int| 0 <= i < keys@.len() && key_chars(keys@[i]) == k,
        forall|i: int, j: int| 0 <= i < j < keys@.len() ==> key_chars(keys@[i]) != key_chars(keys@[j]),
{
    cache.iter().map(|(k, _)| k.clone()).collect()
}

} // verus!
