//! Recency order of block roots, kept by an `lru` cache: which roots were
//! touched, from the least to the most recently used.
use lru::LruCache;
use std::collections::hash_map::RandomState;
use std::num::NonZeroUsize;
use vstd::prelude::*;
use crate::primitives::Hash256;

verus! {

/// A block root as the recency cache keys it: its four 64-bit words.
pub type RootKey = (u64, u64, u64, u64);

/// The key of `h`.
pub open spec fn key_of(h: Hash256) -> RootKey {
    (h.w0, h.w1, h.w2, h.w3)
}

/// The root with key `k`.
pub open spec fn root_of(k: RootKey) -> Hash256 {
    Hash256 { w0: k.0, w1: k.1, w2: k.2, w3: k.3 }
}

/// The key of `h`.
pub fn root_key(h: &Hash256) -> (k: RootKey)
    ensures
        k == key_of(*h),
        root_of(k) == *h,
{
    (h.w0, h.w1, h.w2, h.w3)
}

/// The root with key `k`.
pub fn key_root(k: RootKey) -> (h: Hash256)
    ensures
        h == root_of(k),
        key_of(h) == k,
{
    Hash256 { w0: k.0, w1: k.1, w2: k.2, w3: k.3 }
}

#[verifier::external_type_specification]
#[verifier::external_body]
#[verifier::reject_recursive_types(K)]
#[verifier::reject_recursive_types(V)]
#[verifier::reject_recursive_types(S)]
pub struct ExLruCache<K, V, S>(LruCache<K, V, S>);

/// The keys an `lru` cache of roots holds, from the least to the most
/// recently used.
pub uninterp spec fn recency(c: LruCache<RootKey, (), RandomState>) -> Seq<RootKey>;

/// The capacity an `lru` cache of roots was made with.
pub uninterp spec fn lru_capacity(c: LruCache<RootKey, (), RandomState>) -> nat;

/// Keeps every key but `k`.
pub open spec fn other_than(k: RootKey) -> spec_fn(RootKey) -> bool {
    |x: RootKey| x != k
}

/// `s` without the key `k`.
pub open spec fn without(s: Seq<RootKey>, k: RootKey) -> Seq<RootKey> {
    s.filter(other_than(k))
}

/// The order after `k` is put into a cache of capacity `cap` holding `s`:
/// a held key moves to the most recent end; a new key is appended, and when
/// the cache is full the least recently used key leaves first.
pub open spec fn touched(s: Seq<RootKey>, k: RootKey, cap: nat) -> Seq<RootKey> {
    if s.contains(k) {
        without(s, k).push(k)
    } else if s.len() >= cap {
        s.drop_first().push(k)
    } else {
        s.push(k)
    }
}

/// What every cache of roots keeps: each key once, no more keys than its
/// capacity, and a capacity of at least one.
pub open spec fn lru_valid(c: LruCache<RootKey, (), RandomState>) -> bool {
    &&& recency(c).no_duplicates()
    &&& recency(c).len() <= lru_capacity(c)
    &&& lru_capacity(c) > 0
}

/// A filter that keeps every key keeps the sequence.
pub proof fn lemma_filter_keeps_all(s: Seq<RootKey>, p: spec_fn(RootKey) -> bool)
    requires
        forall|k: RootKey| #[trigger] p(k),
    ensures
        s.filter(p) == s,
    decreases s.len(),
{
    reveal(Seq::filter);
    if s.len() > 0 {
        lemma_filter_keeps_all(s.drop_last(), p);
        assert(s.drop_last().push(s.last()) =~= s);
    }
}

/// Filtering twice keeps what both filters keep.
pub proof fn lemma_filter_twice(
    s: Seq<RootKey>,
    p: spec_fn(RootKey) -> bool,
    q: spec_fn(RootKey) -> bool,
)
    ensures
        s.filter(p).filter(q) == s.filter(|k: RootKey| p(k) && q(k)),
    decreases s.len(),
{
    reveal(Seq::filter);
    let pq = |k: RootKey| p(k) && q(k);
    if s.len() > 0 {
        lemma_filter_twice(s.drop_last(), p, q);
        let a = s.drop_last().filter(p);
        if p(s.last()) {
            assert(a.push(s.last()).drop_last() =~= a);
        }
    } else {
        assert(s.filter(p).filter(q) =~= s.filter(pq));
    }
}

/// Filters that agree on the keys of `s` keep the same keys.
pub proof fn lemma_filter_congruent(
    s: Seq<RootKey>,
    p: spec_fn(RootKey) -> bool,
    q: spec_fn(RootKey) -> bool,
)
    requires
        forall|i: int| 0 <= i < s.len() ==> p(#[trigger] s[i]) == q(s[i]),
    ensures
        s.filter(p) == s.filter(q),
    decreases s.len(),
{
    reveal(Seq::filter);
    if s.len() > 0 {
        assert forall|i: int| 0 <= i < s.drop_last().len() implies p(#[trigger] s.drop_last()[i])
            == q(s.drop_last()[i]) by {
            assert(s.drop_last()[i] == s[i]);
        }
        lemma_filter_congruent(s.drop_last(), p, q);
        assert(p(s[s.len() - 1]) == q(s[s.len() - 1]));
    }
}

/// `LruCache::with_hasher` with capacity `cap`: an empty cache that holds at most
/// `cap` keys.
#[verifier::external_body]
pub(crate) fn lru_new(cap: usize) -> (c: LruCache<RootKey, (), RandomState>)
    requires
        cap > 0,
    ensures
        recency(c) == Seq::<RootKey>::empty(),
        lru_capacity(c) == cap,
        lru_valid(c),
{
    LruCache::with_hasher(NonZeroUsize::new(cap).unwrap(), RandomState::new())
}

/// `LruCache::put` of `k`: the key becomes the most recently used; when it
/// was not held and the cache was full, the least recently used key is
/// dropped.
#[verifier::external_body]
pub(crate) fn lru_put(c: &mut LruCache<RootKey, (), RandomState>, k: RootKey)
    ensures
        lru_capacity(*final(c)) == lru_capacity(*old(c)),
        recency(*final(c)) == touched(recency(*old(c)), k, lru_capacity(*old(c))),
        lru_valid(*final(c)),
{
    c.put(k, ());
}

/// `LruCache::push` of `k`: the key becomes the most recently used, as with
/// [`lru_put`]; hands back the key itself when it was held, the least
/// recently used key when that was dropped for room, and none otherwise.
#[verifier::external_body]
pub(crate) fn lru_push(c: &mut LruCache<RootKey, (), RandomState>, k: RootKey) -> (r: Option<
    (RootKey, ()),
>)
    ensures
        lru_capacity(*final(c)) == lru_capacity(*old(c)),
        recency(*final(c)) == touched(recency(*old(c)), k, lru_capacity(*old(c))),
        r == (if recency(*old(c)).contains(k) {
            Some((k, ()))
        } else if recency(*old(c)).len() >= lru_capacity(*old(c)) {
            Some((recency(*old(c))[0], ()))
        } else {
            None
        }),
        lru_valid(*final(c)),
{
    c.push(k, ())
}

/// `LruCache::promote` of `k`: a held key becomes the most recently used;
/// tells whether it was held.
#[verifier::external_body]
pub(crate) fn lru_promote(c: &mut LruCache<RootKey, (), RandomState>, k: RootKey) -> (r: bool)
    ensures
        lru_capacity(*final(c)) == lru_capacity(*old(c)),
        r == recency(*old(c)).contains(k),
        recency(*final(c)) == (if r {
            without(recency(*old(c)), k).push(k)
        } else {
            recency(*old(c))
        }),
        lru_valid(*final(c)),
{
    c.promote(&k)
}

/// `LruCache::pop_entry` of `k`: removes the key if held and hands it back;
/// the other keys keep their order.
#[verifier::external_body]
pub(crate) fn lru_pop_entry(c: &mut LruCache<RootKey, (), RandomState>, k: RootKey) -> (r: Option<(RootKey, ())>)
    ensures
        lru_capacity(*final(c)) == lru_capacity(*old(c)),
        recency(*final(c)) == without(recency(*old(c)), k),
        r == (if recency(*old(c)).contains(k) {
            Some((k, ()))
        } else {
            None
        }),
        lru_valid(*final(c)),
{
    c.pop_entry(&k)
}

/// `LruCache::pop_lru`: removes and hands back the least recently used key;
/// none from an empty cache.
#[verifier::external_body]
pub(crate) fn lru_pop_lru(c: &mut LruCache<RootKey, (), RandomState>) -> (r: Option<(RootKey, ())>)
    ensures
        lru_capacity(*final(c)) == lru_capacity(*old(c)),
        recency(*old(c)).len() == 0 ==> r is None && recency(*final(c)) == recency(*old(c)),
        recency(*old(c)).len() > 0 ==> r == Some((recency(*old(c))[0], ())) && recency(*final(c))
            == recency(*old(c)).drop_first(),
        lru_valid(*final(c)),
{
    c.pop_lru()
}

/// `LruCache::len`: the number of keys held.
#[verifier::external_body]
pub(crate) fn lru_len(c: &LruCache<RootKey, (), RandomState>) -> (r: usize)
    ensures
        r == recency(*c).len(),
{
    c.len()
}

} // verus!
