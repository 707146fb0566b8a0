//! Maps keyed by strings, built from lists in which a later entry replaces
//! an earlier one of the same key.
use vstd::prelude::*;

verus! {

/// The entries of `s` by key; of two with the same key the later one counts.
pub open spec fn keyed_map<T, V>(
    s: Seq<T>,
    key: spec_fn(T) -> Seq<char>,
    val: spec_fn(T) -> V,
) -> Map<Seq<char>, V>
    decreases s.len(),
{
    if s.len() == 0 {
        Map::empty()
    } else {
        keyed_map(s.drop_last(), key, val).insert(key(s.last()), val(s.last()))
    }
}

/// Entries after `i` that have another key do not change what the map holds
/// at `k`.
pub proof fn lemma_keyed_map_prefix<T, V>(
    s: Seq<T>,
    key: spec_fn(T) -> Seq<char>,
    val: spec_fn(T) -> V,
    i: int,
    k: Seq<char>,
)
    requires
        0 <= i <= s.len(),
        forall|j: int| i <= j < s.len() ==> key(#[trigger] s[j]) != k,
    ensures
        keyed_map(s, key, val).contains_key(k) == keyed_map(s.subrange(0, i), key, val).contains_key(k),
        keyed_map(s, key, val).contains_key(k) ==> keyed_map(s, key, val)[k] == keyed_map(
            s.subrange(0, i),
            key,
            val,
        )[k],
    decreases s.len() - i,
{
    if i < s.len() {
        lemma_keyed_map_prefix(s.drop_last(), key, val, i, k);
        assert(s.drop_last().subrange(0, i) =~= s.subrange(0, i));
    } else {
        assert(s.subrange(0, i) =~= s);
    }
}

/// The keys of the map are the keys of the entries.
pub proof fn lemma_keyed_map_dom<T, V>(
    s: Seq<T>,
    key: spec_fn(T) -> Seq<char>,
    val: spec_fn(T) -> V,
    k: Seq<char>,
)
    ensures
        keyed_map(s, key, val).contains_key(k) <==> exists|j: int|
            0 <= j < s.len() && key(#[trigger] s[j]) == k,
    decreases s.len(),
{
    if s.len() > 0 {
        lemma_keyed_map_dom(s.drop_last(), key, val, k);
        if exists|j: int| 0 <= j < s.len() && key(#[trigger] s[j]) == k {
            let j = choose|j: int| 0 <= j < s.len() && key(#[trigger] s[j]) == k;
            if j < s.len() - 1 {
                assert(s.drop_last()[j] == s[j]);
            }
        }
        if exists|j: int| 0 <= j < s.drop_last().len() && key(#[trigger] s.drop_last()[j]) == k {
            let j = choose|j: int| 0 <= j < s.drop_last().len() && key(#[trigger] s.drop_last()[j]) == k;
            assert(s[j] == s.drop_last()[j]);
        }
    }
}

} // verus!
