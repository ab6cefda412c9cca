//! A mathematical map view for vectors used as association lists. The
//! registry keys peripherals by address and the advertisement data keys
//! payloads by manufacturer identifier or service UUID; all three share this
//! view: each element carries its key, keys are pairwise distinct, and the
//! view is the map from key to modelled value.

use vstd::prelude::*;

verus! {

/// The map view of `s`, where `keyf` extracts an element's key and `valf`
/// its modelled value. A later element overrides an earlier one with the
/// same key (no such pair exists when `keys_unique` holds).
pub open spec fn kv_view<V, K, M>(s: Seq<V>, keyf: spec_fn(V) -> K, valf: spec_fn(V) -> M) -> Map<
    K,
    M,
>
    decreases s.len(),
{
    if s.len() == 0 {
        Map::empty()
    } else {
        kv_view(s.drop_last(), keyf, valf).insert(keyf(s.last()), valf(s.last()))
    }
}

/// Whether the keys of `s` are pairwise distinct.
pub open spec fn keys_unique<V, K>(s: Seq<V>, keyf: spec_fn(V) -> K) -> bool {
    forall|i: int, j: int|
        #![trigger keyf(s[i]), keyf(s[j])]
        0 <= i < j < s.len() ==> keyf(s[i]) != keyf(s[j])
}

/// A key is in the view's domain exactly when some element carries it.
pub proof fn lemma_kv_view_contains<V, K, M>(
    s: Seq<V>,
    keyf: spec_fn(V) -> K,
    valf: spec_fn(V) -> M,
    k: K,
)
    ensures
        kv_view(s, keyf, valf).dom().contains(k) <==> exists|i: int|
            0 <= i < s.len() && keyf(#[trigger] s[i]) == k,
    decreases s.len(),
{
    if s.len() > 0 {
        lemma_kv_view_contains(s.drop_last(), keyf, valf, k);
        if keyf(s.last()) == k {
            assert(keyf(s[s.len() - 1]) == k);
        } else if exists|i: int| 0 <= i < s.len() && keyf(#[trigger] s[i]) == k {
            let i = choose|i: int| 0 <= i < s.len() && keyf(#[trigger] s[i]) == k;
            assert(i < s.len() - 1);
            assert(keyf(s.drop_last()[i]) == k);
        }
    }
}

/// Under unique keys, the view sends each element's key to its value.
pub proof fn lemma_kv_view_index<V, K, M>(
    s: Seq<V>,
    keyf: spec_fn(V) -> K,
    valf: spec_fn(V) -> M,
    i: int,
)
    requires
        keys_unique(s, keyf),
        0 <= i < s.len(),
    ensures
        kv_view(s, keyf, valf).dom().contains(keyf(s[i])),
        kv_view(s, keyf, valf)[keyf(s[i])] == valf(s[i]),
    decreases s.len(),
{
    if i == s.len() - 1 {
    } else {
        assert(keyf(s[i]) != keyf(s[s.len() - 1]));
        assert(s.drop_last()[i] == s[i]);
        lemma_kv_view_index(s.drop_last(), keyf, valf, i);
    }
}

/// Appending an element inserts its key/value pair into the view.
pub proof fn lemma_kv_view_push<V, K, M>(
    s: Seq<V>,
    keyf: spec_fn(V) -> K,
    valf: spec_fn(V) -> M,
    e: V,
)
    ensures
        kv_view(s.push(e), keyf, valf) == kv_view(s, keyf, valf).insert(keyf(e), valf(e)),
{
    assert(s.push(e).drop_last() =~= s);
    assert(s.push(e).last() == e);
}

/// Under unique keys, replacing the element at `i` by one with the same key
/// updates that key's value in the view.
pub proof fn lemma_kv_view_update<V, K, M>(
    s: Seq<V>,
    keyf: spec_fn(V) -> K,
    valf: spec_fn(V) -> M,
    i: int,
    e: V,
)
    requires
        keys_unique(s, keyf),
        0 <= i < s.len(),
        keyf(e) == keyf(s[i]),
    ensures
        kv_view(s.update(i, e), keyf, valf) == kv_view(s, keyf, valf).insert(keyf(e), valf(e)),
    decreases s.len(),
{
    let t = s.update(i, e);
    if i == s.len() - 1 {
        assert(t.drop_last() =~= s.drop_last());
        assert(t.last() == e);
        assert(kv_view(s.drop_last(), keyf, valf).insert(keyf(s.last()), valf(s.last())).insert(
            keyf(e),
            valf(e),
        ) =~= kv_view(s.drop_last(), keyf, valf).insert(keyf(e), valf(e)));
    } else {
        assert(t.drop_last() =~= s.drop_last().update(i, e));
        assert(t.last() == s.last());
        assert(s.drop_last()[i] == s[i]);
        lemma_kv_view_update(s.drop_last(), keyf, valf, i, e);
        assert(keyf(s[i]) != keyf(s[s.len() - 1]));
        assert(kv_view(s.drop_last(), keyf, valf).insert(keyf(e), valf(e)).insert(
            keyf(s.last()),
            valf(s.last()),
        ) =~= kv_view(s.drop_last(), keyf, valf).insert(keyf(s.last()), valf(s.last())).insert(
            keyf(e),
            valf(e),
        ));
    }
}

/// Sequences whose elements agree key-for-key and value-for-value have the
/// same view.
pub proof fn lemma_kv_view_congruence<V, K, M>(
    s: Seq<V>,
    t: Seq<V>,
    keyf: spec_fn(V) -> K,
    valf: spec_fn(V) -> M,
)
    requires
        s.len() == t.len(),
        forall|i: int|
            0 <= i < s.len() ==> keyf(#[trigger] s[i]) == keyf(t[i]) && valf(s[i]) == valf(t[i]),
    ensures
        kv_view(s, keyf, valf) == kv_view(t, keyf, valf),
    decreases s.len(),
{
    if s.len() > 0 {
        lemma_kv_view_congruence(s.drop_last(), t.drop_last(), keyf, valf);
        assert(keyf(s[s.len() - 1]) == keyf(t[t.len() - 1]));
        assert(valf(s[s.len() - 1]) == valf(t[t.len() - 1]));
    }
}

/// One step of a left-to-right walk over `s`: the view of one more element.
pub proof fn lemma_kv_view_take_step<V, K, M>(
    s: Seq<V>,
    keyf: spec_fn(V) -> K,
    valf: spec_fn(V) -> M,
    i: int,
)
    requires
        0 <= i < s.len(),
    ensures
        kv_view(s.take(i + 1), keyf, valf) == kv_view(s.take(i), keyf, valf).insert(
            keyf(s[i]),
            valf(s[i]),
        ),
{
    assert(s.take(i + 1).drop_last() =~= s.take(i));
    assert(s.take(i + 1).last() == s[i]);
}

} // verus!
