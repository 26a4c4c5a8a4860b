//! Association lists viewed as finite maps.
//!
//! The event and match registries keep their entries in plain vectors of
//! key/value pairs.  This module gives such a vector its mathematical
//! meaning: the map in which a later pair shadows an earlier one with the
//! same key, so looking a key up from the back of the list agrees with the
//! map.

use vstd::prelude::*;

verus! {

/// The finite map described by an association list; a later pair with the
/// same key shadows an earlier one.
pub open spec fn assoc_map<K: DeepView, V: DeepView>(s: Seq<(K, V)>) -> Map<K::V, V::V>
    decreases s.len(),
{
    if s.len() == 0 {
        Map::empty()
    } else {
        assoc_map(s.drop_last()).insert(s.last().0.deep_view(), s.last().1.deep_view())
    }
}

/// A key carried by no pair of the list is not in the map.
pub proof fn lemma_assoc_map_absent<K: DeepView, V: DeepView>(s: Seq<(K, V)>, k: K::V)
    requires
        forall|j: int| 0 <= j < s.len() ==> (#[trigger] s[j]).0.deep_view() != k,
    ensures
        !assoc_map(s).contains_key(k),
    decreases s.len(),
{
    if s.len() > 0 {
        assert(forall|j: int|
            0 <= j < s.drop_last().len() ==> (#[trigger] s.drop_last()[j]).0.deep_view() != k);
        lemma_assoc_map_absent(s.drop_last(), k);
    }
}

/// The pair whose key occurs nowhere later in the list gives the key its
/// value in the map.
pub proof fn lemma_assoc_map_last<K: DeepView, V: DeepView>(s: Seq<(K, V)>, i: int)
    requires
        0 <= i < s.len(),
        forall|j: int| i < j < s.len() ==> (#[trigger] s[j]).0.deep_view() != s[i].0.deep_view(),
    ensures
        assoc_map(s).contains_key(s[i].0.deep_view()),
        assoc_map(s)[s[i].0.deep_view()] == s[i].1.deep_view(),
    decreases s.len(),
{
    if i < s.len() - 1 {
        assert(forall|j: int|
            i < j < s.drop_last().len() ==> (#[trigger] s.drop_last()[j]).0.deep_view()
                != s.drop_last()[i].0.deep_view());
        lemma_assoc_map_last(s.drop_last(), i);
        assert(s.last().0.deep_view() != s[i].0.deep_view());
    }
}

/// Replacing the value of the pair whose key occurs nowhere later in the
/// list updates the map at that key and nothing else.
pub proof fn lemma_assoc_map_update_last<K: DeepView, V: DeepView>(s: Seq<(K, V)>, i: int, q: K, v: V)
    requires
        0 <= i < s.len(),
        q.deep_view() == s[i].0.deep_view(),
        forall|j: int| i < j < s.len() ==> (#[trigger] s[j]).0.deep_view() != s[i].0.deep_view(),
    ensures
        assoc_map(s.update(i, (q, v))) == assoc_map(s).insert(s[i].0.deep_view(), v.deep_view()),
    decreases s.len(),
{
    let k = s[i].0.deep_view();
    let t = s.update(i, (q, v));
    if i == s.len() - 1 {
        assert(t.drop_last() =~= s.drop_last());
        assert(t.last() == (q, v));
        assert(assoc_map(t) == assoc_map(s.drop_last()).insert(k, v.deep_view()));
        assert(assoc_map(s.drop_last()).insert(k, v.deep_view()) =~= assoc_map(s).insert(
            k,
            v.deep_view(),
        ));
    } else {
        assert(t.drop_last() =~= s.drop_last().update(i, (q, v)));
        assert(forall|j: int|
            i < j < s.drop_last().len() ==> (#[trigger] s.drop_last()[j]).0.deep_view()
                != s.drop_last()[i].0.deep_view());
        lemma_assoc_map_update_last(s.drop_last(), i, q, v);
        assert(t.last() == s.last());
        assert(s.last().0.deep_view() != k);
        assert(assoc_map(s.drop_last()).insert(k, v.deep_view()).insert(
            s.last().0.deep_view(),
            s.last().1.deep_view(),
        ) =~= assoc_map(s).insert(k, v.deep_view()));
    }
}

/// Appending a pair inserts its key into the map.
pub proof fn lemma_assoc_map_push<K: DeepView, V: DeepView>(s: Seq<(K, V)>, q: K, v: V)
    ensures
        assoc_map(s.push((q, v))) == assoc_map(s).insert(q.deep_view(), v.deep_view()),
{
    assert(s.push((q, v)).drop_last() =~= s);
    assert(s.push((q, v)).last() == (q, v));
}

} // verus!
