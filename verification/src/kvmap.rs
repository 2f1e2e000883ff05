//! The mathematical model shared by the store tables: a vector of keyed rows
//! seen as a map from key to row model.

use vstd::prelude::*;

verus! {

/// The map described by an association list, later entries winning.
pub open spec fn map_of<V>(kvs: Seq<(Seq<char>, V)>) -> Map<Seq<char>, V>
    decreases kvs.len(),
{
    if kvs.len() == 0 {
        Map::empty()
    } else {
        map_of(kvs.drop_last()).insert(kvs.last().0, kvs.last().1)
    }
}

/// No two entries share a key.
pub open spec fn uniq_keys<V>(kvs: Seq<(Seq<char>, V)>) -> bool {
    forall|i: int, j: int| 0 <= i < j < kvs.len() ==> (#[trigger] kvs[i]).0 != (#[trigger] kvs[j]).0
}

/// A key is in the map exactly when some entry carries it.
pub proof fn lemma_map_of_contains<V>(kvs: Seq<(Seq<char>, V)>, k: Seq<char>)
    ensures
        map_of(kvs).dom().contains(k) <==> exists|i: int|
            0 <= i < kvs.len() && (#[trigger] kvs[i]).0 == k,
    decreases kvs.len(),
{
    if kvs.len() == 0 {
    } else {
        lemma_map_of_contains(kvs.drop_last(), k);
        if kvs.last().0 == k {
            assert(kvs[kvs.len() - 1].0 == k);
        } else {
            if map_of(kvs).dom().contains(k) {
                let i = choose|i: int| 0 <= i < kvs.drop_last().len() && (#[trigger] kvs.drop_last()[i]).0 == k;
                assert(kvs[i].0 == k);
            }
            if exists|i: int| 0 <= i < kvs.len() && (#[trigger] kvs[i]).0 == k {
                let i = choose|i: int| 0 <= i < kvs.len() && (#[trigger] kvs[i]).0 == k;
                assert(i < kvs.len() - 1);
                assert(kvs.drop_last()[i].0 == k);
            }
        }
    }
}

/// With unique keys, the map sends each entry's key to that entry's value.
pub proof fn lemma_map_of_index<V>(kvs: Seq<(Seq<char>, V)>, i: int)
    requires
        uniq_keys(kvs),
        0 <= i < kvs.len(),
    ensures
        map_of(kvs).dom().contains(kvs[i].0),
        map_of(kvs)[kvs[i].0] == kvs[i].1,
    decreases kvs.len(),
{
    if i == kvs.len() - 1 {
    } else {
        assert(kvs[i].0 != kvs[kvs.len() - 1].0);
        assert(kvs.drop_last()[i] == kvs[i]);
        lemma_map_of_index(kvs.drop_last(), i);
    }
}

/// Appending an entry inserts it into the map.
pub proof fn lemma_map_of_push<V>(kvs: Seq<(Seq<char>, V)>, k: Seq<char>, v: V)
    ensures
        map_of(kvs.push((k, v))) == map_of(kvs).insert(k, v),
{
    assert(kvs.push((k, v)).drop_last() =~= kvs);
}

/// With unique keys, dropping the entry at `i` removes its key from the map.
pub proof fn lemma_map_of_remove<V>(kvs: Seq<(Seq<char>, V)>, i: int)
    requires
        uniq_keys(kvs),
        0 <= i < kvs.len(),
    ensures
        map_of(kvs.remove(i)) =~= map_of(kvs).remove(kvs[i].0),
    decreases kvs.len(),
{
    let k = kvs[i].0;
    if i == kvs.len() - 1 {
        assert(kvs.remove(i) =~= kvs.drop_last());
        lemma_map_of_contains(kvs.drop_last(), k);
        assert(forall|j: int|
            0 <= j < kvs.drop_last().len() ==> (#[trigger] kvs.drop_last()[j]).0 != k);
        assert(!map_of(kvs.drop_last()).dom().contains(k));
        assert(map_of(kvs) == map_of(kvs.drop_last()).insert(k, kvs.last().1));
        assert(map_of(kvs).remove(k) =~= map_of(kvs.drop_last()));
    } else {
        let last = kvs.last();
        assert(kvs.remove(i).last() == last);
        assert(kvs.remove(i).drop_last() =~= kvs.drop_last().remove(i));
        assert(forall|a: int, b: int|
            0 <= a < b < kvs.drop_last().len() ==> (#[trigger] kvs.drop_last()[a]).0 != (
            #[trigger] kvs.drop_last()[b]).0);
        lemma_map_of_remove(kvs.drop_last(), i);
        assert(kvs.drop_last()[i] == kvs[i]);
        assert(map_of(kvs.remove(i)) == map_of(kvs.drop_last().remove(i)).insert(
            last.0,
            last.1,
        ));
        assert(last.0 != k);
        assert(map_of(kvs.remove(i)) =~= map_of(kvs).remove(k));
    }
}

} // verus!
