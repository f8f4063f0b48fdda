//! Lists of keys with their values, read as maps.
//!
//! The library keeps its small tables in vectors. As long as no key stands
//! twice in such a list, it is a map, and the lemmas here say what the
//! vector operations do to that map.

use vstd::prelude::*;

verus! {

/// The map that the list `pairs` stands for. Where a key stands twice, the
/// later pair counts.
pub open spec fn map_of<K, V>(pairs: Seq<(K, V)>) -> Map<K, V>
    decreases pairs.len(),
{
    if pairs.len() == 0 {
        Map::empty()
    } else {
        map_of(pairs.drop_last()).insert(pairs.last().0, pairs.last().1)
    }
}

/// No key stands twice in `pairs`.
pub open spec fn distinct_keys<K, V>(pairs: Seq<(K, V)>) -> bool {
    forall|i: int, j: int|
        0 <= i < j < pairs.len() ==> (#[trigger] pairs[i]).0 != (#[trigger] pairs[j]).0
}

/// The keys of the map are the keys of the list.
pub proof fn lemma_map_of_dom<K, V>(pairs: Seq<(K, V)>)
    ensures
        forall|k: K|
            map_of(pairs).contains_key(k) <==> exists|i: int|
                0 <= i < pairs.len() && (#[trigger] pairs[i]).0 == k,
    decreases pairs.len(),
{
    if pairs.len() > 0 {
        let front = pairs.drop_last();
        lemma_map_of_dom(front);
        assert forall|k: K| map_of(pairs).contains_key(k) implies exists|i: int|
            0 <= i < pairs.len() && (#[trigger] pairs[i]).0 == k by {
            if k == pairs.last().0 {
                assert(pairs[pairs.len() - 1].0 == k);
            } else {
                assert(map_of(front).contains_key(k));
                let i = choose|i: int| 0 <= i < front.len() && (#[trigger] front[i]).0 == k;
                assert(front[i] == pairs[i]);
                assert(pairs[i].0 == k);
            }
        }
        assert forall|k: K|
            (exists|i: int| 0 <= i < pairs.len() && (#[trigger] pairs[i]).0 == k) implies map_of(
            pairs,
        ).contains_key(k) by {
            let i = choose|i: int| 0 <= i < pairs.len() && (#[trigger] pairs[i]).0 == k;
            if i < pairs.len() - 1 {
                assert(front[i] == pairs[i]);
                assert(front[i].0 == k);
                assert(map_of(front).contains_key(k));
            } else {
                assert(pairs[i] == pairs.last());
            }
        }
    }
}

/// A list without its last pair has no key twice if the list has none.
pub proof fn lemma_distinct_front<K, V>(pairs: Seq<(K, V)>)
    requires
        distinct_keys(pairs),
        pairs.len() > 0,
    ensures
        distinct_keys(pairs.drop_last()),
{
    let front = pairs.drop_last();
    assert forall|i: int, j: int| 0 <= i < j < front.len() implies (#[trigger] front[i]).0 != (
    #[trigger] front[j]).0 by {
        assert(front[i] == pairs[i]);
        assert(front[j] == pairs[j]);
    }
}

/// Under each key of the list the map holds the value that stands with it.
pub proof fn lemma_map_of_values<K, V>(pairs: Seq<(K, V)>)
    requires
        distinct_keys(pairs),
    ensures
        forall|i: int|
            0 <= i < pairs.len() ==> map_of(pairs).contains_key((#[trigger] pairs[i]).0) && map_of(
                pairs,
            )[pairs[i].0] == pairs[i].1,
    decreases pairs.len(),
{
    if pairs.len() > 0 {
        let front = pairs.drop_last();
        lemma_distinct_front(pairs);
        lemma_map_of_values(front);
        assert forall|i: int| 0 <= i < pairs.len() implies map_of(pairs).contains_key(
            (#[trigger] pairs[i]).0,
        ) && map_of(pairs)[pairs[i].0] == pairs[i].1 by {
            if i < pairs.len() - 1 {
                assert(front[i] == pairs[i]);
                assert(pairs[i].0 != pairs[pairs.len() - 1].0);
            }
        }
    }
}

/// The map has as many keys as the list has pairs.
pub proof fn lemma_map_of_len<K, V>(pairs: Seq<(K, V)>)
    requires
        distinct_keys(pairs),
    ensures
        map_of(pairs).dom().finite(),
        map_of(pairs).dom().len() == pairs.len(),
    decreases pairs.len(),
{
    if pairs.len() > 0 {
        let front = pairs.drop_last();
        lemma_distinct_front(pairs);
        lemma_map_of_len(front);
        lemma_map_of_dom(front);
        if map_of(front).contains_key(pairs.last().0) {
            let i = choose|i: int| 0 <= i < front.len() && (#[trigger] front[i]).0 == pairs.last().0;
            assert(front[i] == pairs[i]);
            assert(pairs[i].0 != pairs[pairs.len() - 1].0);
        }
    }
}

/// A pair with a new key, put at the end, adds its key to the map.
pub proof fn lemma_map_of_push<K, V>(pairs: Seq<(K, V)>, k: K, v: V)
    requires
        distinct_keys(pairs),
        !map_of(pairs).contains_key(k),
    ensures
        distinct_keys(pairs.push((k, v))),
        map_of(pairs.push((k, v))) == map_of(pairs).insert(k, v),
{
    let next = pairs.push((k, v));
    assert(next.drop_last() == pairs);
    lemma_map_of_dom(pairs);
    assert forall|i: int, j: int| 0 <= i < j < next.len() implies (#[trigger] next[i]).0 != (
    #[trigger] next[j]).0 by {
        assert(next[i] == pairs[i]);
        if j < pairs.len() {
            assert(next[j] == pairs[j]);
        }
    }
}

/// Taking one pair out takes its key out of the map.
pub proof fn lemma_map_of_remove<K, V>(pairs: Seq<(K, V)>, at: int)
    requires
        distinct_keys(pairs),
        0 <= at < pairs.len(),
    ensures
        distinct_keys(pairs.remove(at)),
        map_of(pairs.remove(at)) == map_of(pairs).remove(pairs[at].0),
{
    let rest = pairs.remove(at);
    assert forall|i: int, j: int| 0 <= i < j < rest.len() implies (#[trigger] rest[i]).0 != (
    #[trigger] rest[j]).0 by {
        let a = if i < at { i } else { i + 1 };
        let b = if j < at { j } else { j + 1 };
        assert(rest[i] == pairs[a]);
        assert(rest[j] == pairs[b]);
    }
    lemma_map_of_dom(pairs);
    lemma_map_of_dom(rest);
    lemma_map_of_values(pairs);
    lemma_map_of_values(rest);
    let want = map_of(pairs).remove(pairs[at].0);
    assert forall|k: K| map_of(rest).contains_key(k) <==> want.contains_key(k) by {
        if map_of(rest).contains_key(k) {
            let i = choose|i: int| 0 <= i < rest.len() && (#[trigger] rest[i]).0 == k;
            let a = if i < at { i } else { i + 1 };
            assert(rest[i] == pairs[a]);
            assert(pairs[a].0 == k);
        }
        if want.contains_key(k) {
            let a = choose|a: int| 0 <= a < pairs.len() && (#[trigger] pairs[a]).0 == k;
            let i = if a < at { a } else { a - 1 };
            assert(rest[i] == pairs[a]);
            assert(rest[i].0 == k);
        }
    }
    assert forall|k: K| map_of(rest).contains_key(k) implies map_of(rest)[k] == want[k] by {
        let i = choose|i: int| 0 <= i < rest.len() && (#[trigger] rest[i]).0 == k;
        let a = if i < at { i } else { i + 1 };
        assert(rest[i] == pairs[a]);
    }
    assert(map_of(rest) =~= want);
}

/// Putting another value in the place of a pair's puts it under the pair's
/// key.
pub proof fn lemma_map_of_update<K, V>(pairs: Seq<(K, V)>, at: int, v: V)
    requires
        distinct_keys(pairs),
        0 <= at < pairs.len(),
    ensures
        distinct_keys(pairs.update(at, (pairs[at].0, v))),
        map_of(pairs.update(at, (pairs[at].0, v))) == map_of(pairs).insert(pairs[at].0, v),
{
    let key = pairs[at].0;
    let next = pairs.update(at, (key, v));
    assert forall|i: int, j: int| 0 <= i < j < next.len() implies (#[trigger] next[i]).0 != (
    #[trigger] next[j]).0 by {
        assert(next[i].0 == pairs[i].0);
        assert(next[j].0 == pairs[j].0);
    }
    lemma_map_of_dom(pairs);
    lemma_map_of_dom(next);
    lemma_map_of_values(pairs);
    lemma_map_of_values(next);
    let want = map_of(pairs).insert(key, v);
    assert forall|k: K| map_of(next).contains_key(k) <==> want.contains_key(k) by {
        if map_of(next).contains_key(k) {
            let i = choose|i: int| 0 <= i < next.len() && (#[trigger] next[i]).0 == k;
            assert(pairs[i].0 == k);
        }
        if want.contains_key(k) {
            if k == key {
                assert(next[at].0 == k);
            } else {
                let i = choose|i: int| 0 <= i < pairs.len() && (#[trigger] pairs[i]).0 == k;
                assert(next[i].0 == k);
            }
        }
    }
    assert forall|k: K| map_of(next).contains_key(k) implies map_of(next)[k] == want[k] by {
        let i = choose|i: int| 0 <= i < next.len() && (#[trigger] next[i]).0 == k;
        if i != at {
            assert(next[i] == pairs[i]);
        }
    }
    assert(map_of(next) =~= want);
}

} // verus!
