//! Lists of key-value pairs in which no key occurs twice, read as finite maps.

use vstd::prelude::*;

verus! {

/// No key occurs twice.
pub open spec fn keys_distinct<K, V>(entries: Seq<(K, V)>) -> bool {
    forall|i: int, j: int|
        0 <= i < entries.len() && 0 <= j < entries.len() && i != j ==> #[trigger] entries[i].0
            != #[trigger] entries[j].0
}

/// Whether some entry has the key `k`.
pub open spec fn has_key<K, V>(entries: Seq<(K, V)>, k: K) -> bool {
    exists|i: int| 0 <= i < entries.len() && #[trigger] entries[i].0 == k
}

/// The map from each key of the list to the value of its entry.
pub open spec fn keyed_map<K, V>(entries: Seq<(K, V)>) -> Map<K, V> {
    Map::new(
        |k: K| has_key(entries, k),
        |k: K| entries[choose|i: int| 0 <= i < entries.len() && #[trigger] entries[i].0 == k].1,
    )
}

pub proof fn lemma_keyed_map_at<K, V>(entries: Seq<(K, V)>, i: int)
    requires
        keys_distinct(entries),
        0 <= i < entries.len(),
    ensures
        keyed_map(entries).contains_key(entries[i].0),
        keyed_map(entries)[entries[i].0] == entries[i].1,
{
    let k = entries[i].0;
    assert(has_key(entries, k));
    let j = choose|j: int| 0 <= j < entries.len() && #[trigger] entries[j].0 == k;
    assert(j == i);
}

pub proof fn lemma_keyed_map_empty<K, V>(entries: Seq<(K, V)>)
    requires
        entries.len() == 0,
    ensures
        keyed_map(entries) == Map::<K, V>::empty(),
        keys_distinct(entries),
{
    assert(keyed_map(entries) =~= Map::<K, V>::empty());
}

pub proof fn lemma_keyed_map_push<K, V>(entries: Seq<(K, V)>, k: K, v: V)
    requires
        keys_distinct(entries),
        !has_key(entries, k),
    ensures
        keys_distinct(entries.push((k, v))),
        keyed_map(entries.push((k, v))) == keyed_map(entries).insert(k, v),
{
    let post = entries.push((k, v));
    assert forall|i: int, j: int|
        0 <= i < post.len() && 0 <= j < post.len() && i != j implies #[trigger] post[i].0
        != #[trigger] post[j].0 by {
        if i == entries.len() {
            assert(entries[j].0 == post[j].0);
        } else if j == entries.len() {
            assert(entries[i].0 == post[i].0);
        } else {
            assert(entries[i] == post[i] && entries[j] == post[j]);
        }
    }
    let m = keyed_map(entries).insert(k, v);
    assert forall|x: K| keyed_map(post).contains_key(x) <==> m.contains_key(x) by {
        if has_key(entries, x) {
            let i = choose|i: int| 0 <= i < entries.len() && #[trigger] entries[i].0 == x;
            assert(post[i].0 == x);
        }
        if has_key(post, x) && x != k {
            let i = choose|i: int| 0 <= i < post.len() && #[trigger] post[i].0 == x;
            assert(entries[i].0 == x);
        }
        if x == k {
            assert(post[entries.len() as int].0 == x);
        }
    }
    assert forall|x: K| #[trigger] keyed_map(post).contains_key(x) implies keyed_map(post)[x]
        == m[x] by {
        let i = choose|i: int| 0 <= i < post.len() && #[trigger] post[i].0 == x;
        lemma_keyed_map_at(post, i);
        if i < entries.len() {
            assert(entries[i] == post[i]);
            lemma_keyed_map_at(entries, i);
        }
    }
    assert(keyed_map(post) =~= m);
}

pub proof fn lemma_keyed_map_update<K, V>(entries: Seq<(K, V)>, at: int, v: V)
    requires
        keys_distinct(entries),
        0 <= at < entries.len(),
    ensures
        keys_distinct(entries.update(at, (entries[at].0, v))),
        keyed_map(entries.update(at, (entries[at].0, v))) == keyed_map(entries).insert(
            entries[at].0,
            v,
        ),
{
    let k = entries[at].0;
    let post = entries.update(at, (k, v));
    assert forall|i: int, j: int|
        0 <= i < post.len() && 0 <= j < post.len() && i != j implies #[trigger] post[i].0
        != #[trigger] post[j].0 by {
        assert(post[i].0 == entries[i].0);
        assert(post[j].0 == entries[j].0);
    }
    let m = keyed_map(entries).insert(k, v);
    assert forall|x: K| keyed_map(post).contains_key(x) <==> m.contains_key(x) by {
        if has_key(entries, x) {
            let i = choose|i: int| 0 <= i < entries.len() && #[trigger] entries[i].0 == x;
            assert(post[i].0 == entries[i].0);
        }
        if has_key(post, x) {
            let i = choose|i: int| 0 <= i < post.len() && #[trigger] post[i].0 == x;
            assert(entries[i].0 == post[i].0);
        }
        lemma_keyed_map_at(entries, at);
    }
    assert forall|x: K| #[trigger] keyed_map(post).contains_key(x) implies keyed_map(post)[x]
        == m[x] by {
        let i = choose|i: int| 0 <= i < post.len() && #[trigger] post[i].0 == x;
        lemma_keyed_map_at(post, i);
        if i != at {
            assert(entries[i] == post[i]);
            lemma_keyed_map_at(entries, i);
        }
    }
    assert(keyed_map(post) =~= m);
}

/// The map built by inserting the entries in order: where a key occurs more
/// than once, its last entry counts.
pub open spec fn inserted_map<K, V>(entries: Seq<(K, V)>) -> Map<K, V>
    decreases entries.len(),
{
    if entries.len() == 0 {
        Map::empty()
    } else {
        inserted_map(entries.drop_last()).insert(entries.last().0, entries.last().1)
    }
}

pub proof fn lemma_inserted_map_prefix<K, V>(entries: Seq<(K, V)>, k: int)
    requires
        0 <= k < entries.len(),
    ensures
        inserted_map(entries.subrange(0, k + 1)) == inserted_map(entries.subrange(0, k)).insert(
            entries[k].0,
            entries[k].1,
        ),
{
    assert(entries.subrange(0, k + 1).drop_last() =~= entries.subrange(0, k));
}

} // verus!
