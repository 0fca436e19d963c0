//! Lists of text-keyed pairs in which no key occurs twice: the
//! representation behind the entries of a week and behind the week cache.

use vstd::prelude::*;

verus! {

/// Whether some pair of `items` has the key `key`.
pub open spec fn has_key<V>(items: Seq<(String, V)>, key: Seq<char>) -> bool {
    exists|i: int| 0 <= i < items.len() && (#[trigger] items[i]).0@ == key
}

/// The position of the pair with the key `key`, if there is one.
pub open spec fn key_index<V>(items: Seq<(String, V)>, key: Seq<char>) -> int {
    choose|i: int| 0 <= i < items.len() && (#[trigger] items[i]).0@ == key
}

/// Whether no key occurs in two pairs of `items`.
pub open spec fn keys_distinct<V>(items: Seq<(String, V)>) -> bool {
    forall|i: int, j: int|
        0 <= i < j < items.len() ==> (#[trigger] items[i]).0@ != (#[trigger] items[j]).0@
}

/// In a list without repeated keys, a key is found where it stands.
pub proof fn lemma_key_index<V>(items: Seq<(String, V)>, i: int)
    requires
        keys_distinct(items),
        0 <= i < items.len(),
    ensures
        has_key(items, items[i].0@),
        key_index(items, items[i].0@) == i,
{
    let key = items[i].0@;
    let j = key_index(items, key);
    assert(0 <= j < items.len() && items[j].0@ == key);
    if j < i {
        assert(items[j].0@ != items[i].0@);
    }
    if i < j {
        assert(items[i].0@ != items[j].0@);
    }
}

/// Adding a pair under a new key keeps the keys distinct, and adds that key
/// and no other.
pub proof fn lemma_push_key<V>(items: Seq<(String, V)>, pair: (String, V))
    requires
        keys_distinct(items),
        !has_key(items, pair.0@),
    ensures
        keys_distinct(items.push(pair)),
        forall|k: Seq<char>| has_key(items.push(pair), k) <==> (k == pair.0@ || has_key(items, k)),
        forall|k: Seq<char>|
            has_key(items, k) ==> key_index(items.push(pair), k) == key_index(items, k),
        key_index(items.push(pair), pair.0@) == items.len(),
{
    let after = items.push(pair);
    assert forall|i: int, j: int| 0 <= i < j < after.len() implies (#[trigger] after[i]).0@ != (
    #[trigger] after[j]).0@ by {
        assert(after[i] == items[i]);
        if j < items.len() {
            assert(after[j] == items[j]);
        }
    }
    assert(after[items.len() as int] == pair);
    assert forall|k: Seq<char>| has_key(after, k) <==> (k == pair.0@ || has_key(items, k)) by {
        if has_key(after, k) {
            let i = key_index(after, k);
            if i < items.len() {
                assert(after[i] == items[i]);
            }
        }
        if has_key(items, k) {
            let i = key_index(items, k);
            assert(after[i] == items[i]);
        }
    }
    assert forall|k: Seq<char>| has_key(items, k) implies key_index(after, k) == key_index(
        items,
        k,
    ) by {
        let i = key_index(items, k);
        assert(after[i] == items[i]);
        lemma_key_index(after, i);
    }
    lemma_key_index(after, items.len() as int);
}

/// Replacing a pair by one with the same key keeps the keys distinct, and
/// every key where it stood.
pub proof fn lemma_update_key<V>(items: Seq<(String, V)>, i: int, pair: (String, V))
    requires
        keys_distinct(items),
        0 <= i < items.len(),
        items[i].0@ == pair.0@,
    ensures
        keys_distinct(items.update(i, pair)),
        forall|k: Seq<char>| has_key(items.update(i, pair), k) <==> has_key(items, k),
        forall|k: Seq<char>|
            has_key(items, k) ==> key_index(items.update(i, pair), k) == key_index(items, k),
        key_index(items, pair.0@) == i,
{
    let after = items.update(i, pair);
    assert forall|a: int, b: int| 0 <= a < b < after.len() implies (#[trigger] after[a]).0@ != (
    #[trigger] after[b]).0@ by {
        assert(after[a].0@ == items[a].0@);
        assert(after[b].0@ == items[b].0@);
    }
    assert forall|k: Seq<char>| has_key(after, k) <==> has_key(items, k) by {
        if has_key(after, k) {
            let j = key_index(after, k);
            assert(after[j].0@ == items[j].0@);
        }
        if has_key(items, k) {
            let j = key_index(items, k);
            assert(after[j].0@ == items[j].0@);
        }
    }
    assert forall|k: Seq<char>| has_key(items, k) implies key_index(after, k) == key_index(
        items,
        k,
    ) by {
        let j = key_index(items, k);
        assert(after[j].0@ == items[j].0@);
        lemma_key_index(after, j);
    }
    lemma_key_index(items, i);
}

/// The map that a list of pairs stands for: each key to what `see` shows of
/// the value beside it.
pub open spec fn keyed_map<V, W>(items: Seq<(String, V)>, see: spec_fn(V) -> W) -> Map<
    Seq<char>,
    W,
> {
    Map::new(|k: Seq<char>| has_key(items, k), |k: Seq<char>| see(items[key_index(items, k)].1))
}

/// Adding a pair under a new key inserts it into the map.
pub proof fn lemma_push_inserts<V, W>(
    items: Seq<(String, V)>,
    pair: (String, V),
    see: spec_fn(V) -> W,
)
    requires
        keys_distinct(items),
        !has_key(items, pair.0@),
    ensures
        keys_distinct(items.push(pair)),
        keyed_map(items.push(pair), see) == keyed_map(items, see).insert(pair.0@, see(pair.1)),
{
    lemma_push_key(items, pair);
    let after = items.push(pair);
    assert(after[items.len() as int] == pair);
    assert forall|k: Seq<char>| has_key(items, k) implies after[key_index(after, k)]
        == items[key_index(items, k)] by {
        let j = key_index(items, k);
        assert(0 <= j < items.len() && items[j].0@ == k);
    }
    assert(keyed_map(after, see) =~= keyed_map(items, see).insert(pair.0@, see(pair.1)));
}

/// Replacing a pair by one with the same key inserts the new value into the
/// map.
pub proof fn lemma_update_inserts<V, W>(
    items: Seq<(String, V)>,
    i: int,
    pair: (String, V),
    see: spec_fn(V) -> W,
)
    requires
        keys_distinct(items),
        0 <= i < items.len(),
        items[i].0@ == pair.0@,
    ensures
        keys_distinct(items.update(i, pair)),
        keyed_map(items.update(i, pair), see) == keyed_map(items, see).insert(
            pair.0@,
            see(pair.1),
        ),
{
    lemma_update_key(items, i, pair);
    lemma_key_index(items, i);
    let after = items.update(i, pair);
    assert forall|k: Seq<char>| has_key(items, k) && k != pair.0@ implies after[key_index(
        after,
        k,
    )] == items[key_index(items, k)] by {
        let j = key_index(items, k);
        assert(0 <= j < items.len() && items[j].0@ == k);
    }
    assert(keyed_map(after, see) =~= keyed_map(items, see).insert(pair.0@, see(pair.1)));
}

/// Two lists that agree pair by pair, in the keys' texts and in what `see`
/// shows of the values, stand for the same map.
pub proof fn lemma_same_map<V, W>(
    a: Seq<(String, V)>,
    b: Seq<(String, V)>,
    see: spec_fn(V) -> W,
)
    requires
        keys_distinct(a),
        a.len() == b.len(),
        forall|i: int|
            0 <= i < a.len() ==> (#[trigger] b[i]).0@ == a[i].0@ && see(b[i].1) == see(a[i].1),
    ensures
        keys_distinct(b),
        keyed_map(b, see) == keyed_map(a, see),
{
    assert forall|i: int, j: int| 0 <= i < j < b.len() implies (#[trigger] b[i]).0@ != (
    #[trigger] b[j]).0@ by {
        assert(a[i].0@ != a[j].0@);
    }
    assert forall|k: Seq<char>| has_key(b, k) <==> has_key(a, k) by {
        if has_key(b, k) {
            let j = key_index(b, k);
            assert(a[j].0@ == k);
        }
        if has_key(a, k) {
            let j = key_index(a, k);
            assert(b[j].0@ == k);
        }
    }
    assert forall|k: Seq<char>| has_key(a, k) implies see(b[key_index(b, k)].1) == see(
        a[key_index(a, k)].1,
    ) by {
        let j = key_index(a, k);
        assert(b[j].0@ == k);
        lemma_key_index(b, j);
    }
    assert(keyed_map(b, see) =~= keyed_map(a, see));
}

/// What the map holds under the key of the pair at position `i`.
pub proof fn lemma_map_at<V, W>(items: Seq<(String, V)>, i: int, see: spec_fn(V) -> W)
    requires
        keys_distinct(items),
        0 <= i < items.len(),
    ensures
        keyed_map(items, see).contains_key(items[i].0@),
        keyed_map(items, see)[items[i].0@] == see(items[i].1),
{
    lemma_key_index(items, i);
}

/// The position of the pair with the key `key`, if there is one.
pub fn find_key<V>(items: &Vec<(String, V)>, key: &String) -> (found: Option<usize>)
    ensures
        match found {
            Some(i) => i < items.len() && items@[i as int].0@ == key@,
            None => !has_key(items@, key@),
        },
{
    let mut i: usize = 0;
    while i < items.len()
        invariant
            i <= items.len(),
            forall|j: int| 0 <= j < i ==> (#[trigger] items@[j]).0@ != key@,
        decreases items.len() - i,
    {
        if items[i].0 == *key {
            return Some(i);
        }
        i = i + 1;
    }
    None
}

} // verus!
