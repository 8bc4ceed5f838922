//! Lists of key-value entries read as maps.

use vstd::prelude::*;

verus! {

/// No key occurs twice in `entries`.
pub open spec fn distinct_keys<K, V>(entries: Seq<(K, V)>) -> bool {
    forall|i: int, j: int|
        0 <= i < j < entries.len() ==> (#[trigger] entries[i]).0 != (#[trigger] entries[j]).0
}

/// Some entry of `entries` has the key `key`.
pub open spec fn has_key<K, V>(entries: Seq<(K, V)>, key: K) -> bool {
    exists|i: int| 0 <= i < entries.len() && (#[trigger] entries[i]).0 == key
}

/// The map that a list of entries makes: a later entry replaces an earlier
/// one with the same key.
pub open spec fn map_of<K, V>(entries: Seq<(K, V)>) -> Map<K, V>
    decreases entries.len(),
{
    if entries.len() == 0 {
        Map::empty()
    } else {
        map_of(entries.drop_last()).insert(entries.last().0, entries.last().1)
    }
}

/// With distinct keys, the map holds exactly the entries.
pub proof fn lemma_map_of<K, V>(entries: Seq<(K, V)>)
    requires
        distinct_keys(entries),
    ensures
        forall|key: K| #[trigger] map_of(entries).dom().contains(key) <==> has_key(entries, key),
        forall|i: int|
            0 <= i < entries.len() ==> map_of(entries)[(#[trigger] entries[i]).0] == entries[i].1,
    decreases entries.len(),
{
    if entries.len() > 0 {
        let front = entries.drop_last();
        let last = entries.last();
        lemma_map_of(front);
        assert(map_of(entries) == map_of(front).insert(last.0, last.1));
        assert forall|key: K| #[trigger]
            map_of(entries).dom().contains(key) <==> has_key(entries, key) by {
            if map_of(entries).dom().contains(key) {
                if key == last.0 {
                    assert(entries[entries.len() - 1].0 == key);
                } else {
                    assert(map_of(front).dom().contains(key));
                    assert(has_key(front, key));
                    let i = choose|i: int| 0 <= i < front.len() && (#[trigger] front[i]).0 == key;
                    assert(entries[i] == front[i]);
                }
            }
            if has_key(entries, key) {
                let i = choose|i: int| 0 <= i < entries.len() && (#[trigger] entries[i]).0 == key;
                if i < front.len() {
                    assert(front[i] == entries[i]);
                    assert(has_key(front, key));
                }
            }
        }
        assert forall|i: int| 0 <= i < entries.len() implies map_of(entries)[(
        #[trigger] entries[i]).0] == entries[i].1 by {
            if i < front.len() {
                assert(front[i] == entries[i]);
                assert(entries[i].0 != entries[entries.len() - 1].0);
            }
        }
    } else {
        assert forall|key: K| #[trigger]
            map_of(entries).dom().contains(key) <==> has_key(entries, key) by {}
    }
}

/// With distinct keys, the map has as many keys as the list has entries.
pub proof fn lemma_map_of_len<K, V>(entries: Seq<(K, V)>)
    requires
        distinct_keys(entries),
    ensures
        map_of(entries).dom().finite(),
        map_of(entries).dom().len() == entries.len(),
    decreases entries.len(),
{
    if entries.len() > 0 {
        let front = entries.drop_last();
        lemma_map_of_len(front);
        lemma_map_of(front);
        assert(!map_of(front).dom().contains(entries.last().0)) by {
            if has_key(front, entries.last().0) {
                let i = choose|i: int|
                    0 <= i < front.len() && (#[trigger] front[i]).0 == entries.last().0;
                assert(entries[i].0 == entries[entries.len() - 1].0);
            }
        }
    }
}

/// Appending an entry with a new key keeps the keys distinct and inserts the
/// entry into the map.
pub proof fn lemma_map_of_push<K, V>(entries: Seq<(K, V)>, key: K, value: V)
    requires
        distinct_keys(entries),
        !has_key(entries, key),
    ensures
        distinct_keys(entries.push((key, value))),
        map_of(entries.push((key, value))) == map_of(entries).insert(key, value),
{
    let after = entries.push((key, value));
    assert(after.drop_last() =~= entries);
    assert forall|i: int, j: int| 0 <= i < j < after.len() implies (#[trigger] after[i]).0 != (
    #[trigger] after[j]).0 by {
        if j == entries.len() {
            assert(entries[i].0 != key);
        } else {
            assert(entries[i].0 != entries[j].0);
        }
    }
}

/// Giving the entry at `index` a new value keeps the keys distinct and
/// replaces the value in the map.
pub proof fn lemma_map_of_update<K, V>(entries: Seq<(K, V)>, index: int, value: V)
    requires
        distinct_keys(entries),
        0 <= index < entries.len(),
    ensures
        distinct_keys(entries.update(index, (entries[index].0, value))),
        map_of(entries.update(index, (entries[index].0, value))) == map_of(entries).insert(
            entries[index].0,
            value,
        ),
{
    let key = entries[index].0;
    let after = entries.update(index, (key, value));
    assert forall|i: int, j: int| 0 <= i < j < after.len() implies (#[trigger] after[i]).0 != (
    #[trigger] after[j]).0 by {
        assert(entries[i].0 != entries[j].0);
    }
    lemma_map_of(entries);
    lemma_map_of(after);
    let expected = map_of(entries).insert(key, value);
    assert forall|k: K| map_of(after).dom().contains(k) <==> expected.dom().contains(k) by {
        if map_of(after).dom().contains(k) {
            assert(has_key(after, k));
            let i = choose|i: int| 0 <= i < after.len() && (#[trigger] after[i]).0 == k;
            assert(entries[i].0 == k);
        }
        if map_of(entries).dom().contains(k) {
            assert(has_key(entries, k));
            let i = choose|i: int| 0 <= i < entries.len() && (#[trigger] entries[i]).0 == k;
            assert(after[i].0 == k);
        }
        if k == key {
            assert(after[index].0 == k);
        }
    }
    assert forall|k: K| map_of(after).dom().contains(k) implies #[trigger] map_of(after)[k]
        == expected[k] by {
        assert(has_key(after, k));
        let i = choose|i: int| 0 <= i < after.len() && (#[trigger] after[i]).0 == k;
        assert(map_of(after)[after[i].0] == after[i].1);
        if i != index {
            assert(entries[i] == after[i]);
            assert(map_of(entries)[entries[i].0] == entries[i].1);
            assert(i < index ==> entries[i].0 != entries[index].0);
            assert(index < i ==> entries[index].0 != entries[i].0);
        }
    }
    assert(map_of(after) =~= expected);
}

} // verus!
