//! A sequence of items read as a map: each item filed under its key.

use vstd::prelude::*;

verus! {

/// An item with the key `k` stands in `items`.
pub open spec fn has_key<T, K>(items: Seq<T>, key: spec_fn(T) -> K, k: K) -> bool {
    exists|i: int| 0 <= i < items.len() && key(#[trigger] items[i]) == k
}

/// A place in `items` at which an item with the key `k` stands.
pub open spec fn place_of<T, K>(items: Seq<T>, key: spec_fn(T) -> K, k: K) -> int {
    choose|i: int| 0 <= i < items.len() && key(#[trigger] items[i]) == k
}

/// No two of `items` have the same key.
pub open spec fn distinct_keys<T, K>(items: Seq<T>, key: spec_fn(T) -> K) -> bool {
    forall|i: int, j: int|
        0 <= i < j < items.len() ==> key(#[trigger] items[i]) != key(#[trigger] items[j])
}

/// The items by their keys.
pub open spec fn by_key<T, K>(items: Seq<T>, key: spec_fn(T) -> K) -> Map<K, T> {
    Map::new(|k: K| has_key(items, key, k), |k: K| items[place_of(items, key, k)])
}

/// Among items with distinct keys, the one at `at` is the one filed under its
/// key.
pub proof fn lemma_by_key_at<T, K>(items: Seq<T>, key: spec_fn(T) -> K, at: int)
    requires
        distinct_keys(items, key),
        0 <= at < items.len(),
    ensures
        by_key(items, key).dom().contains(key(items[at])),
        by_key(items, key)[key(items[at])] == items[at],
{
    let k = key(items[at]);
    assert(has_key(items, key, k));
    let chosen = place_of(items, key, k);
    assert(key(items[chosen]) == k);
    if chosen < at {
        assert(key(items[chosen]) != key(items[at]));
    } else if at < chosen {
        assert(key(items[at]) != key(items[chosen]));
    }
}

/// Appending an item with a fresh key files it and leaves the others as they
/// were.
pub proof fn lemma_by_key_push<T, K>(items: Seq<T>, key: spec_fn(T) -> K, item: T)
    requires
        distinct_keys(items, key),
        !has_key(items, key, key(item)),
    ensures
        distinct_keys(items.push(item), key),
        by_key(items.push(item), key) == by_key(items, key).insert(key(item), item),
{
    let longer = items.push(item);
    assert forall|i: int, j: int| 0 <= i < j < longer.len() implies key(#[trigger] longer[i])
        != key(#[trigger] longer[j]) by {
        if j < items.len() {
            assert(key(items[i]) != key(items[j]));
        } else {
            assert(key(items[i]) != key(item));
        }
    }
    assert forall|k: K| has_key(longer, key, k) <==> has_key(items, key, k) || k == key(item) by {
        if has_key(items, key, k) {
            let i = place_of(items, key, k);
            assert(key(longer[i]) == k);
        }
        if k == key(item) {
            assert(key(longer[items.len() as int]) == k);
        }
        if has_key(longer, key, k) {
            let i = place_of(longer, key, k);
            if i < items.len() {
                assert(key(items[i]) == k);
            }
        }
    }
    assert forall|k: K| has_key(longer, key, k) implies by_key(longer, key)[k] == by_key(
        items,
        key,
    ).insert(key(item), item)[k] by {
        let i = place_of(longer, key, k);
        lemma_by_key_at(longer, key, i);
        if i < items.len() {
            assert(items[i] == longer[i]);
            lemma_by_key_at(items, key, i);
        }
    }
    assert(by_key(longer, key) =~= by_key(items, key).insert(key(item), item));
}

/// Replacing an item by one with the same key refiles that one and leaves the
/// others as they were.
pub proof fn lemma_by_key_update<T, K>(items: Seq<T>, key: spec_fn(T) -> K, at: int, item: T)
    requires
        distinct_keys(items, key),
        0 <= at < items.len(),
        key(item) == key(items[at]),
    ensures
        distinct_keys(items.update(at, item), key),
        by_key(items.update(at, item), key) == by_key(items, key).insert(key(item), item),
{
    let changed = items.update(at, item);
    assert forall|i: int| 0 <= i < items.len() implies key(#[trigger] changed[i]) == key(
        items[i],
    ) by {}
    assert forall|i: int, j: int| 0 <= i < j < changed.len() implies key(#[trigger] changed[i])
        != key(#[trigger] changed[j]) by {
        assert(key(items[i]) != key(items[j]));
    }
    assert forall|k: K| has_key(changed, key, k) <==> has_key(items, key, k) by {
        if has_key(items, key, k) {
            let i = place_of(items, key, k);
            assert(key(changed[i]) == k);
        }
        if has_key(changed, key, k) {
            let i = place_of(changed, key, k);
            assert(key(items[i]) == k);
        }
    }
    lemma_by_key_at(items, key, at);
    assert forall|k: K| has_key(changed, key, k) implies by_key(changed, key)[k] == by_key(
        items,
        key,
    ).insert(key(item), item)[k] by {
        let i = place_of(changed, key, k);
        lemma_by_key_at(changed, key, i);
        if i != at {
            assert(items[i] == changed[i]);
            lemma_by_key_at(items, key, i);
            if i < at {
                assert(key(items[i]) != key(items[at]));
            } else {
                assert(key(items[at]) != key(items[i]));
            }
        }
    }
    assert(by_key(changed, key) =~= by_key(items, key).insert(key(item), item));
}

/// Items with distinct keys make a finite map with one entry for each.
pub proof fn lemma_by_key_len<T, K>(items: Seq<T>, key: spec_fn(T) -> K)
    requires
        distinct_keys(items, key),
    ensures
        by_key(items, key).dom().finite(),
        by_key(items, key).dom().len() == items.len(),
    decreases items.len(),
{
    if items.len() == 0 {
        assert(by_key(items, key).dom() =~= Set::<K>::empty());
    } else {
        let shorter = items.drop_last();
        let last = items.last();
        assert(items =~= shorter.push(last));
        assert forall|i: int, j: int| 0 <= i < j < shorter.len() implies key(
            #[trigger] shorter[i],
        ) != key(#[trigger] shorter[j]) by {
            assert(key(items[i]) != key(items[j]));
        }
        if has_key(shorter, key, key(last)) {
            let i = place_of(shorter, key, key(last));
            assert(key(items[i]) != key(items[items.len() - 1]));
        }
        lemma_by_key_len(shorter, key);
        lemma_by_key_push(shorter, key, last);
    }
}

} // verus!
