//! Insert helpers and a literal constructor for property-list dictionaries.

use vstd::prelude::*;
use crate::plist_api::{dictionary_entries, dictionary_keys, keys_after_insert, lookup};

verus! {

/// What a dictionary holds: its entries, and its keys in insertion order.
pub struct DictionaryModel {
    pub entries: Map<Seq<char>, plist::Value>,
    pub keys: Seq<Seq<char>>,
}

impl DictionaryModel {
    /// The dictionary without entries.
    pub open spec fn empty() -> DictionaryModel {
        DictionaryModel { entries: Map::empty(), keys: Seq::empty() }
    }

    /// Every key with an entry stands exactly once in the key order, and
    /// nothing else stands there.
    pub open spec fn wf(self) -> bool {
        &&& self.keys.no_duplicates()
        &&& forall|key: Seq<char>| self.keys.contains(key) <==> self.entries.contains_key(key)
    }

    /// The value stored under `key`, if there is one.
    pub open spec fn get(self, key: Seq<char>) -> Option<plist::Value> {
        lookup(self.entries, key)
    }

    /// The dictionary after storing `value` under `key`, whatever was there.
    pub open spec fn added(self, key: Seq<char>, value: plist::Value) -> DictionaryModel {
        DictionaryModel {
            entries: self.entries.insert(key, value),
            keys: keys_after_insert(self.entries, self.keys, key),
        }
    }

    /// The dictionary after storing `value` under `key` only if `key` had no
    /// entry.
    pub open spec fn appended(self, key: Seq<char>, value: plist::Value) -> DictionaryModel {
        if self.entries.contains_key(key) {
            self
        } else {
            self.added(key, value)
        }
    }

    /// The dictionary after adding each pair of `pairs` in turn.
    pub open spec fn added_all(self, pairs: Seq<(Seq<char>, plist::Value)>) -> DictionaryModel
        decreases pairs.len(),
    {
        if pairs.len() == 0 {
            self
        } else {
            self.added_all(pairs.drop_last()).added(pairs.last().0, pairs.last().1)
        }
    }
}

/// The pairs of a literal list, each key taken as its sequence of characters.
pub open spec fn pairs_of<'a>(list: Seq<(&'a str, plist::Value)>) -> Seq<
    (Seq<char>, plist::Value),
> {
    Seq::new(list.len(), |i: int| (list[i].0@, list[i].1))
}

/// Insert helpers and a literal constructor for `plist::Dictionary`.
pub trait DictionaryExt: Sized {
    /// What this dictionary holds.
    spec fn model(&self) -> DictionaryModel;

    /// Stores `v` under `k` and returns the value that `k` had before, if any.
    fn add(&mut self, k: &str, v: plist::Value) -> Option<plist::Value>;

    /// Stores `v` under `k` only if `k` has no entry. Returns the value that
    /// `k` has already, and then changes nothing.
    fn append(&mut self, k: &str, v: plist::Value) -> Option<plist::Value>;

    /// Builds a dictionary by adding each pair of `entries` in turn to an
    /// empty one, so that a later pair replaces an earlier one with its key.
    fn with<const N: usize>(entries: [(&str, plist::Value); N]) -> Self;
}

impl DictionaryExt for plist::Dictionary {
    open spec fn model(&self) -> DictionaryModel {
        DictionaryModel { entries: dictionary_entries(*self), keys: dictionary_keys(*self) }
    }

    fn add(&mut self, k: &str, v: plist::Value) -> (previous: Option<plist::Value>)
        ensures
            final(self).model() == old(self).model().added(k@, v),
            previous == old(self).model().get(k@),
            old(self).model().wf() ==> final(self).model().wf(),
    {
        proof {
            if self.model().wf() {
                lemma_added_keeps_wf(self.model(), k@, v);
            }
        }
        self.insert(k.to_owned(), v)
    }

    fn append(&mut self, k: &str, v: plist::Value) -> (current: Option<plist::Value>)
        ensures
            final(self).model() == old(self).model().appended(k@, v),
            current == old(self).model().get(k@),
            current is Some ==> *final(self) == *old(self),
            old(self).model().wf() ==> final(self).model().wf(),
    {
        if let Some(current) = self.get(k) {
            Some(current.clone())
        } else {
            self.add(k, v);
            None
        }
    }

    fn with<const N: usize>(entries: [(&str, plist::Value); N]) -> (dict: Self)
        ensures
            dict.model() == DictionaryModel::empty().added_all(pairs_of(entries@)),
            dict.model().wf(),
    {
        let mut dict = plist::Dictionary::new();
        let ghost pairs = pairs_of(entries@);
        let mut i: usize = 0;
        while i < N
            invariant
                i <= N,
                pairs == pairs_of(entries@),
                pairs.len() == N,
                dict.model() == DictionaryModel::empty().added_all(pairs.take(i as int)),
            decreases N - i,
        {
            let key: &str = entries[i].0;
            let value = entries[i].1.clone();
            proof {
                assert(pairs.take(i + 1).drop_last() == pairs.take(i as int));
                assert(pairs.take(i + 1).last() == (key@, value));
            }
            dict.add(key, value);
            i = i + 1;
        }
        proof {
            assert(pairs.take(N as int) == pairs);
            lemma_added_all_keeps_wf(DictionaryModel::empty(), pairs);
        }
        dict
    }
}

/// Storing under a key keeps the key order faithful to the entries.
pub proof fn lemma_added_keeps_wf(d: DictionaryModel, key: Seq<char>, value: plist::Value)
    requires
        d.wf(),
    ensures
        d.added(key, value).wf(),
{
    let after = d.added(key, value);
    if !d.entries.contains_key(key) {
        assert forall|other: Seq<char>| after.keys.contains(other) <==> after.entries.contains_key(
            other,
        ) by {
            if after.keys.contains(other) {
                let i = choose|i: int| 0 <= i < after.keys.len() && after.keys[i] == other;
                if i < d.keys.len() {
                    assert(d.keys[i] == other);
                    assert(d.keys.contains(other));
                }
            }
            if after.entries.contains_key(other) && other != key {
                assert(d.keys.contains(other));
                let i = choose|i: int| 0 <= i < d.keys.len() && d.keys[i] == other;
                assert(after.keys[i] == other);
            }
            if other == key {
                assert(after.keys[d.keys.len() as int] == key);
            }
        }
        assert(after.keys.no_duplicates()) by {
            assert forall|i: int, j: int|
                0 <= i < after.keys.len() && 0 <= j < after.keys.len() && i != j implies after.keys[i]
                != after.keys[j] by {
                if i < d.keys.len() {
                    assert(d.keys.contains(d.keys[i]));
                }
                if j < d.keys.len() {
                    assert(d.keys.contains(d.keys[j]));
                }
            }
        }
    }
}

/// Storing under a key that may be taken keeps the key order faithful to
/// the entries.
pub proof fn lemma_appended_keeps_wf(d: DictionaryModel, key: Seq<char>, value: plist::Value)
    requires
        d.wf(),
    ensures
        d.appended(key, value).wf(),
{
    lemma_added_keeps_wf(d, key, value);
}

/// Adding a list of pairs keeps the key order faithful to the entries.
pub proof fn lemma_added_all_keeps_wf(d: DictionaryModel, pairs: Seq<(Seq<char>, plist::Value)>)
    requires
        d.wf(),
    ensures
        d.added_all(pairs).wf(),
    decreases pairs.len(),
{
    if pairs.len() > 0 {
        lemma_added_all_keeps_wf(d, pairs.drop_last());
        lemma_added_keeps_wf(d.added_all(pairs.drop_last()), pairs.last().0, pairs.last().1);
    }
}

/// Two calls of `add` with one key: a key without an entry gives `None`
/// first, the second call hands back the first value, and the key then
/// holds the second value, at the place it had.
pub proof fn lemma_add_overwrites(
    d: DictionaryModel,
    key: Seq<char>,
    first: plist::Value,
    second: plist::Value,
)
    ensures
        !d.entries.contains_key(key) ==> d.get(key) is None,
        d.added(key, first).get(key) == Some(first),
        d.added(key, first).added(key, second).get(key) == Some(second),
        d.added(key, first).added(key, second).keys == d.added(key, first).keys,
{
}

/// Two calls of `append` with one key that had no entry: the first gives
/// `None`, the second hands back the first value and changes nothing, so
/// the key still holds the first value.
pub proof fn lemma_append_preserves(
    d: DictionaryModel,
    key: Seq<char>,
    first: plist::Value,
    second: plist::Value,
)
    requires
        !d.entries.contains_key(key),
    ensures
        d.get(key) is None,
        d.appended(key, first).get(key) == Some(first),
        d.appended(key, first).appended(key, second) == d.appended(key, first),
        d.appended(key, first).appended(key, second).get(key) == Some(first),
{
}

/// After one `append` under a key, whatever the dictionary held, a second
/// one under that key changes nothing and hands back what the key holds.
pub proof fn lemma_append_settles(
    d: DictionaryModel,
    key: Seq<char>,
    first: plist::Value,
    second: plist::Value,
)
    ensures
        d.appended(key, first).get(key) is Some,
        d.appended(key, first).appended(key, second) == d.appended(key, first),
        d.entries.contains_key(key) ==> d.appended(key, first).get(key) == d.get(key),
{
}

/// Adding a list of pairs with one more pair behind it is adding the list
/// and then the pair.
pub proof fn lemma_added_all_push(
    d: DictionaryModel,
    pairs: Seq<(Seq<char>, plist::Value)>,
    pair: (Seq<char>, plist::Value),
)
    ensures
        d.added_all(pairs.push(pair)) == d.added_all(pairs).added(pair.0, pair.1),
{
    assert(pairs.push(pair).drop_last() == pairs);
}

/// A dictionary built from two pairs is the empty dictionary after an `add`
/// of the first pair and an `add` of the second.
pub proof fn lemma_with_two_pairs(
    first_key: Seq<char>,
    first: plist::Value,
    second_key: Seq<char>,
    second: plist::Value,
)
    ensures
        DictionaryModel::empty().added_all(seq![(first_key, first), (second_key, second)])
            == DictionaryModel::empty().added(first_key, first).added(second_key, second),
{
    let start = DictionaryModel::empty();
    let none = Seq::<(Seq<char>, plist::Value)>::empty();
    assert(seq![(first_key, first), (second_key, second)] == none.push((first_key, first)).push(
        (second_key, second),
    ));
    lemma_added_all_push(start, none.push((first_key, first)), (second_key, second));
    lemma_added_all_push(start, none, (first_key, first));
    assert(start.added_all(none) == start);
}

/// What a key holds after adding a list of pairs: the value of the last
/// pair with that key, and what it held before where no pair has that key.
pub proof fn lemma_added_all_last_wins(
    d: DictionaryModel,
    pairs: Seq<(Seq<char>, plist::Value)>,
    key: Seq<char>,
)
    ensures
        (forall|i: int| 0 <= i < pairs.len() ==> pairs[i].0 != key) ==> d.added_all(pairs).get(key)
            == d.get(key),
        forall|i: int|
            0 <= i < pairs.len() && pairs[i].0 == key && (forall|j: int|
                i < j < pairs.len() ==> pairs[j].0 != key) ==> d.added_all(pairs).get(key) == Some(
                pairs[i].1,
            ),
    decreases pairs.len(),
{
    if pairs.len() > 0 {
        let earlier = pairs.drop_last();
        lemma_added_all_last_wins(d, earlier, key);
        if pairs.last().0 != key {
            assert forall|i: int|
                0 <= i < pairs.len() && pairs[i].0 == key && (forall|j: int|
                    i < j < pairs.len() ==> pairs[j].0 != key) implies d.added_all(pairs).get(key)
                == Some(pairs[i].1) by {
                assert(earlier[i] == pairs[i]);
                assert forall|j: int| i < j < earlier.len() implies earlier[j].0 != key by {
                    assert(earlier[j] == pairs[j]);
                }
            }
            if forall|i: int| 0 <= i < pairs.len() ==> pairs[i].0 != key {
                assert forall|i: int| 0 <= i < earlier.len() implies earlier[i].0 != key by {
                    assert(earlier[i] == pairs[i]);
                }
            }
        }
    }
}

} // verus!
