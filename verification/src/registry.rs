//! A keyed list: at most one value is found under a key, and the entries keep
//! the order in which their keys were first entered.

use vstd::prelude::*;

verus! {

/// A key of a [`Registry`]: keys are told apart by their views.
pub trait Key: View + Sized {
    /// Whether two keys are the same key.
    fn same(&self, other: &Self) -> (r: bool)
        ensures
            r == (self@ == other@),
    ;
}

impl Key for String {
    fn same(&self, other: &Self) -> (r: bool) {
        *self == *other
    }
}

impl Key for u64 {
    fn same(&self, other: &Self) -> (r: bool) {
        *self == *other
    }
}

/// Whether `index` is the first place in `entries` that holds `key`.
pub open spec fn is_first<K, V>(entries: Seq<(K, V)>, key: K, index: int) -> bool {
    &&& 0 <= index < entries.len()
    &&& entries[index].0 == key
    &&& forall|j: int| 0 <= j < index ==> entries[j].0 != key
}

/// The first place in `entries` that holds `key`, if there is one.
pub open spec fn position<K, V>(entries: Seq<(K, V)>, key: K) -> Option<int> {
    if exists|i: int| is_first(entries, key, i) {
        Some(choose|i: int| is_first(entries, key, i))
    } else {
        None
    }
}

/// The value found under `key`, if there is one.
pub open spec fn lookup<K, V>(entries: Seq<(K, V)>, key: K) -> Option<V> {
    match position(entries, key) {
        Some(i) => Some(entries[i].1),
        None => None,
    }
}

/// The entries after `value` was entered under `key`: it takes the place of
/// the value found under `key`, or stands at the end where there was none.
pub open spec fn upsert<K, V>(entries: Seq<(K, V)>, key: K, value: V) -> Seq<(K, V)> {
    match position(entries, key) {
        Some(i) => entries.update(i, (key, value)),
        None => entries.push((key, value)),
    }
}

/// The place at which a value stands once it is entered under `key`: where
/// the key stands already, or else the end.
pub open spec fn place<K, V>(entries: Seq<(K, V)>, key: K) -> int {
    match position(entries, key) {
        Some(i) => i,
        None => entries.len() as int,
    }
}

/// Whether `after` differs from `before` at most in the value at `index`:
/// the keys stay, and so does every other value.
pub open spec fn same_except<K, V>(before: Seq<(K, V)>, after: Seq<(K, V)>, index: int) -> bool {
    &&& after.len() == before.len()
    &&& 0 <= index < before.len()
    &&& after[index].0 == before[index].0
    &&& forall|j: int| 0 <= j < before.len() && j != index ==> #[trigger] after[j] == before[j]
}

/// Whether `after` is `before` with a value entered under `key`: it took the
/// place of the value under that key, or stands at the end where there was
/// none. Every other entry is as it was. Which value was entered is not said.
pub open spec fn entered<K, V>(before: Seq<(K, V)>, after: Seq<(K, V)>, key: K) -> bool {
    match position(before, key) {
        Some(i) => same_except(before, after, i),
        None => {
            &&& after.len() == before.len() + 1
            &&& after[before.len() as int].0 == key
            &&& forall|j: int| 0 <= j < before.len() ==> #[trigger] after[j] == before[j]
        },
    }
}

/// Whether no key occurs twice.
pub open spec fn distinct<K, V>(entries: Seq<(K, V)>) -> bool {
    forall|i: int, j: int|
        0 <= i < j < entries.len() ==> (#[trigger] entries[i]).0 != (#[trigger] entries[j]).0
}

/// The first place that holds a key is the only one that `position` gives.
pub proof fn lemma_position_is_first<K, V>(entries: Seq<(K, V)>, key: K, index: int)
    requires
        is_first(entries, key, index),
    ensures
        position(entries, key) == Some(index),
{
    let found = choose|i: int| is_first(entries, key, i);
    assert(is_first(entries, key, found));
    if found < index {
        assert(entries[found].0 != key);
    } else if index < found {
        assert(entries[index].0 != key);
    }
}

/// Where no entry holds a key, `position` gives nothing.
pub proof fn lemma_position_none<K, V>(entries: Seq<(K, V)>, key: K)
    requires
        forall|j: int| 0 <= j < entries.len() ==> entries[j].0 != key,
    ensures
        position(entries, key) is None,
{
    if exists|i: int| is_first(entries, key, i) {
        let found = choose|i: int| is_first(entries, key, i);
        assert(entries[found].0 != key);
    }
}

/// What `position` gives is the first place that holds the key.
pub proof fn lemma_position_found<K, V>(entries: Seq<(K, V)>, key: K)
    ensures
        match position(entries, key) {
            Some(i) => is_first(entries, key, i),
            None => forall|j: int| 0 <= j < entries.len() ==> entries[j].0 != key,
        },
{
    match position(entries, key) {
        Some(i) => {},
        None => {
            assert forall|j: int| 0 <= j < entries.len() implies entries[j].0 != key by {
                if entries[j].0 == key {
                    lemma_first_exists(entries, key, j);
                }
            }
        },
    }
}

/// Where some entry holds a key, a first one does.
pub proof fn lemma_first_exists<K, V>(entries: Seq<(K, V)>, key: K, index: int)
    requires
        0 <= index < entries.len(),
        entries[index].0 == key,
    ensures
        exists|i: int| is_first(entries, key, i),
    decreases index,
{
    if forall|j: int| 0 <= j < index ==> entries[j].0 != key {
        assert(is_first(entries, key, index));
    } else {
        let j = choose|j: int| 0 <= j < index && entries[j].0 == key;
        lemma_first_exists(entries, key, j);
    }
}

/// A value is found under the key under which it was entered last.
pub proof fn lemma_lookup_upsert_same<K, V>(entries: Seq<(K, V)>, key: K, value: V)
    ensures
        lookup(upsert(entries, key, value), key) == Some(value),
{
    lemma_position_found(entries, key);
    let after = upsert(entries, key, value);
    match position(entries, key) {
        Some(i) => {
            assert(is_first(after, key, i));
            lemma_position_is_first(after, key, i);
        },
        None => {
            assert(is_first(after, key, entries.len() as int));
            lemma_position_is_first(after, key, entries.len() as int);
        },
    }
}

/// Entering two values under one key, one after the other, leaves what
/// entering the second alone would leave: the first is gone.
pub proof fn lemma_upsert_twice<K, V>(entries: Seq<(K, V)>, key: K, first: V, second: V)
    ensures
        upsert(upsert(entries, key, first), key, second) == upsert(entries, key, second),
        lookup(upsert(upsert(entries, key, first), key, second), key) == Some(second),
{
    lemma_position_found(entries, key);
    let once = upsert(entries, key, first);
    match position(entries, key) {
        Some(i) => {
            assert(is_first(once, key, i));
            lemma_position_is_first(once, key, i);
            assert(once.update(i, (key, second)) =~= entries.update(i, (key, second)));
        },
        None => {
            let end = entries.len() as int;
            assert(is_first(once, key, end));
            lemma_position_is_first(once, key, end);
            assert(once.update(end, (key, second)) =~= entries.push((key, second)));
        },
    }
    lemma_lookup_upsert_same(once, key, second);
}

/// A key is found once a value is entered under it, at the place that
/// `place` names.
pub proof fn lemma_entered_is_found<K, V>(before: Seq<(K, V)>, after: Seq<(K, V)>, key: K)
    requires
        entered(before, after, key),
    ensures
        position(after, key) == Some(place(before, key)),
{
    lemma_position_found(before, key);
    assert(is_first(after, key, place(before, key)));
    lemma_position_is_first(after, key, place(before, key));
}

/// Entering under one key twice, one after the other, leaves one place for
/// that key: the second value took the place of the first, and no entry was
/// added beside it.
pub proof fn lemma_entered_twice<K, V>(
    before: Seq<(K, V)>,
    between: Seq<(K, V)>,
    after: Seq<(K, V)>,
    key: K,
)
    requires
        entered(before, between, key),
        entered(between, after, key),
    ensures
        after.len() == between.len(),
        place(between, key) == place(before, key),
        position(after, key) == Some(place(before, key)),
        same_except(between, after, place(before, key)),
{
    lemma_entered_is_found(before, between, key);
    lemma_entered_is_found(between, after, key);
}

/// Entering a value under a key leaves no key twice, where none occurred
/// twice before.
pub proof fn lemma_entered_keeps_distinct<K, V>(
    before: Seq<(K, V)>,
    after: Seq<(K, V)>,
    key: K,
)
    requires
        distinct(before),
        entered(before, after, key),
    ensures
        distinct(after),
{
    lemma_position_found(before, key);
    assert forall|i: int, j: int| 0 <= i < j < after.len() implies (#[trigger] after[i]).0 != (
    #[trigger] after[j]).0 by {
        match position(before, key) {
            Some(p) => {
                if i != p {
                    assert(after[i] == before[i]);
                }
                if j != p {
                    assert(after[j] == before[j]);
                }
                assert(before[i].0 != before[j].0);
            },
            None => {
                assert(after[i] == before[i]);
                if j < before.len() {
                    assert(after[j] == before[j]);
                    assert(before[i].0 != before[j].0);
                }
            },
        }
    }
}

/// Entries with the same keys at the same places have no key twice, where
/// the others have none.
pub proof fn lemma_same_keys_keep_distinct<K, V>(before: Seq<(K, V)>, after: Seq<(K, V)>)
    requires
        distinct(before),
        after.len() == before.len(),
        forall|i: int| 0 <= i < before.len() ==> (#[trigger] after[i]).0 == before[i].0,
    ensures
        distinct(after),
{
    assert forall|i: int, j: int| 0 <= i < j < after.len() implies (#[trigger] after[i]).0 != (
    #[trigger] after[j]).0 by {
        assert(before[i].0 != before[j].0);
    }
}

/// One entry of a [`Registry`].
pub struct Entry<K, V> {
    pub key: K,
    pub value: V,
}

/// A keyed list. Its view is the sequence of its entries, each a key's view
/// with the value under it.
pub struct Registry<K, V> {
    entries: Vec<Entry<K, V>>,
}

impl<K: Key, V> View for Registry<K, V> {
    type V = Seq<(K::V, V)>;

    closed spec fn view(&self) -> Seq<(K::V, V)> {
        Seq::new(self.entries@.len(), |i: int| (self.entries@[i].key@, self.entries@[i].value))
    }
}

impl<K: Key, V> Registry<K, V> {
    /// A list without entries.
    pub fn new() -> (registry: Self)
        ensures
            registry@ == Seq::<(K::V, V)>::empty(),
            distinct(registry@),
    {
        let registry = Registry { entries: Vec::new() };
        assert(registry@ =~= Seq::<(K::V, V)>::empty());
        registry
    }

    /// The number of entries.
    pub fn len(&self) -> (n: usize)
        ensures
            n == self@.len(),
    {
        self.entries.len()
    }

    /// The place of the entry under `key`, if there is one.
    pub fn find(&self, key: &K) -> (found: Option<usize>)
        ensures
            match found {
                Some(i) => position(self@, key@) == Some(i as int) && is_first(
                    self@,
                    key@,
                    i as int,
                ),
                None => position(self@, key@) is None && forall|j: int|
                    0 <= j < self@.len() ==> (#[trigger] self@[j]).0 != key@,
            },
    {
        let mut i: usize = 0;
        while i < self.entries.len()
            invariant
                i <= self.entries.len(),
                forall|j: int| 0 <= j < i ==> (#[trigger] self@[j]).0 != key@,
            decreases self.entries.len() - i,
        {
            if self.entries[i].key.same(key) {
                proof {
                    assert(self@[i as int].0 == key@);
                    assert(is_first(self@, key@, i as int));
                    lemma_position_is_first(self@, key@, i as int);
                }
                return Some(i);
            }
            i += 1;
        }
        proof {
            lemma_position_none(self@, key@);
        }
        None
    }

    /// The value under `key`, if there is one.
    pub fn get(&self, key: &K) -> (value: Option<&V>)
        ensures
            match value {
                Some(v) => position(self@, key@) matches Some(i) && *v == self@[i].1 && lookup(
                    self@,
                    key@,
                ) == Some(*v),
                None => lookup(self@, key@) is None && position(self@, key@) is None,
            },
    {
        match self.find(key) {
            Some(i) => Some(&self.entries[i].value),
            None => None,
        }
    }

    /// The value of the entry at `index`.
    pub fn value_at(&self, index: usize) -> (value: &V)
        requires
            index < self@.len(),
        ensures
            *value == self@[index as int].1,
    {
        &self.entries[index].value
    }

    /// The value of the entry at `index`, to change it in place. The key
    /// stays, and so does every other entry.
    pub fn value_at_mut(&mut self, index: usize) -> (value: &mut V)
        requires
            index < old(self)@.len(),
        ensures
            *value == old(self)@[index as int].1,
            same_except(old(self)@, final(self)@, index as int),
            final(self)@[index as int].1 == *final(value),
            distinct(old(self)@) ==> distinct(final(self)@),
    {
        let ghost before = self@;
        let value = &mut self.entries[index].value;
        proof {
            let after = before.update(index as int, (before[index as int].0, *final(value)));
            assert(after_borrow(self)@ =~= after);
            if distinct(before) {
                lemma_same_keys_keep_distinct(before, after);
            }
        }
        value
    }

    /// The value under `key`, if there is one, to change it in place.
    pub fn get_mut(&mut self, key: &K) -> (value: Option<&mut V>)
        ensures
            value is Some <==> position(old(self)@, key@) is Some,
            value is None ==> final(self)@ == old(self)@,
            value matches Some(value) ==> *value == old(self)@[position(old(self)@, key@)->0].1,
            value matches Some(value) ==> same_except(
                old(self)@,
                final(self)@,
                position(old(self)@, key@)->0,
            ) && final(self)@[position(old(self)@, key@)->0].1 == *final(value),
            distinct(old(self)@) ==> distinct(final(self)@),
    {
        proof {
            lemma_position_found(self@, key@);
        }
        match self.find(key) {
            Some(i) => {
                let value = self.value_at_mut(i);
                Some(value)
            },
            None => None,
        }
    }

    /// Enters `value` under `key`. A value that was there before is dropped.
    pub fn insert(&mut self, key: K, value: V)
        ensures
            final(self)@ == upsert(old(self)@, key@, value),
            entered(old(self)@, final(self)@, key@),
            final(self)@[place(old(self)@, key@)].1 == value,
            distinct(old(self)@) ==> distinct(final(self)@),
    {
        let ghost start = self@;
        proof {
            lemma_position_found(self@, key@);
        }
        match self.find(&key) {
            Some(i) => {
                let ghost before = self@;
                self.entries[i] = Entry { key, value };
                assert(self@ =~= before.update(i as int, (key@, value)));
            },
            None => {
                let ghost before = self@;
                self.entries.push(Entry { key, value });
                assert(self@ =~= before.push((key@, value)));
            },
        }
        proof {
            if distinct(start) {
                lemma_entered_keeps_distinct(start, self@, key@);
            }
        }
    }
}

/// Enters `value` under `key` in `registry`, as [`Registry::insert`] does.
///
/// The value comes first, so that its own type decides what `V` is. Where the
/// registry decides it and `V` is a boxed trait object, the compiler coerces
/// the box anew at the call, and the contract would speak of the coerced box
/// and not of the one that the caller holds.
pub fn enter<K: Key, V>(value: V, key: K, registry: &mut Registry<K, V>)
    ensures
        final(registry)@ == upsert(old(registry)@, key@, value),
        entered(old(registry)@, final(registry)@, key@),
        final(registry)@[place(old(registry)@, key@)].1 == value,
        distinct(old(registry)@) ==> distinct(final(registry)@),
{
    registry.insert(key, value);
}

} // verus!
