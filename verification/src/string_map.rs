//! A map keyed by strings that keeps the order of its keys.

use vstd::prelude::*;
use crate::text::same_text;

verus! {

/// Whether no key occurs twice in `entries`.
pub open spec fn distinct<V>(entries: Seq<(Seq<char>, V)>) -> bool {
    forall|i: int, j: int| 0 <= i < j < entries.len() ==> entries[i].0 != entries[j].0
}

/// Whether `key` occurs in `entries`.
pub open spec fn has_key<V>(entries: Seq<(Seq<char>, V)>, key: Seq<char>) -> bool {
    exists|i: int| 0 <= i < entries.len() && #[trigger] entries[i].0 == key
}

/// Where `key` stands in `entries`.
pub open spec fn place<V>(entries: Seq<(Seq<char>, V)>, key: Seq<char>) -> int {
    choose|i: int| 0 <= i < entries.len() && #[trigger] entries[i].0 == key
}

/// The value that stands under `key` in `entries`.
pub open spec fn at<V>(entries: Seq<(Seq<char>, V)>, key: Seq<char>) -> V {
    entries[place(entries, key)].1
}

/// `entries` with `value` under `key`: in the place that `key` has, or at the
/// end where it has none.
pub open spec fn put<V>(entries: Seq<(Seq<char>, V)>, key: Seq<char>, value: V) -> Seq<
    (Seq<char>, V),
> {
    if has_key(entries, key) {
        entries.update(place(entries, key), (key, value))
    } else {
        entries.push((key, value))
    }
}

/// `entries` without `key`.
pub open spec fn without<V>(entries: Seq<(Seq<char>, V)>, key: Seq<char>) -> Seq<(Seq<char>, V)> {
    if has_key(entries, key) {
        entries.remove(place(entries, key))
    } else {
        entries
    }
}

/// Where no key occurs twice, a key stands where it is found.
pub proof fn lemma_place<V>(entries: Seq<(Seq<char>, V)>, i: int)
    requires
        distinct(entries),
        0 <= i < entries.len(),
    ensures
        has_key(entries, entries[i].0),
        place(entries, entries[i].0) == i,
        at(entries, entries[i].0) == entries[i].1,
{
    let key = entries[i].0;
    assert(entries[i].0 == key);
    let j = place(entries, key);
    assert(0 <= j < entries.len() && entries[j].0 == key);
    if j < i {
        assert(entries[j].0 != entries[i].0);
    } else if i < j {
        assert(entries[i].0 != entries[j].0);
    }
}

/// What `put` does to a sequence without repeated keys: `key` then has
/// `value`, every other key has what it had, and no key is repeated.
pub proof fn lemma_put<V>(entries: Seq<(Seq<char>, V)>, key: Seq<char>, value: V)
    requires
        distinct(entries),
    ensures
        distinct(put(entries, key, value)),
        has_key(put(entries, key, value), key),
        at(put(entries, key, value), key) == value,
        forall|other: Seq<char>|
            other != key ==> has_key(put(entries, key, value), other) == has_key(entries, other),
        forall|other: Seq<char>|
            other != key && has_key(entries, other) ==> at(put(entries, key, value), other) == at(
                entries,
                other,
            ),
{
    let after = put(entries, key, value);
    let p = if has_key(entries, key) {
        place(entries, key)
    } else {
        entries.len() as int
    };
    assert(after[p].0 == key);
    assert(distinct(after)) by {
        assert forall|i: int, j: int| 0 <= i < j < after.len() implies after[i].0 != after[j].0 by {
            if has_key(entries, key) {
                lemma_place(entries, p);
                if i != p && j != p {
                    assert(entries[i].0 != entries[j].0);
                } else if i == p {
                    assert(entries[i].0 != entries[j].0);
                } else {
                    assert(entries[i].0 != entries[j].0);
                }
            } else {
                if j == p {
                    assert(entries[i].0 != key);
                } else {
                    assert(entries[i].0 != entries[j].0);
                }
            }
        }
    }
    lemma_place(after, p);
    assert forall|other: Seq<char>| other != key implies has_key(after, other) == has_key(
        entries,
        other,
    ) by {
        if has_key(entries, other) {
            let i = place(entries, other);
            assert(after[i].0 == other);
        }
        if has_key(after, other) {
            let i = place(after, other);
            assert(entries[i].0 == other);
        }
    }
    assert forall|other: Seq<char>| other != key && has_key(entries, other) implies at(after, other)
        == at(entries, other) by {
        let i = place(entries, other);
        lemma_place(entries, i);
        assert(after[i] == entries[i]);
        lemma_place(after, i);
    }
}

/// What `without` does to a sequence without repeated keys: `key` is gone,
/// every other key has what it had, and no key is repeated.
pub proof fn lemma_without<V>(entries: Seq<(Seq<char>, V)>, key: Seq<char>)
    requires
        distinct(entries),
    ensures
        distinct(without(entries, key)),
        !has_key(without(entries, key), key),
        forall|other: Seq<char>|
            other != key ==> has_key(without(entries, key), other) == has_key(entries, other),
        forall|other: Seq<char>|
            other != key && has_key(entries, other) ==> at(without(entries, key), other) == at(
                entries,
                other,
            ),
{
    let after = without(entries, key);
    if has_key(entries, key) {
        let p = place(entries, key);
        lemma_place(entries, p);
        assert forall|i: int| 0 <= i < after.len() implies after[i] == entries[if i < p {
            i
        } else {
            i + 1
        }] by {}
        assert(distinct(after)) by {
            assert forall|i: int, j: int| 0 <= i < j < after.len() implies after[i].0
                != after[j].0 by {
                let i0 = if i < p { i } else { i + 1 };
                let j0 = if j < p { j } else { j + 1 };
                assert(entries[i0].0 != entries[j0].0);
            }
        }
        if has_key(after, key) {
            let i = place(after, key);
            let i0 = if i < p { i } else { i + 1 };
            assert(entries[i0].0 == key);
            lemma_place(entries, i0);
        }
        assert forall|other: Seq<char>| other != key implies has_key(after, other) == has_key(
            entries,
            other,
        ) by {
            if has_key(entries, other) {
                let i = place(entries, other);
                let i1 = if i < p { i } else { i - 1 };
                assert(after[i1].0 == other);
            }
            if has_key(after, other) {
                let i = place(after, other);
                let i0 = if i < p { i } else { i + 1 };
                assert(entries[i0].0 == other);
            }
        }
        assert forall|other: Seq<char>| other != key && has_key(entries, other) implies at(
            after,
            other,
        ) == at(entries, other) by {
            let i = place(entries, other);
            lemma_place(entries, i);
            let i1 = if i < p { i } else { i - 1 };
            assert(after[i1] == entries[i]);
            lemma_place(after, i1);
        }
    }
}

/// A map keyed by strings that remembers the order in which its keys came.
/// No key occurs twice.
pub struct StringMap<V> {
    entries: Vec<(String, V)>,
}

impl<V: View> View for StringMap<V> {
    type V = Seq<(Seq<char>, V::V)>;

    /// The keys with the values of what stands under them, oldest key first.
    closed spec fn view(&self) -> Seq<(Seq<char>, V::V)> {
        self.entries@.map_values(|e: (String, V)| (e.0@, e.1@))
    }
}

impl<V> StringMap<V> {
    #[verifier::type_invariant]
    pub closed spec fn well_formed(self) -> bool {
        forall|i: int, j: int|
            0 <= i < j < self.entries@.len() ==> self.entries@[i].0@ != self.entries@[j].0@
    }
}

impl<V: View> StringMap<V> {
    /// No key occurs twice in the view of a map.
    pub proof fn lemma_distinct(self)
        requires
            self.well_formed(),
        ensures
            distinct(self@),
    {
        assert forall|i: int, j: int| 0 <= i < j < self@.len() implies self@[i].0 != self@[j].0 by {
            assert(self.entries@[i].0@ != self.entries@[j].0@);
        }
    }


    pub fn new() -> (m: Self)
        ensures
            m@ == Seq::<(Seq<char>, V::V)>::empty(),
    {
        let m = StringMap { entries: Vec::new() };
        assert(m@ =~= Seq::<(Seq<char>, V::V)>::empty());
        m
    }

    /// The number of keys.
    pub fn len(&self) -> (n: usize)
        ensures
            n == self@.len(),
            distinct(self@),
    {
        proof {
            use_type_invariant(self);
            self.lemma_distinct();
        }
        self.entries.len()
    }

    /// The key at position `i`.
    pub fn key(&self, i: usize) -> (k: &String)
        requires
            i < self@.len(),
        ensures
            k@ == self@[i as int].0,
    {
        &self.entries[i].0
    }

    /// The value at position `i`.
    pub fn value(&self, i: usize) -> (v: &V)
        requires
            i < self@.len(),
        ensures
            v@ == self@[i as int].1,
    {
        &self.entries[i].1
    }

    /// Where `key` stands, if it is in the map.
    pub fn position(&self, key: &str) -> (found: Option<usize>)
        ensures
            distinct(self@),
            match found {
                Some(i) => i < self@.len() && has_key(self@, key@) && place(self@, key@) == i,
                None => !has_key(self@, key@),
            },
    {
        proof {
            use_type_invariant(self);
            self.lemma_distinct();
        }
        let mut i: usize = 0;
        while i < self.entries.len()
            invariant
                i <= self.entries.len(),
                distinct(self@),
                forall|j: int| 0 <= j < i ==> self@[j].0 != key@,
            decreases self.entries.len() - i,
        {
            if same_text(self.entries[i].0.as_str(), key) {
                proof {
                    lemma_place(self@, i as int);
                }
                return Some(i);
            }
            i = i + 1;
        }
        None
    }

    pub fn contains_key(&self, key: &str) -> (found: bool)
        ensures
            found == has_key(self@, key@),
    {
        self.position(key).is_some()
    }

    pub fn get(&self, key: &str) -> (found: Option<&V>)
        ensures
            match found {
                Some(v) => has_key(self@, key@) && v@ == at(self@, key@),
                None => !has_key(self@, key@),
            },
    {
        match self.position(key) {
            Some(i) => Some(&self.entries[i].1),
            None => None,
        }
    }

    /// Puts `value` under `key`. A key that is already there keeps its place
    /// and hands back what it had; a new key goes last.
    pub fn insert(&mut self, key: String, value: V) -> (displaced: Option<V>)
        ensures
            final(self)@ == put(old(self)@, key@, value@),
            distinct(final(self)@),
            match displaced {
                Some(v) => has_key(old(self)@, key@) && v@ == at(old(self)@, key@),
                None => !has_key(old(self)@, key@),
            },
    {
        proof {
            use_type_invariant(&*self);
            self.lemma_distinct();
        }
        let found = self.position(key.as_str());
        let ghost before = self@;
        proof {
            lemma_put(before, key@, value@);
        }
        let mut entries: Vec<(String, V)> = Vec::new();
        std::mem::swap(&mut self.entries, &mut entries);
        let ghost pairs = entries@.map_values(|e: (String, V)| (e.0@, e.1@));
        assert(pairs == before);
        match found {
            Some(i) => {
                let (_, displaced) = entries.remove(i);
                entries.insert(i, (key, value));
                assert(entries@.map_values(|e: (String, V)| (e.0@, e.1@)) =~= put(
                    before,
                    key@,
                    value@,
                ));
                assert forall|a: int, b: int| 0 <= a < b < entries@.len() implies entries@[a].0@
                    != entries@[b].0@ by {
                    let mapped = entries@.map_values(|e: (String, V)| (e.0@, e.1@));
                    assert(mapped[a].0 != mapped[b].0);
                }
                self.entries = entries;
                Some(displaced)
            },
            None => {
                entries.push((key, value));
                assert(entries@.map_values(|e: (String, V)| (e.0@, e.1@)) =~= put(
                    before,
                    key@,
                    value@,
                ));
                assert forall|a: int, b: int| 0 <= a < b < entries@.len() implies entries@[a].0@
                    != entries@[b].0@ by {
                    let mapped = entries@.map_values(|e: (String, V)| (e.0@, e.1@));
                    assert(mapped[a].0 != mapped[b].0);
                }
                self.entries = entries;
                None
            },
        }
    }

    /// Takes `key` out. The other keys keep their order.
    pub fn remove(&mut self, key: &str) -> (taken: Option<V>)
        ensures
            final(self)@ == without(old(self)@, key@),
            distinct(final(self)@),
            match taken {
                Some(v) => has_key(old(self)@, key@) && v@ == at(old(self)@, key@),
                None => !has_key(old(self)@, key@),
            },
    {
        proof {
            use_type_invariant(&*self);
            self.lemma_distinct();
        }
        let found = self.position(key);
        let ghost before = self@;
        proof {
            lemma_without(before, key@);
        }
        match found {
            Some(i) => {
                let mut entries: Vec<(String, V)> = Vec::new();
                std::mem::swap(&mut self.entries, &mut entries);
                let ghost pairs = entries@.map_values(|e: (String, V)| (e.0@, e.1@));
                assert(pairs == before);
                let (_, taken) = entries.remove(i);
                assert(entries@.map_values(|e: (String, V)| (e.0@, e.1@)) =~= without(
                    before,
                    key@,
                ));
                assert forall|a: int, b: int| 0 <= a < b < entries@.len() implies entries@[a].0@
                    != entries@[b].0@ by {
                    let mapped = entries@.map_values(|e: (String, V)| (e.0@, e.1@));
                    assert(mapped[a].0 != mapped[b].0);
                }
                self.entries = entries;
                Some(taken)
            },
            None => None,
        }
    }

    /// The values, in the order of their keys.
    pub fn into_values(self) -> (values: Vec<V>)
        ensures
            values@.len() == self@.len(),
            forall|i: int| 0 <= i < values@.len() ==> (#[trigger] values@[i])@ == self@[i].1,
    {
        // Taken from the back, and then turned round.
        let mut entries = self.entries;
        let ghost all = entries@;
        let mut reversed: Vec<V> = Vec::new();
        while entries.len() > 0
            invariant
                entries@.len() + reversed@.len() == all.len(),
                entries@ == all.take(entries@.len() as int),
                forall|i: int|
                    0 <= i < reversed@.len() ==> #[trigger] reversed@[i] == all[all.len() - 1 - i].1,
            decreases entries@.len(),
        {
            match entries.pop() {
                Some((_, value)) => {
                    reversed.push(value);
                    assert(entries@ =~= all.take(entries@.len() as int));
                },
                None => {},
            }
        }
        let mut values: Vec<V> = Vec::new();
        let ghost turned = reversed@;
        while reversed.len() > 0
            invariant
                turned.len() == all.len(),
                reversed@.len() + values@.len() == all.len(),
                reversed@ == turned.take(reversed@.len() as int),
                forall|i: int| 0 <= i < turned.len() ==> #[trigger] turned[i] == all[all.len() - 1 - i].1,
                forall|i: int| 0 <= i < values@.len() ==> #[trigger] values@[i] == all[i].1,
            decreases reversed@.len(),
        {
            match reversed.pop() {
                Some(value) => {
                    assert(value == turned[reversed@.len() as int]);
                    values.push(value);
                    assert(reversed@ =~= turned.take(reversed@.len() as int));
                },
                None => {},
            }
        }
        values
    }
}

} // verus!
