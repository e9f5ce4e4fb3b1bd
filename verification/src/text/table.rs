//! A map from texts, in the order of its keys.

use vstd::prelude::*;
use crate::text::pieces::same_text;
use crate::text::order::{comes_before, is_before};
use crate::text::order::{lemma_order_irreflexive, lemma_order_total, lemma_order_transitive};

verus! {

/// A map from texts, in the order of its keys.
#[derive(Debug, Clone, PartialEq, Eq)]
pub struct TextMap<V> {
    entries: Vec<(String, V)>,
}

/// Whether keys stand in order, each once.
pub open spec fn in_order(keys: Seq<Seq<char>>) -> bool {
    forall|i: int, j: int|
        0 <= i < j < keys.len() ==> comes_before(#[trigger] keys[i], #[trigger] keys[j])
}

/// In keys that stand in order, each has one position.
pub proof fn lemma_positions(keys: Seq<Seq<char>>)
    requires
        in_order(keys),
    ensures
        keys.no_duplicates(),
        forall|i: int| 0 <= i < keys.len() ==> keys.index_of(#[trigger] keys[i]) == i,
{
    assert forall|i: int, j: int|
        0 <= i < keys.len() && 0 <= j < keys.len() && i != j implies keys[i] != keys[j] by {
        lemma_order_irreflexive(keys[i]);
        lemma_order_irreflexive(keys[j]);
        if i < j {
            assert(comes_before(keys[i], keys[j]));
        } else {
            assert(comes_before(keys[j], keys[i]));
        }
    }
    assert forall|i: int| 0 <= i < keys.len() implies keys.index_of(#[trigger] keys[i]) == i by {
        assert(keys.contains(keys[i]));
        let j = keys.index_of(keys[i]);
        assert(0 <= j < keys.len() && keys[j] == keys[i]);
    }
}

/// Of keys that stand in order there is one sequence to a set.
pub proof fn lemma_order_is_unique(a: Seq<Seq<char>>, b: Seq<Seq<char>>)
    requires
        in_order(a),
        in_order(b),
        forall|key: Seq<char>| a.contains(key) == b.contains(key),
    ensures
        a == b,
    decreases a.len(),
{
    if a.len() == 0 {
        if b.len() > 0 {
            assert(b.contains(b[0]));
        }
        assert(a =~= b);
    } else {
        assert(a.contains(a[0]));
        assert(b.contains(a[0]));
        let i = choose|i: int| 0 <= i < b.len() && b[i] == a[0];
        assert(b.contains(b[0]));
        let j = choose|j: int| 0 <= j < a.len() && a[j] == b[0];
        if i > 0 {
            assert(comes_before(b[0], b[i]));
            lemma_order_irreflexive(a[0]);
            if j > 0 {
                assert(comes_before(a[0], a[j]));
                lemma_order_transitive(a[0], b[0], a[0]);
            }
        }
        assert(a[0] == b[0]);
        let x = a.drop_first();
        let y = b.drop_first();
        assert forall|key: Seq<char>| x.contains(key) == y.contains(key) by {
            lemma_rest(a, key);
            lemma_rest(b, key);
        }
        lemma_order_is_unique(x, y);
        assert(a =~= seq![a[0]] + x);
        assert(b =~= seq![b[0]] + y);
    }
}

/// The texts of a set, in order.
pub open spec fn ordered(set: Set<Seq<char>>) -> Seq<Seq<char>> {
    choose|keys: Seq<Seq<char>>|
        in_order(keys) && forall|key: Seq<char>| #[trigger] keys.contains(key) == set.contains(key)
}

/// Ordered keys are the ones of their set.
pub proof fn lemma_ordered(keys: Seq<Seq<char>>, set: Set<Seq<char>>)
    requires
        in_order(keys),
        forall|key: Seq<char>| #[trigger] keys.contains(key) == set.contains(key),
    ensures
        ordered(set) == keys,
{
    let other = ordered(set);
    assert(in_order(other) && forall|key: Seq<char>| #[trigger]
        other.contains(key) == set.contains(key));
    lemma_order_is_unique(keys, other);
}

/// After the first of keys in order, the rest are the others.
proof fn lemma_rest(keys: Seq<Seq<char>>, key: Seq<char>)
    requires
        in_order(keys),
        keys.len() > 0,
    ensures
        keys.drop_first().contains(key) == (keys.contains(key) && key != keys[0]),
{
    lemma_positions(keys);
    let rest = keys.drop_first();
    if rest.contains(key) {
        let i = choose|i: int| 0 <= i < rest.len() && rest[i] == key;
        assert(keys[i + 1] == key);
    }
    if keys.contains(key) && key != keys[0] {
        let i = choose|i: int| 0 <= i < keys.len() && keys[i] == key;
        assert(rest[i - 1] == key);
    }
}

impl<V> TextMap<V> {
    /// The keys, in order.
    pub closed spec fn keys(&self) -> Seq<Seq<char>> {
        self.entries@.map_values(|entry: (String, V)| entry.0@)
    }

    /// The values, in the order of their keys.
    pub closed spec fn values(&self) -> Seq<V> {
        self.entries@.map_values(|entry: (String, V)| entry.1)
    }

    /// The keys stand in order, each once.
    pub open spec fn wf(&self) -> bool {
        in_order(self.keys())
    }
}

impl<V> View for TextMap<V> {
    type V = Map<Seq<char>, V>;

    closed spec fn view(&self) -> Map<Seq<char>, V> {
        Map::new(
            |key: Seq<char>| self.keys().contains(key),
            |key: Seq<char>| self.values()[self.keys().index_of(key)],
        )
    }
}

impl<V> TextMap<V> {
    /// The keys of the map are those in order, and each names the value beside
    /// it.
    pub proof fn lemma_shape(&self)
        requires
            self.wf(),
        ensures
            self.keys().no_duplicates(),
            self.keys().len() == self.values().len(),
            forall|key: Seq<char>| #[trigger]
                self@.contains_key(key) == self.keys().contains(key),
            forall|i: int|
                0 <= i < self.keys().len() ==> self@.contains_key(#[trigger] self.keys()[i])
                    && self@[self.keys()[i]] == self.values()[i],
    {
        lemma_positions(self.keys());
        assert forall|i: int| 0 <= i < self.keys().len() implies self@.contains_key(
            #[trigger] self.keys()[i],
        ) && self@[self.keys()[i]] == self.values()[i] by {
            assert(self.keys().contains(self.keys()[i]));
        }
    }

    /// An empty map.
    pub fn new() -> (map: Self)
        ensures
            map.wf(),
            map@ == Map::<Seq<char>, V>::empty(),
            map.keys() == Seq::<Seq<char>>::empty(),
    {
        let map: TextMap<V> = TextMap { entries: Vec::new() };
        assert(map.keys() =~= Seq::empty());
        assert(map@ =~= Map::empty());
        map
    }

    /// How many keys there are.
    pub fn len(&self) -> (len: usize)
        ensures
            len == self.keys().len(),
    {
        self.entries.len()
    }

    /// Whether there are none.
    pub fn is_empty(&self) -> (yes: bool)
        ensures
            yes == (self.keys().len() == 0),
    {
        self.entries.len() == 0
    }

    /// The key at a position.
    pub fn key_at(&self, i: usize) -> (key: &String)
        requires
            i < self.keys().len(),
        ensures
            key@ == self.keys()[i as int],
    {
        &self.entries[i].0
    }

    /// The value at a position.
    pub fn value_at(&self, i: usize) -> (value: &V)
        requires
            i < self.values().len(),
        ensures
            *value == self.values()[i as int],
    {
        &self.entries[i].1
    }

    /// Where a key stands, or where it would.
    fn place_of(&self, key: &str) -> (at: usize)
        requires
            self.wf(),
        ensures
            at <= self.keys().len(),
            forall|i: int| 0 <= i < at ==> comes_before(#[trigger] self.keys()[i], key@),
            forall|i: int|
                at <= i < self.keys().len() ==> !comes_before(#[trigger] self.keys()[i], key@),
    {
        let mut at: usize = 0;
        while at < self.entries.len()
            invariant
                self.wf(),
                at <= self.entries@.len(),
                forall|i: int| 0 <= i < at ==> comes_before(#[trigger] self.keys()[i], key@),
            decreases self.entries@.len() - at,
        {
            assert(self.keys()[at as int] == self.entries@[at as int].0@);
            if !is_before(self.entries[at].0.as_str(), key) {
                proof {
                    assert forall|i: int| at <= i < self.keys().len() implies !comes_before(
                        #[trigger] self.keys()[i],
                        key@,
                    ) by {
                        if comes_before(self.keys()[i], key@) && i > at {
                            lemma_order_transitive(self.keys()[at as int], self.keys()[i], key@);
                        }
                    }
                }
                return at;
            }
            at = at + 1;
        }
        at
    }

    /// The position of a key, if it is there.
    pub fn position(&self, key: &str) -> (at: Option<usize>)
        requires
            self.wf(),
        ensures
            at is Some == self@.contains_key(key@),
            at is Some ==> at->0 < self.keys().len() && self.keys()[at->0 as int] == key@,
    {
        proof {
            self.lemma_shape();
        }
        let at: usize = self.place_of(key);
        if at < self.entries.len() && same_text(self.entries[at].0.as_str(), key) {
            assert(self.keys()[at as int] == key@);
            return Some(at);
        }
        proof {
            if self.keys().contains(key@) {
                let i = choose|i: int| 0 <= i < self.keys().len() && self.keys()[i] == key@;
                lemma_order_irreflexive(key@);
                assert(i >= at);
                assert(self.keys()[at as int] == self.entries@[at as int].0@);
                if i > at {
                    assert(comes_before(self.keys()[at as int], self.keys()[i]));
                }
            }
        }
        None
    }

    /// What a key stands for.
    pub fn get(&self, key: &str) -> (value: Option<&V>)
        requires
            self.wf(),
        ensures
            match value {
                Some(value) => self@.contains_key(key@) && *value == self@[key@],
                None => !self@.contains_key(key@),
            },
    {
        proof {
            self.lemma_shape();
        }
        match self.position(key) {
            Some(at) => {
                assert(self.keys()[at as int] == key@);
                Some(&self.entries[at].1)
            },
            None => None,
        }
    }

    /// Whether a key is there.
    pub fn contains_key(&self, key: &str) -> (yes: bool)
        requires
            self.wf(),
        ensures
            yes == self@.contains_key(key@),
    {
        match self.position(key) {
            Some(_) => true,
            None => false,
        }
    }

    /// Puts a value under a key, replacing whatever was there.
    pub fn insert(&mut self, key: String, value: V)
        requires
            old(self).wf(),
        ensures
            final(self).wf(),
            final(self)@ == old(self)@.insert(key@, value),
    {
        let ghost before = *self;
        let ghost k = key@;
        proof {
            self.lemma_shape();
        }
        match self.position(key.as_str()) {
            Some(at) => {
                let ghost keys = self.keys();
                let ghost values = self.values();
                self.entries.set(at, (key, value));
                proof {
                    assert(self.keys() =~= keys);
                    assert(self.values() =~= values.update(at as int, value));
                    self.lemma_shape();
                    assert(self@ =~= before@.insert(k, value));
                }
            },
            None => {
                let at: usize = self.place_of(key.as_str());
                let ghost keys = self.keys();
                let ghost values = self.values();
                self.entries.insert(at, (key, value));
                proof {
                    assert(self.keys() =~= keys.insert(at as int, k));
                    assert(self.values() =~= values.insert(at as int, value));
                    assert forall|i: int, j: int|
                        0 <= i < j < self.keys().len() implies comes_before(
                        #[trigger] self.keys()[i],
                        #[trigger] self.keys()[j],
                    ) by {
                        lemma_inserted_order(keys, at as int, k, i, j);
                    }
                    self.lemma_shape();
                    assert forall|other: Seq<char>|
                        self.keys().contains(other) == (keys.contains(other) || other == k) by {
                        lemma_inserted_holds(keys, at as int, k, other);
                    }
                    assert forall|other: Seq<char>| keys.contains(other) implies self@[other]
                        == before@[other] by {
                        let i = choose|i: int| 0 <= i < keys.len() && keys[i] == other;
                        if i < at {
                            assert(self.keys()[i] == other);
                            assert(before.keys()[i] == other);
                        } else {
                            assert(self.keys()[i + 1] == other);
                            assert(before.keys()[i] == other);
                        }
                    }
                    assert(self.keys()[at as int] == k);
                    assert(self@ =~= before@.insert(k, value));
                }
            },
        }
    }

    /// Takes a key out, with what it stood for.
    pub fn remove(&mut self, key: &str) -> (value: Option<V>)
        requires
            old(self).wf(),
        ensures
            final(self).wf(),
            final(self)@ == old(self)@.remove(key@),
            match value {
                Some(value) => old(self)@.contains_key(key@) && value == old(self)@[key@],
                None => !old(self)@.contains_key(key@),
            },
    {
        let ghost before = *self;
        proof {
            self.lemma_shape();
        }
        match self.position(key) {
            Some(at) => {
                let ghost keys = self.keys();
                let ghost values = self.values();
                let entry: (String, V) = self.entries.remove(at);
                proof {
                    assert(self.keys() =~= keys.remove(at as int));
                    assert(self.values() =~= values.remove(at as int));
                    assert forall|i: int, j: int|
                        0 <= i < j < self.keys().len() implies comes_before(
                        #[trigger] self.keys()[i],
                        #[trigger] self.keys()[j],
                    ) by {
                        let a = if i < at { i } else { i + 1 };
                        let b = if j < at { j } else { j + 1 };
                        assert(comes_before(keys[a], keys[b]));
                    }
                    self.lemma_shape();
                    assert forall|other: Seq<char>|
                        self.keys().contains(other) == (keys.contains(other) && other != key@) by {
                        if self.keys().contains(other) {
                            let i = choose|i: int|
                                0 <= i < self.keys().len() && self.keys()[i] == other;
                            let a = if i < at { i } else { i + 1 };
                            assert(keys[a] == other);
                            assert(a != at);
                        }
                        if keys.contains(other) && other != key@ {
                            let i = choose|i: int| 0 <= i < keys.len() && keys[i] == other;
                            let a = if i < at { i } else { i - 1 };
                            assert(self.keys()[a] == other);
                        }
                    }
                    assert forall|other: Seq<char>|
                        keys.contains(other) && other != key@ implies self@[other]
                        == before@[other] by {
                        let i = choose|i: int| 0 <= i < keys.len() && keys[i] == other;
                        assert(before.keys()[i] == other);
                        let a = if i < at { i } else { i - 1 };
                        assert(self.keys()[a] == other);
                    }
                    assert(self@ =~= before@.remove(key@));
                    assert(before.keys()[at as int] == key@);
                }
                Some(entry.1)
            },
            None => {
                assert(self@ =~= before@.remove(key@));
                None
            },
        }
    }
}

/// A key put where it belongs leaves the keys in order.
proof fn lemma_inserted_order(keys: Seq<Seq<char>>, at: int, key: Seq<char>, i: int, j: int)
    requires
        in_order(keys),
        0 <= at <= keys.len(),
        !keys.contains(key),
        forall|i: int| 0 <= i < at ==> comes_before(#[trigger] keys[i], key),
        forall|i: int| at <= i < keys.len() ==> !comes_before(#[trigger] keys[i], key),
        0 <= i < j <= keys.len(),
    ensures
        comes_before(keys.insert(at, key)[i], keys.insert(at, key)[j]),
{
    let after = keys.insert(at, key);
    if i == at {
        assert(after[j] == keys[j - 1]);
        assert(keys.contains(keys[j - 1]));
        lemma_order_total(keys[j - 1], key);
    } else if j == at {
        assert(after[i] == keys[i]);
    } else {
        let a = if i < at { i } else { i - 1 };
        let b = if j < at { j } else { j - 1 };
        assert(after[i] == keys[a]);
        assert(after[j] == keys[b]);
    }
}

/// Inserting a key adds it and takes none away.
proof fn lemma_inserted_holds(keys: Seq<Seq<char>>, at: int, key: Seq<char>, other: Seq<char>)
    requires
        0 <= at <= keys.len(),
    ensures
        keys.insert(at, key).contains(other) == (keys.contains(other) || other == key),
{
    let after = keys.insert(at, key);
    if after.contains(other) {
        let i = choose|i: int| 0 <= i < after.len() && after[i] == other;
        if i < at {
            assert(keys[i] == other);
        } else if i > at {
            assert(keys[i - 1] == other);
        }
    }
    if keys.contains(other) {
        let i = choose|i: int| 0 <= i < keys.len() && keys[i] == other;
        if i < at {
            assert(after[i] == other);
        } else {
            assert(after[i + 1] == other);
        }
    }
    assert(after[at] == key);
}

} // verus!
