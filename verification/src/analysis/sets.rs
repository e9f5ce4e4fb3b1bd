//! Ordered maps and sets of integers, listed.

use vstd::prelude::*;
use std::collections::{BTreeMap, BTreeSet};
use vstd::std_specs::btree::increasing_seq;

verus! {

/// Whether a list is in increasing order.
pub open spec fn increasing_u32(list: Seq<u32>) -> bool {
    forall|i: int, j: int| 0 <= i < j < list.len() ==> list[i] < list[j]
}

/// Whether a list is in increasing order.
pub open spec fn increasing_i32(list: Seq<i32>) -> bool {
    forall|i: int, j: int| 0 <= i < j < list.len() ==> list[i] < list[j]
}

/// The order of keys is the order of numbers.
proof fn lemma_increasing_u32(keys: Seq<u32>)
    requires
        increasing_seq(keys),
    ensures
        increasing_u32(keys),
{
    assert forall|i: int, j: int| 0 <= i < j < keys.len() implies keys[i] < keys[j] by {
        assert(vstd::std_specs::cmp::OrdSpec::cmp_spec(&keys[i], &keys[j]) is Less);
    }
}

/// The order of keys is the order of numbers.
proof fn lemma_increasing_i32(keys: Seq<i32>)
    requires
        increasing_seq(keys),
    ensures
        increasing_i32(keys),
{
    assert forall|i: int, j: int| 0 <= i < j < keys.len() implies keys[i] < keys[j] by {
        assert(vstd::std_specs::cmp::OrdSpec::cmp_spec(&keys[i], &keys[j]) is Less);
    }
}

/// The members of a set, each once.
pub fn members_u32(set: &BTreeSet<u32>) -> (list: Vec<u32>)
    ensures
        list@.no_duplicates(),
        forall|member: u32| #[trigger] list@.contains(member) == set@.contains(member),
{
    let mut list: Vec<u32> = Vec::new();
    for member in it: set.iter()
        invariant
            forall|member: u32| #[trigger]
                set@.contains(member) ==> exists|i: int|
                    #![trigger it.seq()[i]]
                    0 <= i < it.seq().len() && *it.seq()[i] == member,
            it.seq().unref().to_set() == set@,
            forall|i: int| 0 <= i < list@.len() ==> set@.contains(#[trigger] list@[i]),
            list@.len() == it.index(),
            it.seq().no_duplicates(),
            list@.no_duplicates(),
            forall|i: int|
                #![trigger list@[i]]
                #![trigger it.seq()[i]]
                0 <= i < list@.len() ==> list@[i] == *it.seq()[i],
    {
        proof {
            assert(it.seq().unref()[list@.len() as int] == *member);
            assert(it.seq().unref().to_set().contains(*member));
            assert forall|i: int| 0 <= i < list@.len() implies list@[i] != *member by {
                assert(*it.seq()[i] == list@[i]);
                assert(it.seq()[i] != it.seq()[list@.len() as int]);
            }
        }
        list.push(*member);
    }
    list
}

/// The members of a set, each once.
pub fn members_i32(set: &BTreeSet<i32>) -> (list: Vec<i32>)
    ensures
        list@.no_duplicates(),
        forall|member: i32| #[trigger] list@.contains(member) == set@.contains(member),
{
    let mut list: Vec<i32> = Vec::new();
    for member in it: set.iter()
        invariant
            forall|member: i32| #[trigger]
                set@.contains(member) ==> exists|i: int|
                    #![trigger it.seq()[i]]
                    0 <= i < it.seq().len() && *it.seq()[i] == member,
            it.seq().unref().to_set() == set@,
            forall|i: int| 0 <= i < list@.len() ==> set@.contains(#[trigger] list@[i]),
            list@.len() == it.index(),
            it.seq().no_duplicates(),
            list@.no_duplicates(),
            forall|i: int|
                #![trigger list@[i]]
                #![trigger it.seq()[i]]
                0 <= i < list@.len() ==> list@[i] == *it.seq()[i],
    {
        proof {
            assert(it.seq().unref()[list@.len() as int] == *member);
            assert(it.seq().unref().to_set().contains(*member));
            assert forall|i: int| 0 <= i < list@.len() implies list@[i] != *member by {
                assert(*it.seq()[i] == list@[i]);
                assert(it.seq()[i] != it.seq()[list@.len() as int]);
            }
        }
        list.push(*member);
    }
    list
}

/// The keys of a map, in order.
pub fn keys_u32<V>(map: &BTreeMap<u32, V>) -> (list: Vec<u32>)
    ensures
        increasing_u32(list@),
        forall|key: u32| #[trigger] list@.contains(key) == map@.contains_key(key),
{
    let mut list: Vec<u32> = Vec::new();
    for entry in it: map.iter()
        invariant
            list@.len() == it.index(),
            forall|i: int|
                #![trigger list@[i]]
                #![trigger it.seq()[i]]
                0 <= i < list@.len() ==> list@[i] == *it.seq()[i].0,
            forall|i: int|
                #![trigger it.seq()[i]]
                0 <= i < it.seq().len() ==> map@.contains_key(*it.seq()[i].0),
            forall|key: u32| #[trigger]
                map@.contains_key(key) ==> it.seq().contains((&key, &map@[key])),
            increasing_seq(it.seq().map_values(|kv: (&u32, &V)| *kv.0)),
            increasing_u32(list@),
    {
        proof {
            let keys = it.seq().map_values(|kv: (&u32, &V)| *kv.0);
            lemma_increasing_u32(keys);
            assert(keys[list@.len() as int] == *entry.0);
            assert forall|i: int| 0 <= i < list@.len() implies list@[i] < *entry.0 by {
                assert(keys[i] == list@[i]);
            }
        }
        list.push(*entry.0);
    }
    list
}

/// The keys of a map, in order.
pub fn keys_i32<V>(map: &BTreeMap<i32, V>) -> (list: Vec<i32>)
    ensures
        increasing_i32(list@),
        forall|key: i32| #[trigger] list@.contains(key) == map@.contains_key(key),
{
    let mut list: Vec<i32> = Vec::new();
    for entry in it: map.iter()
        invariant
            list@.len() == it.index(),
            forall|i: int|
                #![trigger list@[i]]
                #![trigger it.seq()[i]]
                0 <= i < list@.len() ==> list@[i] == *it.seq()[i].0,
            forall|i: int|
                #![trigger it.seq()[i]]
                0 <= i < it.seq().len() ==> map@.contains_key(*it.seq()[i].0),
            forall|key: i32| #[trigger]
                map@.contains_key(key) ==> it.seq().contains((&key, &map@[key])),
            increasing_seq(it.seq().map_values(|kv: (&i32, &V)| *kv.0)),
            increasing_i32(list@),
    {
        proof {
            let keys = it.seq().map_values(|kv: (&i32, &V)| *kv.0);
            lemma_increasing_i32(keys);
            assert(keys[list@.len() as int] == *entry.0);
            assert forall|i: int| 0 <= i < list@.len() implies list@[i] < *entry.0 by {
                assert(keys[i] == list@[i]);
            }
        }
        list.push(*entry.0);
    }
    list
}

} // verus!
