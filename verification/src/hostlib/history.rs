//! What holds of a host over all the calls made of it.

use vstd::prelude::*;
use crate::hostlib::embind::{new_handle, with_reference, without_reference};
use crate::hostlib::unanswered::{accounts_for, lemma_accounts_for, with_call, with_place};

verus! {

// ---- handles ----

/// A call that concerns handles.
pub enum HandleCall {
    /// `_emval_take_value`.
    Take,
    /// `_emval_incref`.
    Incref(i32),
    /// `_emval_decref`.
    Decref(i32),
}

/// What emval holds.
pub struct Held {
    /// Handles with their reference counts.
    pub handles: Map<i32, i32>,
    /// The next handle to hand out.
    pub next_handle: i32,
}

/// What is held after some calls, from nothing on.
pub open spec fn held_after(calls: Seq<HandleCall>) -> Held
    decreases calls.len(),
{
    if calls.len() == 0 {
        Held { handles: Map::empty(), next_handle: 0 }
    } else {
        let before = held_after(calls.drop_last());
        match calls.last() {
            HandleCall::Take => Held {
                handles: before.handles.insert(new_handle(before.next_handle), 1),
                next_handle: (new_handle(before.next_handle) + 1) as i32,
            },
            HandleCall::Incref(handle) => Held {
                handles: with_reference(before.handles, handle),
                next_handle: before.next_handle,
            },
            HandleCall::Decref(handle) => Held {
                handles: without_reference(before.handles, handle),
                next_handle: before.next_handle,
            },
        }
    }
}

/// The handles that some calls gave out, in order.
pub open spec fn given_out(calls: Seq<HandleCall>) -> Seq<i32>
    decreases calls.len(),
{
    if calls.len() == 0 {
        Seq::empty()
    } else {
        let before = given_out(calls.drop_last());
        match calls.last() {
            HandleCall::Take => before.push(
                new_handle(held_after(calls.drop_last()).next_handle),
            ),
            _ => before,
        }
    }
}

/// Handles keep going up, from one on: none is given out twice, not even after it was
/// released, and null never is.
pub proof fn handles_keep_going_up(calls: Seq<HandleCall>)
    requires
        given_out(calls).len() < i32::MAX,
    ensures
        forall|i: int| 0 <= i < given_out(calls).len() ==> #[trigger] given_out(calls)[i] == i + 1,
        forall|i: int, j: int|
            0 <= i < j < given_out(calls).len() ==> 1 <= #[trigger] given_out(calls)[i]
                < #[trigger] given_out(calls)[j],
        held_after(calls).next_handle == if given_out(calls).len() == 0 {
            0
        } else {
            given_out(calls).len() + 1
        },
    decreases calls.len(),
{
    if calls.len() > 0 {
        handles_keep_going_up(calls.drop_last());
    }
}

// ---- answers by default ----

/// A call answered with a default: the import and its arguments.
pub type Record = (Seq<char>, Seq<i64>);

/// The calls after some records, from nothing on.
pub open spec fn calls_after(records: Seq<Record>) -> Map<Seq<char>, (usize, Seq<i64>)>
    decreases records.len(),
{
    if records.len() == 0 {
        Map::empty()
    } else {
        with_call(calls_after(records.drop_last()), records.last().0, records.last().1)
    }
}

/// The order after some records, from nothing on.
pub open spec fn order_after(records: Seq<Record>) -> Seq<Seq<char>>
    decreases records.len(),
{
    if records.len() == 0 {
        Seq::empty()
    } else {
        with_place(order_after(records.drop_last()), records.last().0)
    }
}

/// How often an import was recorded.
pub open spec fn times(records: Seq<Record>, import: Seq<char>) -> int
    decreases records.len(),
{
    if records.len() == 0 {
        0
    } else if records.last().0 == import {
        times(records.drop_last(), import) + 1
    } else {
        times(records.drop_last(), import)
    }
}

/// The first record of an import, or the end where it has none.
pub open spec fn first_at(records: Seq<Record>, import: Seq<char>) -> int
    decreases records.len(),
{
    if records.len() == 0 {
        0
    } else {
        let before = first_at(records.drop_last(), import);
        if before < records.len() - 1 || records.last().0 == import {
            before
        } else {
            records.len() as int
        }
    }
}

/// The first record of an import is one of it, and none is before it.
pub proof fn the_first_is_the_first(records: Seq<Record>, import: Seq<char>)
    ensures
        0 <= first_at(records, import) <= records.len(),
        first_at(records, import) < records.len() ==> records[first_at(records, import)].0
            == import,
        forall|i: int| 0 <= i < first_at(records, import) ==> (#[trigger] records[i]).0 != import,
    decreases records.len(),
{
    if records.len() > 0 {
        let before = records.drop_last();
        the_first_is_the_first(before, import);
        assert forall|i: int| 0 <= i < first_at(records, import) implies (
        #[trigger] records[i]).0 != import by {
            if i < before.len() {
                assert(before[i] == records[i]);
            }
        }
    }
}

/// Each import that was answered with a default is counted as often as it was, with
/// the arguments of its first call, and stands once in the order, which is that of the
/// first calls. No other import does.
pub proof fn every_default_is_accounted_for(records: Seq<Record>)
    requires
        records.len() <= usize::MAX,
    ensures
        accounts_for(order_after(records), calls_after(records)),
        forall|import: Seq<char>| #[trigger]
            calls_after(records).contains_key(import) == (first_at(records, import)
                < records.len()),
        forall|import: Seq<char>| #[trigger]
            calls_after(records).contains_key(import) ==> calls_after(records)[import].0 == times(
                records,
                import,
            ) && calls_after(records)[import].1 == records[first_at(records, import)].1,
        forall|i: int, j: int|
            0 <= i < j < order_after(records).len() ==> first_at(
                records,
                #[trigger] order_after(records)[i],
            ) < first_at(records, #[trigger] order_after(records)[j]),
    decreases records.len(),
{
    if records.len() == 0 {
        assert(forall|import: Seq<char>| !Seq::<Seq<char>>::empty().contains(import));
    } else {
        let before = records.drop_last();
        every_default_is_accounted_for(before);
        let (import, arguments) = records.last();
        let order = order_after(before);
        let calls = calls_after(before);
        lemma_accounts_for(order, calls, import, arguments);
        assert forall|other: Seq<char>| first_at(before, other) < before.len() implies #[trigger]
            first_at(records, other) == first_at(before, other) by {}
        assert forall|other: Seq<char>| 0 <= #[trigger] first_at(before, other) <= before.len() by {
            the_first_is_the_first(before, other);
        }
        assert forall|other: Seq<char>| #[trigger]
            calls_after(records).contains_key(other) implies calls_after(records)[other].0
            == times(records, other) && calls_after(records)[other].1 == records[first_at(
            records,
            other,
        )].1 by {
            assert(calls.contains_key(other) == (first_at(before, other) < before.len()));
            lemma_times(before, other);
            if first_at(before, other) < before.len() {
                assert(before[first_at(before, other)] == records[first_at(before, other)]);
            }
        }
        let after = order_after(records);
        assert(order.contains(import) == calls.contains_key(import));
        assert forall|i: int, j: int| 0 <= i < j < after.len() implies first_at(
            records,
            #[trigger] after[i],
        ) < first_at(records, #[trigger] after[j]) by {
            assert(order[i] == after[i]);
            assert(order.contains(order[i]));
            assert(calls.contains_key(order[i]));
            if j < order.len() {
                assert(order[j] == after[j]);
                assert(order.contains(order[j]));
                assert(calls.contains_key(order[j]));
                assert(first_at(before, order[i]) < first_at(before, order[j]));
            } else {
                assert(after[j] == import);
                assert(!calls.contains_key(import));
            }
        }
    }
}

/// An import is counted no more often than there are records, and not at all where it
/// has none.
proof fn lemma_times(records: Seq<Record>, import: Seq<char>)
    ensures
        0 <= times(records, import) <= records.len(),
        first_at(records, import) == records.len() ==> times(records, import) == 0,
    decreases records.len(),
{
    the_first_is_the_first(records, import);
    if records.len() > 0 {
        lemma_times(records.drop_last(), import);
        the_first_is_the_first(records.drop_last(), import);
    }
}

} // verus!
