//! What holds of read-modify-writes, of waiting, and of strings in memory.

use vstd::prelude::*;
use crate::rt::access::effective;
use crate::rt::caller::{c_text, nul_from, terminated};
use crate::rt::memory::{matches_expected, rmw_result, Rmw};
use crate::rt::parking::wake;
use crate::rt::words::pow256;

verus! {

// ---- read-modify-writes ----

/// What was added can be taken off again, and what was taken off added.
pub proof fn adding_and_subtracting_undo_each_other(old: u64, value: u64)
    ensures
        rmw_result(Rmw::Sub, rmw_result(Rmw::Add, old, value), value) == old,
        rmw_result(Rmw::Add, rmw_result(Rmw::Sub, old, value), value) == old,
        (rmw_result(Rmw::Add, old, value) - old - value) % 0x1_0000_0000_0000_0000 == 0,
{
}

/// An exclusive or undoes itself, and turns over exactly the bits of its operand.
pub proof fn exclusive_or_turns_bits_over(old: u64, value: u64, bit: u64)
    requires
        bit < 64,
    ensures
        rmw_result(Rmw::Xor, rmw_result(Rmw::Xor, old, value), value) == old,
        ((rmw_result(Rmw::Xor, old, value) >> bit) & 1 == (old >> bit) & 1) == ((value >> bit) & 1
            == 0),
{
    assert((old ^ value) ^ value == old) by (bit_vector);
    assert((((old ^ value) >> bit) & 1 == (old >> bit) & 1) == ((value >> bit) & 1 == 0))
        by (bit_vector)
        requires
            bit < 64,
    ;
}

/// An `and` keeps a bit where the operand has it and clears it elsewhere; an `or` sets it
/// where the operand has it and keeps it elsewhere.
pub proof fn and_clears_and_or_sets(old: u64, value: u64, bit: u64)
    requires
        bit < 64,
    ensures
        (rmw_result(Rmw::And, old, value) >> bit) & 1 == if (value >> bit) & 1 == 1 {
            (old >> bit) & 1
        } else {
            0
        },
        (rmw_result(Rmw::Or, old, value) >> bit) & 1 == if (value >> bit) & 1 == 1 {
            1
        } else {
            (old >> bit) & 1
        },
{
    assert(((old & value) >> bit) & 1 == if (value >> bit) & 1 == 1 {
        (old >> bit) & 1
    } else {
        0
    }) by (bit_vector)
        requires
            bit < 64,
    ;
    assert(((old | value) >> bit) & 1 == if (value >> bit) & 1 == 1 {
        1
    } else {
        (old >> bit) & 1
    }) by (bit_vector)
        requires
            bit < 64,
    ;
}

/// An exchange leaves what it was given, whatever was there.
pub proof fn an_exchange_leaves_what_it_was_given(old: u64, other: u64, value: u64)
    ensures
        rmw_result(Rmw::Xchg, old, value) == value,
        rmw_result(Rmw::Xchg, old, value) == rmw_result(Rmw::Xchg, other, value),
{
}

/// A compare-and-exchange takes what was loaded from the same place: a value of the
/// access's width matches itself, and no other.
pub proof fn a_comparison_takes_what_was_loaded(old: nat, expected: i64, bytes: u32)
    requires
        old < pow256(bytes as nat),
        0 <= expected < pow256(bytes as nat),
    ensures
        matches_expected(old, expected, bytes) == (old == expected as int),
{
    vstd::arithmetic::div_mod::lemma_small_mod((expected as u64) as nat, pow256(bytes as nat));
}

/// An address is an unsigned number: one that is negative as a signed number is in the
/// upper half.
pub proof fn an_address_is_unsigned(addr: i32, offset: u64)
    ensures
        addr >= 0 ==> effective(addr, offset) == addr + offset,
        addr < 0 ==> effective(addr, offset) == addr + 0x1_0000_0000 + offset,
{
    assert(addr < 0i32 ==> (addr as u32) as i64 == (addr as i64) + 0x1_0000_0000i64)
        by (bit_vector);
}

// ---- waiting ----

/// Who waits on an address, oldest first.
pub open spec fn queue(waiting: Seq<(usize, u64)>, at: usize) -> Seq<(usize, u64)> {
    waiting.filter(|waiter: (usize, u64)| waiter.0 == at)
}

proof fn lemma_filter_first(waiting: Seq<(usize, u64)>, at: usize)
    requires
        waiting.len() > 0,
    ensures
        queue(waiting, at) == if waiting[0].0 == at {
            seq![waiting[0]] + queue(waiting.drop_first(), at)
        } else {
            queue(waiting.drop_first(), at)
        },
    decreases waiting.len(),
{
    reveal(Seq::filter);
    let wanted = |waiter: (usize, u64)| waiter.0 == at;
    if waiting.len() == 1 {
        assert(waiting.drop_last() =~= Seq::empty());
        assert(waiting.drop_first() =~= Seq::empty());
        assert(waiting.last() == waiting[0]);
        assert(queue(waiting, at) =~= if waiting[0].0 == at {
            seq![waiting[0]] + queue(waiting.drop_first(), at)
        } else {
            queue(waiting.drop_first(), at)
        });
    } else {
        let less = waiting.drop_last();
        lemma_filter_first(less, at);
        assert(less.drop_first() =~= waiting.drop_first().drop_last());
        assert(waiting.drop_first().last() == waiting.last());
        assert(less[0] == waiting[0]);
        assert(queue(waiting, at) =~= if waiting[0].0 == at {
            seq![waiting[0]] + queue(waiting.drop_first(), at)
        } else {
            queue(waiting.drop_first(), at)
        });
    }
}

/// A notify wakes the oldest of those that wait on the address, as many as it was asked
/// for, in the order they came; the others there stay in theirs, and so does everybody who
/// waits elsewhere.
pub proof fn the_oldest_are_woken_first(
    waiting: Seq<(usize, u64)>,
    at: usize,
    wanted: nat,
    elsewhere: usize,
)
    requires
        elsewhere != at,
    ensures
        ({
            let (rest, woken) = wake(waiting, at, wanted);
            let here = queue(waiting, at);
            let count: int = if here.len() < wanted {
                here.len() as int
            } else {
                wanted as int
            };
            &&& woken == here.take(count).map_values(|waiter: (usize, u64)| waiter.1)
            &&& queue(rest, at) == here.skip(count)
            &&& queue(rest, elsewhere) == queue(waiting, elsewhere)
        }),
    decreases waiting.len(),
{
    let (rest, woken) = wake(waiting, at, wanted);
    let here = queue(waiting, at);
    let count: int = if here.len() < wanted {
        here.len() as int
    } else {
        wanted as int
    };
    if waiting.len() == 0 {
        reveal(Seq::filter);
        assert(here =~= Seq::empty());
        assert(woken =~= here.take(count).map_values(|waiter: (usize, u64)| waiter.1));
        assert(queue(rest, at) =~= here.skip(count));
        assert(queue(rest, elsewhere) =~= queue(waiting, elsewhere));
    } else {
        lemma_filter_first(waiting, at);
        lemma_filter_first(waiting, elsewhere);
        let first = waiting[0];
        let others = waiting.drop_first();
        if first.0 == at && wanted > 0 {
            the_oldest_are_woken_first(others, at, (wanted - 1) as nat, elsewhere);
            assert(woken =~= here.take(count).map_values(|waiter: (usize, u64)| waiter.1));
            assert(here.skip(count) =~= queue(others, at).skip(count - 1));
        } else {
            the_oldest_are_woken_first(others, at, wanted, elsewhere);
            let kept = wake(others, at, wanted).0;
            assert(rest == seq![first] + kept);
            assert(rest.drop_first() =~= kept);
            assert(rest[0] == first);
            lemma_filter_first(rest, at);
            lemma_filter_first(rest, elsewhere);
            if first.0 == at {
                assert(count == 0);
                assert(queue(others, at).skip(0) =~= queue(others, at));
                assert(here.skip(0) =~= here);
                assert(queue(others, at).take(0) =~= Seq::empty());
                assert(here.take(0) =~= Seq::empty());
                assert(woken =~= here.take(count).map_values(|waiter: (usize, u64)| waiter.1));
            }
        }
    }
}

// ---- strings ----

proof fn lemma_nul(bytes: Seq<u8>, at: int, end: int)
    requires
        0 <= at <= end < bytes.len(),
        bytes[end] == 0,
        forall|i: int| at <= i < end ==> #[trigger] bytes[i] != 0,
    ensures
        nul_from(bytes, at) == end,
    decreases end - at,
{
    if at < end {
        assert(bytes[at] != 0);
        lemma_nul(bytes, at + 1, end);
    }
}

/// A string in memory is the bytes before its first NUL: what was written before one, and
/// holds none, is read back.
pub proof fn a_string_ends_at_its_first_nul(bytes: Seq<u8>, at: int, text: Seq<u8>)
    requires
        0 <= at,
        at + text.len() < bytes.len(),
        bytes.subrange(at, at + text.len()) == text,
        bytes[at + text.len()] == 0,
        forall|i: int| 0 <= i < text.len() ==> #[trigger] text[i] != 0,
    ensures
        terminated(bytes, at),
        c_text(bytes, at) == text,
{
    assert forall|i: int| at <= i < at + text.len() implies #[trigger] bytes[i] != 0 by {
        assert(bytes[i] == bytes.subrange(at, at + text.len())[i - at]);
    }
    lemma_nul(bytes, at, at + text.len());
}

} // verus!
