//! Threads parked on addresses, each holding a ticket.
//!
//! A ticket per waiter rather than a generation per address, because
//! `memory.atomic.notify` takes a *count*: waking everybody and reporting how
//! many were parked is a different program. The tickets are woken in the order
//! they parked.

use vstd::prelude::*;
use std::collections::BTreeSet;

verus! {

/// How a wait goes on once the value has been compared.
#[derive(Debug, Clone, Copy, PartialEq, Eq, Structural)]
pub enum Wait {
    /// It is over, with this answer.
    Answered(i32),
    /// Nobody else holds the memory, so nobody can ever notify.
    Unanswerable,
    /// It waits, under this ticket.
    Parked(u64),
}

/// The parking lot's contents.
#[derive(Debug, Clone)]
pub struct Parked {
    /// The address each ticket waits on, oldest first.
    pub waiting: Vec<(usize, u64)>,
    /// Tickets that have been notified and have not yet noticed.
    pub woken: BTreeSet<u64>,
    /// The last ticket handed out.
    pub last_ticket: u64,
}

impl Default for Parked {
    fn default() -> (parked: Self)
        ensures
            parked.waiting@ == Seq::<(usize, u64)>::empty(),
            parked.woken@ == Set::<u64>::empty(),
            parked.last_ticket == 0,
    {
        Parked { waiting: Vec::new(), woken: BTreeSet::new(), last_ticket: 0 }
    }
}

/// Those still waiting after up to `wanted` of those at `at` were woken, and the
/// tickets of the woken, oldest first.
pub open spec fn wake(waiting: Seq<(usize, u64)>, at: usize, wanted: nat) -> (
    Seq<(usize, u64)>,
    Seq<u64>,
)
    decreases waiting.len(),
{
    if waiting.len() == 0 {
        (Seq::empty(), Seq::empty())
    } else if waiting[0].0 == at && wanted > 0 {
        let (rest, woken) = wake(waiting.drop_first(), at, (wanted - 1) as nat);
        (rest, seq![waiting[0].1] + woken)
    } else {
        let (rest, woken) = wake(waiting.drop_first(), at, wanted);
        (seq![waiting[0]] + rest, woken)
    }
}

/// How many wait on an address.
pub open spec fn waiting_at(waiting: Seq<(usize, u64)>, at: usize) -> nat
    decreases waiting.len(),
{
    if waiting.len() == 0 {
        0
    } else {
        waiting_at(waiting.drop_first(), at) + if waiting[0].0 == at {
            1nat
        } else {
            0
        }
    }
}

/// A notify wakes as many as it was asked for, or as many as were there.
pub proof fn lemma_wake_count(waiting: Seq<(usize, u64)>, at: usize, wanted: nat)
    ensures
        wake(waiting, at, wanted).1.len() == if waiting_at(waiting, at) < wanted {
            waiting_at(waiting, at)
        } else {
            wanted
        },
        waiting_at(wake(waiting, at, wanted).0, at) + wake(waiting, at, wanted).1.len()
            == waiting_at(waiting, at),
    decreases waiting.len(),
{
    if waiting.len() > 0 {
        let rest = waiting.drop_first();
        if waiting[0].0 == at && wanted > 0 {
            lemma_wake_count(rest, at, (wanted - 1) as nat);
        } else {
            lemma_wake_count(rest, at, wanted);
            let kept = wake(rest, at, wanted).0;
            assert((seq![waiting[0]] + kept).drop_first() =~= kept);
        }
    }
}

/// A notify leaves everyone who waits somewhere else where they were.
pub proof fn lemma_wake_leaves_others(
    waiting: Seq<(usize, u64)>,
    at: usize,
    wanted: nat,
)
    ensures
        wake(waiting, at, wanted).0.filter(|entry: (usize, u64)| entry.0 != at) == waiting.filter(
            |entry: (usize, u64)| entry.0 != at,
        ),
    decreases waiting.len(),
{
    let elsewhere = |entry: (usize, u64)| entry.0 != at;
    reveal_with_fuel(Seq::filter, 3);
    if waiting.len() > 0 {
        let rest = waiting.drop_first();
        assert(seq![waiting[0]] + rest =~= waiting);
        Seq::filter_distributes_over_add(seq![waiting[0]], rest, elsewhere);
        assert(seq![waiting[0]].drop_last() =~= Seq::<(usize, u64)>::empty());
        assert(seq![waiting[0]].last() == waiting[0]);
        assert(Seq::<(usize, u64)>::empty().filter(elsewhere) =~= Seq::empty());
        assert(seq![waiting[0]].filter(elsewhere) =~= if waiting[0].0 != at {
            seq![waiting[0]]
        } else {
            Seq::empty()
        });
        if waiting[0].0 == at && wanted > 0 {
            lemma_wake_leaves_others(rest, at, (wanted - 1) as nat);
            assert(waiting.filter(elsewhere) =~= rest.filter(elsewhere));
        } else {
            lemma_wake_leaves_others(rest, at, wanted);
            let kept = wake(rest, at, wanted).0;
            Seq::filter_distributes_over_add(seq![waiting[0]], kept, elsewhere);
        }
    }
}

/// Pushing onto a sequence adds to the set of what it holds.
proof fn lemma_push_to_set(tickets: Seq<u64>, ticket: u64)
    ensures
        tickets.push(ticket).to_set() == tickets.to_set().insert(ticket),
{
    assert forall|other: u64|
        tickets.push(ticket).to_set().contains(other) == tickets.to_set().insert(ticket).contains(
            other,
        ) by {
        if tickets.contains(other) {
            let i = choose|i: int| 0 <= i < tickets.len() && tickets[i] == other;
            assert(tickets.push(ticket)[i] == other);
        }
        assert(tickets.push(ticket)[tickets.len() as int] == ticket);
    }
    assert(tickets.push(ticket).to_set() =~= tickets.to_set().insert(ticket));
}

impl Parked {
    /// Parks a new ticket on an address, behind everyone already there.
    pub fn park(&mut self, at: usize) -> (ticket: u64)
        requires
            old(self).last_ticket < u64::MAX,
        ensures
            ticket == old(self).last_ticket + 1,
            final(self).last_ticket == ticket,
            final(self).waiting@ == old(self).waiting@.push((at, ticket)),
            final(self).woken@ == old(self).woken@,
    {
        self.last_ticket = self.last_ticket + 1;
        let ticket: u64 = self.last_ticket;
        self.waiting.push((at, ticket));
        ticket
    }

    /// Wakes up to `wanted` of those parked on an address, oldest first, and
    /// says how many it woke.
    pub fn notify(&mut self, at: usize, wanted: usize) -> (count: usize)
        ensures
            final(self).waiting@ == wake(old(self).waiting@, at, wanted as nat).0,
            final(self).woken@ == old(self).woken@.union(
                wake(old(self).waiting@, at, wanted as nat).1.to_set(),
            ),
            final(self).last_ticket == old(self).last_ticket,
            count == wake(old(self).waiting@, at, wanted as nat).1.len(),
    {
        let ghost all = self.waiting@;
        let ghost woken_before = self.woken@;
        let ghost mut woken: Seq<u64> = Seq::empty();
        let mut kept: Vec<(usize, u64)> = Vec::new();
        let mut count: usize = 0;
        let mut i: usize = 0;
        assert(all.skip(0) =~= all);
        assert(woken_before.union(woken.to_set()) =~= woken_before);
        proof {
            let (rest, more) = wake(all, at, wanted as nat);
            assert(kept@ + rest =~= rest);
            assert(woken + more =~= more);
        }
        while i < self.waiting.len()
            invariant
                self.waiting@ == all,
                i <= all.len(),
                count <= wanted,
                count == woken.len(),
                self.last_ticket == old(self).last_ticket,
                self.woken@ == woken_before.union(woken.to_set()),
                kept@ + wake(all.skip(i as int), at, (wanted - count) as nat).0 == wake(
                    all,
                    at,
                    wanted as nat,
                ).0,
                woken + wake(all.skip(i as int), at, (wanted - count) as nat).1 == wake(
                    all,
                    at,
                    wanted as nat,
                ).1,
            decreases all.len() - i,
        {
            let entry: (usize, u64) = self.waiting[i];
            let ghost left = all.skip(i as int);
            proof {
                assert(left[0] == entry);
                assert(left.drop_first() =~= all.skip(i + 1));
            }
            if entry.0 == at && count < wanted {
                let ghost more = wake(all.skip(i + 1), at, (wanted - count - 1) as nat).1;
                self.woken.insert(entry.1);
                proof {
                    assert(woken.push(entry.1) + more =~= woken + (seq![entry.1] + more));
                    lemma_push_to_set(woken, entry.1);
                    woken = woken.push(entry.1);
                    assert(self.woken@ =~= woken_before.union(woken.to_set()));
                }
                count = count + 1;
            } else {
                let ghost rest = wake(all.skip(i + 1), at, (wanted - count) as nat).0;
                assert(kept@.push(entry) + rest =~= kept@ + (seq![entry] + rest));
                kept.push(entry);
            }
            i = i + 1;
        }
        proof {
            let (rest, more) = wake(all.skip(i as int), at, (wanted - count) as nat);
            assert(kept@ + rest =~= kept@);
            assert(woken + more =~= woken);
        }
        self.waiting = kept;
        count
    }

    /// Whether a ticket has been notified, and forgets that it was.
    pub fn take_wake(&mut self, ticket: u64) -> (yes: bool)
        ensures
            yes == old(self).woken@.contains(ticket),
            final(self).woken@ == old(self).woken@.remove(ticket),
            final(self).waiting@ == old(self).waiting@,
            final(self).last_ticket == old(self).last_ticket,
    {
        self.woken.remove(&ticket)
    }

    /// Takes a ticket out of its queue, for a wait that ran out of time.
    pub fn give_up(&mut self, at: usize, ticket: u64)
        ensures
            final(self).waiting@ == old(self).waiting@.filter(
                |entry: (usize, u64)| !(entry.0 == at && entry.1 == ticket),
            ),
            final(self).woken@ == old(self).woken@,
            final(self).last_ticket == old(self).last_ticket,
    {
        let ghost all = self.waiting@;
        let ghost stays = |entry: (usize, u64)| !(entry.0 == at && entry.1 == ticket);
        let mut kept: Vec<(usize, u64)> = Vec::new();
        let mut i: usize = 0;
        reveal(Seq::filter);
        assert(all.take(0).filter(stays) =~= Seq::empty());
        while i < self.waiting.len()
            invariant
                self.waiting@ == all,
                i <= all.len(),
                stays == (|entry: (usize, u64)| !(entry.0 == at && entry.1 == ticket)),
                kept@ == all.take(i as int).filter(stays),
                self.woken@ == old(self).woken@,
                self.last_ticket == old(self).last_ticket,
            decreases all.len() - i,
        {
            let entry: (usize, u64) = self.waiting[i];
            proof {
                reveal(Seq::filter);
                assert(all.take(i + 1).drop_last() =~= all.take(i as int));
                assert(all.take(i + 1).last() == entry);
            }
            if !(entry.0 == at && entry.1 == ticket) {
                kept.push(entry);
            }
            i = i + 1;
        }
        assert(all.take(i as int) =~= all);
        self.waiting = kept;
    }

    /// How a parked wait goes on: with 0 once its ticket has been notified, with 2
    /// and out of its queue when its time is up, and otherwise not yet.
    ///
    /// Being notified counts even where the time is up too.
    pub fn go_on(&mut self, at: usize, ticket: u64, expired: bool) -> (answer: Option<i32>)
        ensures
            final(self).last_ticket == old(self).last_ticket,
            if old(self).woken@.contains(ticket) {
                &&& answer == Some(0i32)
                &&& final(self).woken@ == old(self).woken@.remove(ticket)
                &&& final(self).waiting@ == old(self).waiting@
            } else if expired {
                &&& answer == Some(2i32)
                &&& final(self).woken@ == old(self).woken@
                &&& final(self).waiting@ == old(self).waiting@.filter(
                    |entry: (usize, u64)| !(entry.0 == at && entry.1 == ticket),
                )
            } else {
                &&& answer is None
                &&& final(self).woken@ == old(self).woken@
                &&& final(self).waiting@ == old(self).waiting@
            },
    {
        let ghost woken = self.woken@;
        if self.take_wake(ticket) {
            return Some(0);
        }
        assert(self.woken@ =~= woken);
        if expired {
            self.give_up(at, ticket);
            return Some(2);
        }
        None
    }
}

} // verus!
