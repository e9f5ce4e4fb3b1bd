//! A memory several instances share, which is what a threaded module has.
//!
//! The state here is what the instances share: the committed bytes, how much was
//! reserved, who is parked, and what is watched. Each method is one indivisible
//! step on it, so whoever hands it to several threads takes one lock per step.

use vstd::prelude::*;
use crate::rt::access::{Access, PAGE_SIZE, effective, grown, pages_of};
use crate::rt::memory::{Hit, Memory, Rmw, WriteKind, rmw_result};
use crate::rt::parking::{Parked, Wait, wake};
use crate::rt::words::{le_bytes, splice};

verus! {

/// A memory several instances share.
///
/// The size is reserved up front and `grow` only publishes more of it: past the
/// reservation `grow` returns -1, which is an answer the spec allows and which
/// says exactly what happened.
#[derive(Debug, Clone)]
pub struct SharedMemory {
    /// The committed bytes, the declared maximum and the watchpoints.
    pub memory: Memory,
    /// How many pages were reserved.
    pub reserved: u32,
    /// How many grows were refused by the reservation rather than by the
    /// module's own declared maximum.
    pub refused: u32,
    /// Threads parked in `memory.atomic.wait`.
    pub parked: Parked,
}

/// Whether two runs of bytes are the same.
fn same_bytes(left: &Vec<u8>, right: &Vec<u8>) -> (same: bool)
    ensures
        same == (left@ == right@),
{
    if left.len() != right.len() {
        return false;
    }
    let mut i: usize = 0;
    while i < left.len()
        invariant
            left@.len() == right@.len(),
            i <= left@.len(),
            forall|j: int| 0 <= j < i ==> left@[j] == right@[j],
        decreases left@.len() - i,
    {
        if left[i] != right[i] {
            return false;
        }
        i = i + 1;
    }
    assert(left@ =~= right@);
    true
}

/// `atomic.fence`, which orders this thread's accesses against the others.
///
/// Calls `std::sync::atomic::fence` with sequentially consistent ordering. There
/// is no value for it to return and nothing of the memory's bytes that it
/// changes, so nothing is claimed of it.
#[verifier::external_body]
pub fn fence() {
    std::sync::atomic::fence(std::sync::atomic::Ordering::SeqCst);
}

impl SharedMemory {
    /// The committed pages never pass the reservation, and are whole.
    pub open spec fn wf(&self) -> bool {
        &&& self.memory.data@.len() == pages_of(self.memory.data@) * 65536
        &&& pages_of(self.memory.data@) <= self.reserved
    }

    /// What the module declared as the most pages, or what a 32-bit memory has.
    pub open spec fn declared(&self) -> nat {
        match self.memory.max_pages {
            Some(max) => max as nat,
            None => 65536,
        }
    }

    /// Nothing but the memory itself changed.
    pub open spec fn rest_kept(&self, before: &SharedMemory) -> bool {
        &&& self.reserved == before.reserved
        &&& self.refused == before.refused
        &&& self.parked == before.parked
    }

    /// A shared memory of `min_pages`, able to grow to `reserved_pages`.
    ///
    /// A reservation smaller than the initial size is a host mistake.
    pub fn new(min_pages: u32, max_pages: Option<u32>, reserved_pages: u32) -> (memory: Self)
        requires
            reserved_pages >= min_pages,
            reserved_pages * PAGE_SIZE <= usize::MAX,
        ensures
            memory.wf(),
            memory.memory.data@ == Seq::new(min_pages as nat * 65536, |i: int| 0u8),
            memory.memory.max_pages == max_pages,
            memory.memory.watch.ranges@ == Seq::<(u32, u32)>::empty(),
            memory.memory.watch.hits@ == Seq::<Hit>::empty(),
            !memory.memory.watch.stop,
            memory.reserved == reserved_pages,
            memory.refused == 0,
            memory.parked.waiting@ == Seq::<(usize, u64)>::empty(),
            memory.parked.woken@ == Set::<u64>::empty(),
            memory.parked.last_ticket == 0,
    {
        SharedMemory {
            memory: Memory::new(min_pages, max_pages),
            reserved: reserved_pages,
            refused: 0,
            parked: Parked::default(),
        }
    }

    /// How many pages were reserved, which is the ceiling `grow` can reach.
    pub fn reserved_pages(&self) -> (pages: u32)
        ensures
            pages == self.reserved,
    {
        self.reserved
    }

    /// How many grows this host refused that the module's own maximum allowed.
    ///
    /// A guest sees one `-1` and cannot tell "the module said this is as big
    /// as it gets" from "the host reserved less than that". The first is the
    /// program; the second is a setting.
    pub fn grows_refused_by_the_reservation(&self) -> (count: u32)
        ensures
            count == self.refused,
    {
        self.refused
    }

    /// `memory.size`.
    pub fn size(&self) -> (pages: i32)
        ensures
            pages == pages_of(self.memory.data@) as i32,
    {
        self.memory.size()
    }

    /// `memory.grow`, within the reservation.
    pub fn grow(&mut self, delta_pages: u32) -> (result: i32)
        requires
            pages_of(old(self).memory.data@) + delta_pages <= old(self).page_limit() ==> (pages_of(
                old(self).memory.data@,
            ) + delta_pages) * 65536 <= usize::MAX,
        ensures
            old(self).wf() ==> final(self).wf(),
            final(self).memory.only_data_changed(&old(self).memory),
            final(self).reserved == old(self).reserved,
            final(self).parked == old(self).parked,
            ({
                let pages = pages_of(old(self).memory.data@);
                if pages + delta_pages <= old(self).page_limit() {
                    &&& result == pages as i32
                    &&& final(self).memory.data@ == grown(
                        old(self).memory.data@,
                        (pages + delta_pages) as nat,
                    )
                    &&& final(self).refused == old(self).refused
                } else {
                    &&& result == -1
                    &&& final(self).memory.data@ == old(self).memory.data@
                    // Past what the module declared is the module's own limit;
                    // past the reservation is this host's, and is counted.
                    &&& final(self).refused == if pages + delta_pages <= old(self).declared() {
                        old(self).refused.wrapping_add(1)
                    } else {
                        old(self).refused
                    }
                }
            }),
    {
        let declared: u32 = match self.memory.max_pages {
            Some(max) => max,
            None => 65536,
        };
        let old_pages: usize = self.memory.data.len() / PAGE_SIZE;
        let new_pages: u128 = old_pages as u128 + delta_pages as u128;
        if new_pages > declared as u128 || new_pages > self.reserved as u128 {
            if new_pages <= declared as u128 {
                self.refused = self.refused.wrapping_add(1);
            }
            return -1;
        }
        let ghost before = self.memory.data@;
        self.memory.data.resize(new_pages as usize * PAGE_SIZE, 0);
        proof {
            if new_pages * 65536 > before.len() {
                assert forall|i: int| 0 <= i < before.len() implies self.memory.data@[i]
                    == before[i] by {
                    assert(self.memory.data@.subrange(0, before.len() as int)[i] == before[i]);
                }
            }
            assert(self.memory.data@ =~= grown(before, new_pages as nat));
        }
        old_pages as i32
    }

    /// The committed bytes, copied out. For comparing one run against another.
    pub fn snapshot(&self) -> (bytes: Vec<u8>)
        ensures
            bytes@ == self.memory.data@,
    {
        self.memory.snapshot()
    }

    /// Whether `size` bytes at `addr + offset` lie inside what is committed.
    pub fn in_bounds(&self, addr: i32, offset: u64, size: u64) -> (inside: bool)
        ensures
            inside == self.memory.reaches(addr, offset, size as int),
    {
        self.memory.in_bounds(addr, offset, size)
    }

    /// `i32.load8_u`
    pub fn load8_u(&self, addr: i32, offset: u64) -> (value: i32)
        requires
            self.memory.reaches(addr, offset, 1),
        ensures
            value == self.memory.data@[effective(addr, offset)] as i32,
    {
        self.memory.load8_u(addr, offset)
    }

    /// `i32.load8_s`
    pub fn load8_s(&self, addr: i32, offset: u64) -> (value: i32)
        requires
            self.memory.reaches(addr, offset, 1),
        ensures
            value == (self.memory.data@[effective(addr, offset)] as i8) as i32,
    {
        self.memory.load8_s(addr, offset)
    }

    /// `i32.load16_u`
    pub fn load16_u(&self, addr: i32, offset: u64) -> (value: i32)
        requires
            self.memory.reaches(addr, offset, 2),
        ensures
            value == self.memory.word(addr, offset, 2),
    {
        self.memory.load16_u(addr, offset)
    }

    /// `i32.load16_s`
    pub fn load16_s(&self, addr: i32, offset: u64) -> (value: i32)
        requires
            self.memory.reaches(addr, offset, 2),
        ensures
            value == (self.memory.word(addr, offset, 2) as u16 as i16) as i32,
    {
        self.memory.load16_s(addr, offset)
    }

    /// `i32.load`
    pub fn load32(&self, addr: i32, offset: u64) -> (value: i32)
        requires
            self.memory.reaches(addr, offset, 4),
        ensures
            value == (self.memory.word(addr, offset, 4) as u32) as i32,
    {
        self.memory.load32(addr, offset)
    }

    /// `i64.load`
    pub fn load64(&self, addr: i32, offset: u64) -> (value: i64)
        requires
            self.memory.reaches(addr, offset, 8),
        ensures
            value == (self.memory.word(addr, offset, 8) as u64) as i64,
    {
        self.memory.load64(addr, offset)
    }

    /// `i64.load8_s`
    pub fn load8_s_i64(&self, addr: i32, offset: u64) -> (value: i64)
        requires
            self.memory.reaches(addr, offset, 1),
        ensures
            value == (self.memory.data@[effective(addr, offset)] as i8) as i64,
    {
        self.memory.load8_s_i64(addr, offset)
    }

    /// `i64.load8_u`
    pub fn load8_u_i64(&self, addr: i32, offset: u64) -> (value: i64)
        requires
            self.memory.reaches(addr, offset, 1),
        ensures
            value == self.memory.data@[effective(addr, offset)] as i64,
    {
        self.memory.load8_u_i64(addr, offset)
    }

    /// `i64.load16_s`
    pub fn load16_s_i64(&self, addr: i32, offset: u64) -> (value: i64)
        requires
            self.memory.reaches(addr, offset, 2),
        ensures
            value == (self.memory.word(addr, offset, 2) as u16 as i16) as i64,
    {
        self.memory.load16_s_i64(addr, offset)
    }

    /// `i64.load16_u`
    pub fn load16_u_i64(&self, addr: i32, offset: u64) -> (value: i64)
        requires
            self.memory.reaches(addr, offset, 2),
        ensures
            value == self.memory.word(addr, offset, 2),
    {
        self.memory.load16_u_i64(addr, offset)
    }

    /// `i64.load32_s`
    pub fn load32_s_i64(&self, addr: i32, offset: u64) -> (value: i64)
        requires
            self.memory.reaches(addr, offset, 4),
        ensures
            value == (self.memory.word(addr, offset, 4) as u32 as i32) as i64,
    {
        self.memory.load32_s_i64(addr, offset)
    }

    /// `i64.load32_u`
    pub fn load32_u_i64(&self, addr: i32, offset: u64) -> (value: i64)
        requires
            self.memory.reaches(addr, offset, 4),
        ensures
            value == self.memory.word(addr, offset, 4),
    {
        self.memory.load32_u_i64(addr, offset)
    }

    /// `i32.store8` / `i64.store8`
    pub fn store8(&mut self, addr: i32, offset: u64, value: i64)
        requires
            old(self).memory.reaches(addr, offset, 1),
        ensures
            final(self).memory.data@ == old(self).memory.stored(addr, offset, 1, value),
            final(self).memory.only_data_changed(&old(self).memory),
            final(self).rest_kept(old(self)),
    {
        self.memory.store8(addr, offset, value);
    }

    /// `i32.store16` / `i64.store16`
    pub fn store16(&mut self, addr: i32, offset: u64, value: i64)
        requires
            old(self).memory.reaches(addr, offset, 2),
        ensures
            final(self).memory.data@ == old(self).memory.stored(addr, offset, 2, value),
            final(self).memory.only_data_changed(&old(self).memory),
            final(self).rest_kept(old(self)),
    {
        self.memory.store16(addr, offset, value);
    }

    /// `i32.store` / `i64.store32`
    pub fn store32(&mut self, addr: i32, offset: u64, value: i64)
        requires
            old(self).memory.reaches(addr, offset, 4),
        ensures
            final(self).memory.data@ == old(self).memory.stored(addr, offset, 4, value),
            final(self).memory.only_data_changed(&old(self).memory),
            final(self).rest_kept(old(self)),
    {
        self.memory.store32(addr, offset, value);
    }

    /// `i64.store`
    pub fn store64(&mut self, addr: i32, offset: u64, value: i64)
        requires
            old(self).memory.reaches(addr, offset, 8),
        ensures
            final(self).memory.data@ == old(self).memory.stored(addr, offset, 8, value),
            final(self).memory.only_data_changed(&old(self).memory),
            final(self).rest_kept(old(self)),
    {
        self.memory.store64(addr, offset, value);
    }

    /// `memory.fill`
    pub fn fill(&mut self, addr: i32, value: i32, len: i32)
        requires
            old(self).memory.reaches(addr, 0, (len as u32) as int),
        ensures
            final(self).memory.data@ == old(self).memory.filled(addr, value, len),
            final(self).memory.only_data_changed(&old(self).memory),
            final(self).rest_kept(old(self)),
    {
        self.memory.fill(addr, value, len);
    }

    /// `memory.copy`, which moves as `memmove` does.
    pub fn copy(&mut self, dst: i32, src: i32, len: i32)
        requires
            old(self).memory.reaches(dst, 0, (len as u32) as int),
            old(self).memory.reaches(src, 0, (len as u32) as int),
        ensures
            final(self).memory.data@ == old(self).memory.copied(dst, src, len),
            final(self).memory.only_data_changed(&old(self).memory),
            final(self).rest_kept(old(self)),
    {
        self.memory.copy(dst, src, len);
    }

    /// `memory.init`
    pub fn init(&mut self, dst: i32, segment: &[u8], src: i32, len: i32)
        requires
            (src as u32) + (len as u32) <= segment@.len(),
            old(self).memory.reaches(dst, 0, (len as u32) as int),
        ensures
            final(self).memory.data@ == old(self).memory.initialised(dst, segment@, src, len),
            final(self).memory.only_data_changed(&old(self).memory),
            final(self).rest_kept(old(self)),
    {
        self.memory.init(dst, segment, src, len);
    }

    /// Reads `bytes` bytes as one atomic access.
    pub fn atomic_load(&self, addr: i32, offset: u64, bytes: u32) -> (value: i64)
        requires
            self.memory.atomic_ok(addr, offset, bytes),
        ensures
            value == self.memory.loaded(addr, offset, bytes),
    {
        self.memory.atomic_load(addr, offset, bytes)
    }

    /// Writes the low `bytes` bytes as one atomic access.
    pub fn atomic_store(&mut self, addr: i32, offset: u64, bytes: u32, value: i64)
        requires
            old(self).memory.atomic_ok(addr, offset, bytes),
        ensures
            final(self).memory.data@ == old(self).memory.stored(addr, offset, bytes as nat, value),
            final(self).memory.only_data_changed(&old(self).memory),
            final(self).rest_kept(old(self)),
    {
        self.memory.atomic_store(addr, offset, bytes, value);
    }

    /// A read-modify-write, atomic against every other thread.
    pub fn atomic_rmw(&mut self, addr: i32, offset: u64, bytes: u32, op: Rmw, value: i64) -> (was:
        i64)
        requires
            old(self).memory.atomic_ok(addr, offset, bytes),
        ensures
            was == old(self).memory.loaded(addr, offset, bytes),
            final(self).memory.data@ == splice(
                old(self).memory.data@,
                effective(addr, offset),
                le_bytes(
                    rmw_result(
                        op,
                        old(self).memory.word(addr, offset, bytes as int) as u64,
                        value as u64,
                    ) as nat,
                    bytes as nat,
                ),
            ),
            final(self).memory.only_data_changed(&old(self).memory),
            final(self).rest_kept(old(self)),
    {
        self.memory.atomic_rmw(addr, offset, bytes, op, value)
    }

    /// Compare-and-exchange, atomic against every other thread.
    pub fn atomic_cmpxchg(
        &mut self,
        addr: i32,
        offset: u64,
        bytes: u32,
        expected: i64,
        replacement: i64,
    ) -> (was: i64)
        requires
            old(self).memory.atomic_ok(addr, offset, bytes),
        ensures
            was == old(self).memory.loaded(addr, offset, bytes),
            final(self).memory.data@ == old(self).memory.after_exchange(
                addr,
                offset,
                bytes,
                expected,
                replacement,
            ),
            final(self).memory.only_data_changed(&old(self).memory),
            final(self).rest_kept(old(self)),
    {
        self.memory.atomic_cmpxchg(addr, offset, bytes, expected, replacement)
    }

    /// How many waiters a notify count asks for: a negative one asks for all.
    pub open spec fn wanted(count: i32) -> nat {
        if count < 0 {
            usize::MAX as nat
        } else {
            count as nat
        }
    }

    /// `memory.atomic.notify`: wakes up to `count` threads parked here, and
    /// returns how many it woke.
    ///
    /// The count is the instruction's, and it decides the program: three
    /// threads parked on a lock and `notify(addr, 1)` means one of them
    /// proceeds. Waking all three and reporting three is a different program.
    pub fn atomic_notify_count(&mut self, addr: i32, offset: u64, count: i32) -> (woken: i32)
        requires
            old(self).memory.atomic_ok(addr, offset, 4),
        ensures
            ({
                let after = wake(
                    old(self).parked.waiting@,
                    effective(addr, offset) as usize,
                    Self::wanted(count),
                );
                &&& woken == after.1.len() as i32
                &&& final(self).parked.waiting@ == after.0
                &&& final(self).parked.woken@ == old(self).parked.woken@.union(after.1.to_set())
            }),
            final(self).parked.last_ticket == old(self).parked.last_ticket,
            final(self).memory == old(self).memory,
            final(self).reserved == old(self).reserved,
            final(self).refused == old(self).refused,
    {
        let len: usize = self.memory.data.len();
        let at: usize = ((addr as u32) as u64 + offset) as usize;
        let wanted: usize = if count < 0 {
            usize::MAX
        } else {
            count as usize
        };
        self.parked.notify(at, wanted) as i32
    }

    /// `memory.atomic.notify` with no count, which wakes everybody.
    pub fn atomic_notify(&mut self, addr: i32, offset: u64) -> (woken: i32)
        requires
            old(self).memory.atomic_ok(addr, offset, 4),
        ensures
            ({
                let after = wake(
                    old(self).parked.waiting@,
                    effective(addr, offset) as usize,
                    i32::MAX as nat,
                );
                &&& woken == after.1.len() as i32
                &&& final(self).parked.waiting@ == after.0
                &&& final(self).parked.woken@ == old(self).parked.woken@.union(after.1.to_set())
            }),
            final(self).parked.last_ticket == old(self).parked.last_ticket,
            final(self).memory == old(self).memory,
            final(self).reserved == old(self).reserved,
            final(self).refused == old(self).refused,
    {
        self.atomic_notify_count(addr, offset, i32::MAX)
    }

    /// `memory.atomic.wait32` / `wait64`, where it does not have to wait: 1 if
    /// the value had already changed, and 2 on a timeout of zero.
    pub fn atomic_wait(&self, addr: i32, offset: u64, bytes: u32, expected: i64, timeout: i64) -> (answer:
        i32)
        requires
            self.memory.atomic_ok(addr, offset, bytes),
            self.memory.loaded(addr, offset, bytes) != expected || timeout == 0,
        ensures
            answer == if self.memory.loaded(addr, offset, bytes) != expected {
                1int
            } else {
                2
            },
    {
        self.memory.atomic_wait(addr, offset, bytes, expected, timeout)
    }

    /// `memory.atomic.wait32` / `wait64`, up to where it has to wait.
    ///
    /// The comparison and the parking are one step, so a notify that lands
    /// between the two cannot be lost. With nobody else holding the memory, a
    /// wait without a timeout is not slow but unsatisfiable. Once parked, the
    /// wait goes on with [`Self::go_on_waiting`] until there is an answer.
    pub fn begin_wait(
        &mut self,
        addr: i32,
        offset: u64,
        bytes: u32,
        expected: i64,
        timeout: i64,
        alone: bool,
    ) -> (outcome: Wait)
        requires
            old(self).memory.atomic_ok(addr, offset, bytes),
            old(self).parked.last_ticket < u64::MAX,
        ensures
            ({
                if old(self).memory.loaded(addr, offset, bytes) != expected {
                    &&& outcome == Wait::Answered(1)
                    &&& *final(self) == *old(self)
                } else if timeout == 0 {
                    &&& outcome == Wait::Answered(2)
                    &&& *final(self) == *old(self)
                } else if timeout < 0 && alone {
                    &&& outcome == Wait::Unanswerable
                    &&& *final(self) == *old(self)
                } else {
                    let ticket = (old(self).parked.last_ticket + 1) as u64;
                    &&& outcome == Wait::Parked(ticket)
                    &&& final(self).parked.waiting@ == old(self).parked.waiting@.push(
                        (effective(addr, offset) as usize, ticket),
                    )
                    &&& final(self).parked.woken@ == old(self).parked.woken@
                    &&& final(self).parked.last_ticket == ticket
                    &&& final(self).memory == old(self).memory
                    &&& final(self).reserved == old(self).reserved
                    &&& final(self).refused == old(self).refused
                }
            }),
    {
        if self.memory.atomic_load(addr, offset, bytes) != expected {
            return Wait::Answered(1);
        }
        if timeout == 0 {
            return Wait::Answered(2);
        }
        if timeout < 0 && alone {
            return Wait::Unanswerable;
        }
        let len: usize = self.memory.data.len();
        let at: usize = ((addr as u32) as u64 + offset) as usize;
        Wait::Parked(self.parked.park(at))
    }

    /// How a wait that [`Self::begin_wait`] parked goes on: the answer, once there is
    /// one.
    pub fn go_on_waiting(&mut self, addr: i32, offset: u64, ticket: u64, expired: bool) -> (answer:
        Option<i32>)
        requires
            old(self).memory.atomic_ok(addr, offset, 1),
        ensures
            final(self).memory == old(self).memory,
            final(self).reserved == old(self).reserved,
            final(self).refused == old(self).refused,
            final(self).parked.last_ticket == old(self).parked.last_ticket,
            if old(self).parked.woken@.contains(ticket) {
                &&& answer == Some(0i32)
                &&& final(self).parked.woken@ == old(self).parked.woken@.remove(ticket)
                &&& final(self).parked.waiting@ == old(self).parked.waiting@
            } else if expired {
                &&& answer == Some(2i32)
                &&& final(self).parked.woken@ == old(self).parked.woken@
                &&& final(self).parked.waiting@ == old(self).parked.waiting@.filter(
                    |entry: (usize, u64)|
                        !(entry.0 == effective(addr, offset) as usize && entry.1 == ticket),
                )
            } else {
                &&& answer is None
                &&& final(self).parked.woken@ == old(self).parked.woken@
                &&& final(self).parked.waiting@ == old(self).parked.waiting@
            },
    {
        let len: usize = self.memory.data.len();
        let at: usize = ((addr as u32) as u64 + offset) as usize;
        self.parked.go_on(at, ticket, expired)
    }

    /// Watches `bytes` bytes from `address`, in every thread.
    pub fn watch(&mut self, address: i32, bytes: i32)
        ensures
            final(self).memory.data@ == old(self).memory.data@,
            final(self).memory.max_pages == old(self).memory.max_pages,
            final(self).memory.watch.ranges@ == old(self).memory.watch.ranges@.push(
                (address as u32, (address as u32).wrapping_add(bytes as u32)),
            ),
            final(self).memory.watch.hits@ == old(self).memory.watch.hits@,
            final(self).memory.watch.stop == old(self).memory.watch.stop,
            final(self).rest_kept(old(self)),
    {
        self.memory.watch(address, bytes);
    }

    /// Stop at the first watched write rather than recording it.
    pub fn stop_on_hit(&mut self, stop: bool)
        ensures
            final(self).memory.data@ == old(self).memory.data@,
            final(self).memory.max_pages == old(self).memory.max_pages,
            final(self).memory.watch.ranges == old(self).memory.watch.ranges,
            final(self).memory.watch.hits == old(self).memory.watch.hits,
            final(self).memory.watch.stop == stop,
            final(self).rest_kept(old(self)),
    {
        self.memory.watch.stop = stop;
    }

    /// The writes to watched addresses so far, from every thread.
    pub fn hits(&self) -> (hits: Vec<Hit>)
        ensures
            hits@ == self.memory.watch.hits@,
    {
        vstd::slice::slice_to_vec(self.memory.watch.hits.as_slice())
    }

    /// `i32.store8` / `i64.store8`, reporting to any watchpoint.
    pub fn store8_at(&mut self, site: u32, at: u32, addr: i32, offset: u64, value: i64)
        requires
            old(self).memory.reaches(addr, offset, 1),
            !old(self).memory.stops_at(addr, offset, 1),
        ensures
            final(self).memory.data@ == old(self).memory.stored(addr, offset, 1, value),
            final(self).memory.noted(
                &old(self).memory,
                site,
                at,
                addr,
                offset,
                1,
                WriteKind::Store,
            ),
            final(self).rest_kept(old(self)),
    {
        self.memory.store8_at(site, at, addr, offset, value);
    }

    /// `i32.store16` / `i64.store16`, reporting to any watchpoint.
    pub fn store16_at(&mut self, site: u32, at: u32, addr: i32, offset: u64, value: i64)
        requires
            old(self).memory.reaches(addr, offset, 2),
            !old(self).memory.stops_at(addr, offset, 2),
        ensures
            final(self).memory.data@ == old(self).memory.stored(addr, offset, 2, value),
            final(self).memory.noted(
                &old(self).memory,
                site,
                at,
                addr,
                offset,
                2,
                WriteKind::Store,
            ),
            final(self).rest_kept(old(self)),
    {
        self.memory.store16_at(site, at, addr, offset, value);
    }

    /// `i32.store` / `i64.store32`, reporting to any watchpoint.
    pub fn store32_at(&mut self, site: u32, at: u32, addr: i32, offset: u64, value: i64)
        requires
            old(self).memory.reaches(addr, offset, 4),
            !old(self).memory.stops_at(addr, offset, 4),
        ensures
            final(self).memory.data@ == old(self).memory.stored(addr, offset, 4, value),
            final(self).memory.noted(
                &old(self).memory,
                site,
                at,
                addr,
                offset,
                4,
                WriteKind::Store,
            ),
            final(self).rest_kept(old(self)),
    {
        self.memory.store32_at(site, at, addr, offset, value);
    }

    /// `i64.store`, reporting to any watchpoint.
    pub fn store64_at(&mut self, site: u32, at: u32, addr: i32, offset: u64, value: i64)
        requires
            old(self).memory.reaches(addr, offset, 8),
            !old(self).memory.stops_at(addr, offset, 8),
        ensures
            final(self).memory.data@ == old(self).memory.stored(addr, offset, 8, value),
            final(self).memory.noted(
                &old(self).memory,
                site,
                at,
                addr,
                offset,
                8,
                WriteKind::Store,
            ),
            final(self).rest_kept(old(self)),
    {
        self.memory.store64_at(site, at, addr, offset, value);
    }

    /// `memory.fill`, reporting to any watchpoint.
    pub fn fill_at(&mut self, site: u32, at: u32, addr: i32, value: i32, len: i32)
        requires
            old(self).memory.reaches(addr, 0, (len as u32) as int),
            !old(self).memory.stops_at(addr, 0, (len as u32) as int),
        ensures
            final(self).memory.data@ == old(self).memory.filled(addr, value, len),
            final(self).memory.noted(
                &old(self).memory,
                site,
                at,
                addr,
                0,
                (len as u32) as u64,
                WriteKind::Fill,
            ),
            final(self).rest_kept(old(self)),
    {
        self.memory.fill_at(site, at, addr, value, len);
    }

    /// `memory.copy`, reporting to any watchpoint on the destination.
    pub fn copy_at(&mut self, site: u32, at: u32, dst: i32, src: i32, len: i32)
        requires
            old(self).memory.reaches(dst, 0, (len as u32) as int),
            old(self).memory.reaches(src, 0, (len as u32) as int),
            !old(self).memory.stops_at(dst, 0, (len as u32) as int),
        ensures
            final(self).memory.data@ == old(self).memory.copied(dst, src, len),
            final(self).memory.noted(
                &old(self).memory,
                site,
                at,
                dst,
                0,
                (len as u32) as u64,
                WriteKind::Copy,
            ),
            final(self).rest_kept(old(self)),
    {
        self.memory.copy_at(site, at, dst, src, len);
    }

    /// `memory.init`, reporting to any watchpoint on the destination.
    pub fn init_at(&mut self, site: u32, at: u32, dst: i32, segment: &[u8], src: i32, len: i32)
        requires
            (src as u32) + (len as u32) <= segment@.len(),
            old(self).memory.reaches(dst, 0, (len as u32) as int),
            !old(self).memory.stops_at(dst, 0, (len as u32) as int),
        ensures
            final(self).memory.data@ == old(self).memory.initialised(dst, segment@, src, len),
            final(self).memory.noted(
                &old(self).memory,
                site,
                at,
                dst,
                0,
                (len as u32) as u64,
                WriteKind::Init,
            ),
            final(self).rest_kept(old(self)),
    {
        self.memory.init_at(site, at, dst, segment, src, len);
    }

    /// An atomic store, reporting to any watchpoint.
    pub fn atomic_store_at(
        &mut self,
        site: u32,
        at: u32,
        addr: i32,
        offset: u64,
        bytes: u32,
        value: i64,
    )
        requires
            old(self).memory.atomic_ok(addr, offset, bytes),
            !old(self).memory.atomic_stops(addr, offset, bytes),
        ensures
            final(self).memory.data@ == old(self).memory.stored(addr, offset, bytes as nat, value),
            final(self).memory.atomic_noted(&old(self).memory, site, at, addr, offset, bytes),
            final(self).rest_kept(old(self)),
    {
        self.memory.atomic_store_at(site, at, addr, offset, bytes, value);
    }

    /// An atomic read-modify-write, reporting to any watchpoint.
    pub fn atomic_rmw_at(
        &mut self,
        site: u32,
        at: u32,
        addr: i32,
        offset: u64,
        bytes: u32,
        op: Rmw,
        value: i64,
    ) -> (was: i64)
        requires
            old(self).memory.atomic_ok(addr, offset, bytes),
            !old(self).memory.atomic_stops(addr, offset, bytes),
        ensures
            was == old(self).memory.loaded(addr, offset, bytes),
            final(self).memory.data@ == splice(
                old(self).memory.data@,
                effective(addr, offset),
                le_bytes(
                    rmw_result(
                        op,
                        old(self).memory.word(addr, offset, bytes as int) as u64,
                        value as u64,
                    ) as nat,
                    bytes as nat,
                ),
            ),
            final(self).memory.atomic_noted(&old(self).memory, site, at, addr, offset, bytes),
            final(self).rest_kept(old(self)),
    {
        self.memory.atomic_rmw_at(site, at, addr, offset, bytes, op, value)
    }

    /// An atomic compare-and-exchange, reporting to any watchpoint whether or not
    /// the exchange took.
    pub fn atomic_cmpxchg_at(
        &mut self,
        site: u32,
        at: u32,
        addr: i32,
        offset: u64,
        bytes: u32,
        expected: i64,
        replacement: i64,
    ) -> (was: i64)
        requires
            old(self).memory.atomic_ok(addr, offset, bytes),
            !old(self).memory.atomic_stops(addr, offset, bytes),
        ensures
            was == old(self).memory.loaded(addr, offset, bytes),
            final(self).memory.data@ == old(self).memory.after_exchange(
                addr,
                offset,
                bytes,
                expected,
                replacement,
            ),
            final(self).memory.atomic_noted(&old(self).memory, site, at, addr, offset, bytes),
            final(self).rest_kept(old(self)),
    {
        let was: i64 = self.memory.atomic_cmpxchg(addr, offset, bytes, expected, replacement);
        self.memory.note_atomic(site, at, addr, offset, bytes);
        was
    }
}

impl Access for SharedMemory {
    open spec fn contents(&self) -> Seq<u8> {
        self.memory.data@
    }

    /// The reservation is a ceiling as real as the declared maximum.
    open spec fn page_limit(&self) -> nat {
        if self.declared() < self.reserved {
            self.declared()
        } else {
            self.reserved as nat
        }
    }

    open spec fn declared_max(&self) -> Option<u32> {
        Some(self.page_limit() as u32)
    }

    fn byte_at(&self, at: usize) -> (byte: u8) {
        self.memory.data[at]
    }

    fn set_byte_at(&mut self, at: usize, value: u8) {
        self.memory.data.set(at, value);
    }

    fn byte_len(&self) -> (len: usize) {
        self.memory.data.len()
    }

    fn grow_pages(&mut self, delta_pages: u32) -> (result: i32) {
        self.grow(delta_pages)
    }

    fn declared_max_pages(&self) -> (max: Option<u32>) {
        let declared: u32 = match self.memory.max_pages {
            Some(max) => max,
            None => 65536,
        };
        if declared < self.reserved {
            Some(declared)
        } else {
            Some(self.reserved)
        }
    }
}

impl PartialEq for SharedMemory {
    fn eq(&self, other: &Self) -> (same: bool) {
        same_bytes(&self.memory.data, &other.memory.data)
    }
}

impl vstd::std_specs::cmp::PartialEqSpecImpl for SharedMemory {
    open spec fn obeys_eq_spec() -> bool {
        true
    }

    open spec fn eq_spec(&self, other: &Self) -> bool {
        self.memory.data@ == other.memory.data@
    }
}

} // verus!
