//! A linear memory one instance owns, and the watchpoints on it.

use vstd::prelude::*;
use crate::rt::access::{Access, PAGE_SIZE, aligned, effective, fits, grown, pages_of};
use crate::rt::words::{le_bytes, le_value, pow256, read_le, splice, write_le};
use crate::rt::words::{lemma_pow256_values, lemma_le_value_bound};

verus! {

/// One write to a watched address.
#[derive(Debug, Clone, Copy, PartialEq, Eq, Structural)]
pub struct Hit {
    /// The function that did it, by index.
    pub site: u32,
    /// Where the instruction that did it sits in the wasm file.
    pub at: u32,
    /// The address written, after the static offset was added.
    pub address: i32,
    /// How many bytes it wrote.
    pub bytes: u32,
    /// Which write it was: `memory.fill` and a plain store look alike in a
    /// hit list otherwise, and a `memset` is the usual answer to "who zeroed
    /// this".
    pub kind: WriteKind,
}

/// What kind of write a [`Hit`] records.
#[derive(Debug, Clone, Copy, PartialEq, Eq, Structural)]
pub enum WriteKind {
    /// An `i32.store`, `f64.store`, and so on.
    Store,
    /// `memory.fill`, which is what a `memset` compiles to.
    Fill,
    /// `memory.copy`: a `memcpy` or `memmove`.
    Copy,
    /// `memory.init`, placing a data segment.
    Init,
    /// An atomic store or read-modify-write.
    Atomic,
}

/// Addresses to report writes to.
///
/// Set a range, run, and every write to it is recorded with the function that
/// did it; set `stop` and whoever drives the guest stops at the first one.
#[derive(Debug, Clone, PartialEq, Eq)]
pub struct Watchpoints {
    /// Half-open `[from, to)` ranges, compared as unsigned addresses.
    pub ranges: Vec<(u32, u32)>,
    /// Every write that landed in one, in the order they happened.
    pub hits: Vec<Hit>,
    /// Stop at the first hit rather than recording and carrying on.
    pub stop: bool,
}

impl Default for Watchpoints {
    fn default() -> (watch: Self)
        ensures
            watch.ranges@ == Seq::<(u32, u32)>::empty(),
            watch.hits@ == Seq::<Hit>::empty(),
            !watch.stop,
    {
        Watchpoints { ranges: Vec::new(), hits: Vec::new(), stop: false }
    }
}

/// Whether a write of the bytes from `start` to `end` writes one of the bytes from
/// `range.0` to `range.1`.
pub open spec fn overlaps(range: (u32, u32), start: int, end: int) -> bool {
    start < end && range.0 < range.1 && start < range.1 && end > range.0
}

/// Whether a write of the bytes from `start` to `end` touches a watched range: some
/// byte is both written and watched. A write of no bytes touches nothing.
pub open spec fn touches(ranges: Seq<(u32, u32)>, start: int, end: int) -> bool {
    exists|i: int| 0 <= i < ranges.len() && overlaps(#[trigger] ranges[i], start, end)
}

/// The entry a write leaves in the list of hits.
pub open spec fn hit_of(
    site: u32,
    at: u32,
    addr: i32,
    offset: u64,
    bytes: u64,
    kind: WriteKind,
) -> Hit {
    Hit {
        site,
        at,
        address: (effective(addr, offset) as u32) as i32,
        bytes: bytes as u32,
        kind,
    }
}

/// The hits after a write: one more where it touched a watched range.
pub open spec fn hits_after(
    ranges: Seq<(u32, u32)>,
    hits: Seq<Hit>,
    site: u32,
    at: u32,
    addr: i32,
    offset: u64,
    bytes: u64,
    kind: WriteKind,
) -> Seq<Hit> {
    if touches(ranges, effective(addr, offset), effective(addr, offset) + bytes) {
        hits.push(hit_of(site, at, addr, offset, bytes, kind))
    } else {
        hits
    }
}

impl Watchpoints {
    /// Adds `bytes` bytes from `address` to what is watched.
    pub fn add_range(&mut self, address: i32, bytes: i32)
        ensures
            final(self).ranges@ == old(self).ranges@.push(
                (address as u32, (address as u32).wrapping_add(bytes as u32)),
            ),
            final(self).hits@ == old(self).hits@,
            final(self).stop == old(self).stop,
    {
        let from: u32 = address as u32;
        self.ranges.push((from, from.wrapping_add(bytes as u32)));
    }

    /// Whether a write of `bytes` bytes at `addr + offset` is watched.
    pub fn watches(&self, addr: i32, offset: u64, bytes: u64) -> (watched: bool)
        requires
            effective(addr, offset) + bytes <= u64::MAX,
        ensures
            watched == touches(
                self.ranges@,
                effective(addr, offset),
                effective(addr, offset) + bytes,
            ),
    {
        let start: u64 = (addr as u32) as u64 + offset;
        let end: u64 = start + bytes;
        let mut i: usize = 0;
        while i < self.ranges.len()
            invariant
                i <= self.ranges@.len(),
                start == effective(addr, offset),
                end == start + bytes,
                forall|j: int|
                    0 <= j < i ==> !overlaps(#[trigger] self.ranges@[j], start as int, end as int),
            decreases self.ranges@.len() - i,
        {
            let range: (u32, u32) = self.ranges[i];
            if start < end && range.0 < range.1 && start < range.1 as u64 && end > range.0 as u64 {
                assert(overlaps(self.ranges@[i as int], start as int, end as int));
                return true;
            }
            i = i + 1;
        }
        false
    }

    /// Records a write that has already happened, if anyone is watching it.
    pub fn note(&mut self, site: u32, at: u32, addr: i32, offset: u64, bytes: u64, kind: WriteKind)
        requires
            effective(addr, offset) + bytes <= u64::MAX,
        ensures
            final(self).ranges@ == old(self).ranges@,
            final(self).stop == old(self).stop,
            final(self).hits@ == hits_after(
                old(self).ranges@,
                old(self).hits@,
                site,
                at,
                addr,
                offset,
                bytes,
                kind,
            ),
    {
        if self.watches(addr, offset, bytes) {
            let start: u64 = (addr as u32) as u64 + offset;
            self.hits.push(
                Hit { site, at, address: (start as u32) as i32, bytes: bytes as u32, kind },
            );
        }
    }
}

/// A wasm linear memory: a byte vector, bounds-checked on every access.
#[derive(Debug, Clone, PartialEq, Eq)]
pub struct Memory {
    /// The raw bytes. Public because generated code reads and writes it, and
    /// because a differential harness compares it against an engine's.
    pub data: Vec<u8>,
    /// Page limit from the module's memory type, if it declared one.
    pub max_pages: Option<u32>,
    /// Where writes are being watched. Empty unless a host asks.
    pub watch: Watchpoints,
}

impl Default for Memory {
    fn default() -> (memory: Self)
        ensures
            memory.data@ == Seq::<u8>::empty(),
            memory.max_pages is None,
            memory.watch.ranges@ == Seq::<(u32, u32)>::empty(),
            memory.watch.hits@ == Seq::<Hit>::empty(),
            !memory.watch.stop,
    {
        Memory { data: Vec::new(), max_pages: None, watch: Watchpoints::default() }
    }
}

/// Which read-modify-write an atomic performs.
#[derive(Debug, Clone, Copy, PartialEq, Eq, Structural)]
pub enum Rmw {
    /// `add`
    Add,
    /// `sub`
    Sub,
    /// `and`
    And,
    /// `or`
    Or,
    /// `xor`
    Xor,
    /// `xchg`: the old value out, the new one in.
    Xchg,
}

/// What a read-modify-write leaves behind, before it is cut to the access width.
pub open spec fn rmw_result(op: Rmw, old: u64, value: u64) -> u64 {
    match op {
        Rmw::Add => old.wrapping_add(value),
        Rmw::Sub => old.wrapping_sub(value),
        Rmw::And => old & value,
        Rmw::Or => old | value,
        Rmw::Xor => old ^ value,
        Rmw::Xchg => value,
    }
}

/// Whether a compare-and-exchange takes: the old value against the low bytes of
/// what the guest expected.
pub open spec fn matches_expected(old: nat, expected: i64, bytes: u32) -> bool {
    old == (expected as u64) as nat % pow256(bytes as nat)
}

/// The arithmetic of a read-modify-write.
pub fn combine(op: Rmw, old_value: u64, value: u64) -> (result: u64)
    ensures
        result == rmw_result(op, old_value, value),
{
    match op {
        Rmw::Add => old_value.wrapping_add(value),
        Rmw::Sub => old_value.wrapping_sub(value),
        Rmw::And => old_value & value,
        Rmw::Or => old_value | value,
        Rmw::Xor => old_value ^ value,
        Rmw::Xchg => value,
    }
}

/// The low `bytes` bytes of a value.
pub fn low_bytes(value: u64, bytes: u32) -> (low: u64)
    requires
        bytes <= 8,
    ensures
        low == value as nat % pow256(bytes as nat),
{
    proof {
        lemma_pow256_values();
        assert(pow256(3) == 256 * pow256(2));
        assert(pow256(5) == 256 * pow256(4));
        assert(pow256(6) == 256 * pow256(5));
        assert(pow256(7) == 256 * pow256(6));
        assert(value as nat % 1 == 0);
    }
    if bytes == 0 {
        0
    } else if bytes == 1 {
        value % 0x100
    } else if bytes == 2 {
        value % 0x1_0000
    } else if bytes == 3 {
        value % 0x100_0000
    } else if bytes == 4 {
        value % 0x1_0000_0000
    } else if bytes == 5 {
        value % 0x100_0000_0000
    } else if bytes == 6 {
        value % 0x1_0000_0000_0000
    } else if bytes == 7 {
        value % 0x100_0000_0000_0000
    } else {
        proof {
            assert(bytes as nat == 8);
            vstd::arithmetic::div_mod::lemma_small_mod(value as nat, pow256(8));
        }
        value
    }
}

/// Whether a compare-and-exchange took: the old value, at the access width,
/// against what the guest expected.
pub fn exchanged(old_value: i64, expected: i64, bytes: u32) -> (took: bool)
    requires
        bytes <= 8,
    ensures
        took == matches_expected((old_value as u64) as nat, expected, bytes),
{
    old_value as u64 == low_bytes(expected as u64, bytes)
}

impl Memory {
    /// The number the `bytes` bytes at `addr + offset` spell.
    pub open spec fn word(&self, addr: i32, offset: u64, bytes: int) -> nat {
        le_value(
            self.data@.subrange(effective(addr, offset), effective(addr, offset) + bytes),
        )
    }

    /// Whether `size` bytes at `addr + offset` lie inside the memory.
    pub open spec fn reaches(&self, addr: i32, offset: u64, size: int) -> bool {
        fits(self.data@.len(), addr, offset, size)
    }

    /// Whether an atomic access there neither leaves the memory nor is
    /// misaligned.
    pub open spec fn atomic_ok(&self, addr: i32, offset: u64, bytes: u32) -> bool {
        &&& bytes <= 8
        &&& self.reaches(addr, offset, bytes as int)
        &&& aligned(effective(addr, offset), bytes)
    }

    /// Whether a watched write there would have to stop the run.
    pub open spec fn stops_at(&self, addr: i32, offset: u64, bytes: int) -> bool {
        self.watch.stop && touches(
            self.watch.ranges@,
            effective(addr, offset),
            effective(addr, offset) + bytes,
        )
    }

    /// Everything but the bytes is what it was.
    pub open spec fn only_data_changed(&self, before: &Memory) -> bool {
        &&& self.max_pages == before.max_pages
        &&& self.watch == before.watch
    }

    /// The write was noted, and nothing else about the watch changed.
    pub open spec fn noted(
        &self,
        before: &Memory,
        site: u32,
        at: u32,
        addr: i32,
        offset: u64,
        bytes: u64,
        kind: WriteKind,
    ) -> bool {
        &&& self.max_pages == before.max_pages
        &&& self.watch.ranges@ == before.watch.ranges@
        &&& self.watch.stop == before.watch.stop
        &&& self.watch.hits@ == hits_after(
            before.watch.ranges@,
            before.watch.hits@,
            site,
            at,
            addr,
            offset,
            bytes,
            kind,
        )
    }

    /// A memory of `min_pages`, zero-filled, as instantiation leaves it.
    pub fn new(min_pages: u32, max_pages: Option<u32>) -> (memory: Self)
        requires
            min_pages * PAGE_SIZE <= usize::MAX,
        ensures
            memory.data@ == Seq::new(min_pages as nat * 65536, |i: int| 0u8),
            memory.max_pages == max_pages,
            memory.watch.ranges@ == Seq::<(u32, u32)>::empty(),
            memory.watch.hits@ == Seq::<Hit>::empty(),
            !memory.watch.stop,
    {
        let data: Vec<u8> = vec![0u8; min_pages as usize * PAGE_SIZE];
        assert(data@ =~= Seq::new(min_pages as nat * 65536, |i: int| 0u8));
        Memory { data, max_pages, watch: Watchpoints::default() }
    }

    /// Watches `bytes` bytes from `address`.
    pub fn watch(&mut self, address: i32, bytes: i32)
        ensures
            final(self).data@ == old(self).data@,
            final(self).max_pages == old(self).max_pages,
            final(self).watch.ranges@ == old(self).watch.ranges@.push(
                (address as u32, (address as u32).wrapping_add(bytes as u32)),
            ),
            final(self).watch.hits@ == old(self).watch.hits@,
            final(self).watch.stop == old(self).watch.stop,
    {
        self.watch.add_range(address, bytes);
    }

    /// The writes to watched addresses so far.
    pub fn hits(&self) -> (hits: &[Hit])
        ensures
            hits@ == self.watch.hits@,
    {
        self.watch.hits.as_slice()
    }

    /// Whether `size` bytes at `addr + offset` lie inside the memory, which is
    /// what every access asks for.
    pub fn in_bounds(&self, addr: i32, offset: u64, size: u64) -> (inside: bool)
        ensures
            inside == self.reaches(addr, offset, size as int),
    {
        let at: u128 = (addr as u32) as u128 + offset as u128;
        at + size as u128 <= self.data.len() as u128
    }

    /// Whether an atomic access of `bytes` bytes at `addr + offset` is naturally
    /// aligned.
    pub fn is_aligned(addr: i32, offset: u64, bytes: u32) -> (yes: bool)
        ensures
            yes == aligned(effective(addr, offset), bytes),
    {
        let at: u128 = (addr as u32) as u128 + offset as u128;
        if bytes == 0 {
            at == 0
        } else {
            at % bytes as u128 == 0
        }
    }

    /// The bytes, copied out.
    pub fn snapshot(&self) -> (bytes: Vec<u8>)
        ensures
            bytes@ == self.data@,
    {
        let bytes: Vec<u8> = self.data.clone();
        assert(bytes@ =~= self.data@);
        bytes
    }

    /// `memory.size`: the current size in pages.
    pub fn size(&self) -> (pages: i32)
        ensures
            pages == pages_of(self.data@) as i32,
    {
        (self.data.len() / PAGE_SIZE) as i32
    }

    /// `memory.grow`: returns the previous size in pages, or `-1` if refused.
    pub fn grow(&mut self, delta_pages: u32) -> (result: i32)
        requires
            pages_of(old(self).data@) + delta_pages <= old(self).page_limit() ==> (pages_of(
                old(self).data@,
            ) + delta_pages) * 65536 <= usize::MAX,
        ensures
            final(self).only_data_changed(old(self)),
            ({
                let pages = pages_of(old(self).data@);
                if pages + delta_pages <= old(self).page_limit() {
                    &&& result == pages as i32
                    &&& final(self).data@ == grown(old(self).data@, (pages + delta_pages) as nat)
                } else {
                    &&& result == -1
                    &&& final(self).data@ == old(self).data@
                }
            }),
    {
        let old_pages: usize = self.data.len() / PAGE_SIZE;
        let new_pages: u128 = old_pages as u128 + delta_pages as u128;
        let most: u32 = match self.max_pages {
            Some(max) => max,
            None => 65536,
        };
        // 65536 pages is the 4 GiB ceiling of a 32-bit memory.
        if new_pages > most as u128 || new_pages > 65536 {
            return -1;
        }
        let ghost before = self.data@;
        self.data.resize(new_pages as usize * PAGE_SIZE, 0);
        proof {
            if new_pages * 65536 > before.len() {
                assert forall|i: int| 0 <= i < before.len() implies self.data@[i] == before[i] by {
                    assert(self.data@.subrange(0, before.len() as int)[i] == before[i]);
                }
            }
            assert(self.data@ =~= grown(before, new_pages as nat));
        }
        old_pages as i32
    }

    /// Where an access lands, once it is known to be inside.
    fn range(&self, addr: i32, offset: u64, size: u64) -> (at: usize)
        requires
            self.reaches(addr, offset, size as int),
        ensures
            at == effective(addr, offset),
            at + size <= self.data.len(),
    {
        let len: usize = self.data.len();
        ((addr as u32) as u64 + offset) as usize
    }

    /// The `n` bytes at `addr + offset`, as one unsigned number.
    fn read(&self, addr: i32, offset: u64, n: u64) -> (value: u64)
        requires
            n <= 8,
            self.reaches(addr, offset, n as int),
        ensures
            value == self.word(addr, offset, n as int),
            value < pow256(n as nat),
    {
        let at: usize = self.range(addr, offset, n);
        proof {
            lemma_le_value_bound(self.data@.subrange(at as int, at + n));
        }
        read_le(&self.data, at, n as usize)
    }

    /// Writes the low `n` bytes of a number at `addr + offset`.
    fn write(&mut self, addr: i32, offset: u64, n: u64, value: u64)
        requires
            old(self).reaches(addr, offset, n as int),
        ensures
            final(self).only_data_changed(old(self)),
            final(self).data@ == splice(
                old(self).data@,
                effective(addr, offset),
                le_bytes(value as nat, n as nat),
            ),
    {
        let at: usize = self.range(addr, offset, n);
        write_le(&mut self.data, at, n as usize, value);
    }

    /// `i32.load8_u`, the unsigned byte read every wider load is built from.
    pub fn load8_u(&self, addr: i32, offset: u64) -> (value: i32)
        requires
            self.reaches(addr, offset, 1),
        ensures
            value == self.data@[effective(addr, offset)] as i32,
    {
        self.data[self.range(addr, offset, 1)] as i32
    }

    /// `i32.load8_s`
    pub fn load8_s(&self, addr: i32, offset: u64) -> (value: i32)
        requires
            self.reaches(addr, offset, 1),
        ensures
            value == (self.data@[effective(addr, offset)] as i8) as i32,
    {
        (self.data[self.range(addr, offset, 1)] as i8) as i32
    }

    /// `i32.load16_u`
    pub fn load16_u(&self, addr: i32, offset: u64) -> (value: i32)
        requires
            self.reaches(addr, offset, 2),
        ensures
            value == self.word(addr, offset, 2),
    {
        proof {
            lemma_pow256_values();
        }
        self.read(addr, offset, 2) as i32
    }

    /// `i32.load16_s`
    pub fn load16_s(&self, addr: i32, offset: u64) -> (value: i32)
        requires
            self.reaches(addr, offset, 2),
        ensures
            value == (self.word(addr, offset, 2) as u16 as i16) as i32,
    {
        proof {
            lemma_pow256_values();
        }
        ((self.read(addr, offset, 2) as u16) as i16) as i32
    }

    /// `i32.load`
    pub fn load32(&self, addr: i32, offset: u64) -> (value: i32)
        requires
            self.reaches(addr, offset, 4),
        ensures
            value == (self.word(addr, offset, 4) as u32) as i32,
    {
        proof {
            lemma_pow256_values();
        }
        (self.read(addr, offset, 4) as u32) as i32
    }

    /// `i64.load`
    pub fn load64(&self, addr: i32, offset: u64) -> (value: i64)
        requires
            self.reaches(addr, offset, 8),
        ensures
            value == (self.word(addr, offset, 8) as u64) as i64,
    {
        self.read(addr, offset, 8) as i64
    }

    /// `i64.load8_s`. The narrow i64 loads read the same bytes as their i32
    /// counterparts and sign- or zero-extend to 64 bits.
    pub fn load8_s_i64(&self, addr: i32, offset: u64) -> (value: i64)
        requires
            self.reaches(addr, offset, 1),
        ensures
            value == (self.data@[effective(addr, offset)] as i8) as i64,
    {
        (self.data[self.range(addr, offset, 1)] as i8) as i64
    }

    /// `i64.load8_u`
    pub fn load8_u_i64(&self, addr: i32, offset: u64) -> (value: i64)
        requires
            self.reaches(addr, offset, 1),
        ensures
            value == self.data@[effective(addr, offset)] as i64,
    {
        self.data[self.range(addr, offset, 1)] as i64
    }

    /// `i64.load16_s`
    pub fn load16_s_i64(&self, addr: i32, offset: u64) -> (value: i64)
        requires
            self.reaches(addr, offset, 2),
        ensures
            value == (self.word(addr, offset, 2) as u16 as i16) as i64,
    {
        proof {
            lemma_pow256_values();
        }
        ((self.read(addr, offset, 2) as u16) as i16) as i64
    }

    /// `i64.load16_u`
    pub fn load16_u_i64(&self, addr: i32, offset: u64) -> (value: i64)
        requires
            self.reaches(addr, offset, 2),
        ensures
            value == self.word(addr, offset, 2),
    {
        proof {
            lemma_pow256_values();
        }
        self.read(addr, offset, 2) as i64
    }

    /// `i64.load32_s`
    pub fn load32_s_i64(&self, addr: i32, offset: u64) -> (value: i64)
        requires
            self.reaches(addr, offset, 4),
        ensures
            value == (self.word(addr, offset, 4) as u32 as i32) as i64,
    {
        proof {
            lemma_pow256_values();
        }
        ((self.read(addr, offset, 4) as u32) as i32) as i64
    }

    /// `i64.load32_u`
    pub fn load32_u_i64(&self, addr: i32, offset: u64) -> (value: i64)
        requires
            self.reaches(addr, offset, 4),
        ensures
            value == self.word(addr, offset, 4),
    {
        proof {
            lemma_pow256_values();
        }
        self.read(addr, offset, 4) as i64
    }

    /// The memory after a store of the low `n` bytes of `value`.
    pub open spec fn stored(&self, addr: i32, offset: u64, n: nat, value: i64) -> Seq<u8> {
        splice(self.data@, effective(addr, offset), le_bytes((value as u64) as nat, n))
    }

    /// `i32.store8` / `i64.store8`
    pub fn store8(&mut self, addr: i32, offset: u64, value: i64)
        requires
            old(self).reaches(addr, offset, 1),
        ensures
            final(self).data@ == old(self).stored(addr, offset, 1, value),
            final(self).only_data_changed(old(self)),
    {
        self.write(addr, offset, 1, value as u64);
    }

    /// `i32.store16` / `i64.store16`
    pub fn store16(&mut self, addr: i32, offset: u64, value: i64)
        requires
            old(self).reaches(addr, offset, 2),
        ensures
            final(self).data@ == old(self).stored(addr, offset, 2, value),
            final(self).only_data_changed(old(self)),
    {
        self.write(addr, offset, 2, value as u64);
    }

    /// `i32.store` / `i64.store32`
    pub fn store32(&mut self, addr: i32, offset: u64, value: i64)
        requires
            old(self).reaches(addr, offset, 4),
        ensures
            final(self).data@ == old(self).stored(addr, offset, 4, value),
            final(self).only_data_changed(old(self)),
    {
        self.write(addr, offset, 4, value as u64);
    }

    /// `i64.store`
    pub fn store64(&mut self, addr: i32, offset: u64, value: i64)
        requires
            old(self).reaches(addr, offset, 8),
        ensures
            final(self).data@ == old(self).stored(addr, offset, 8, value),
            final(self).only_data_changed(old(self)),
    {
        self.write(addr, offset, 8, value as u64);
    }

    /// The memory after a fill.
    pub open spec fn filled(&self, addr: i32, value: i32, len: i32) -> Seq<u8> {
        splice(
            self.data@,
            effective(addr, 0),
            Seq::new((len as u32) as nat, |i: int| value as u8),
        )
    }

    /// The memory after a copy: what was at `src` before, at `dst`.
    pub open spec fn copied(&self, dst: i32, src: i32, len: i32) -> Seq<u8> {
        splice(
            self.data@,
            effective(dst, 0),
            self.data@.subrange(effective(src, 0), effective(src, 0) + (len as u32)),
        )
    }

    /// The memory after part of a segment was placed in it.
    pub open spec fn initialised(&self, dst: i32, segment: Seq<u8>, src: i32, len: i32) -> Seq<u8> {
        splice(
            self.data@,
            effective(dst, 0),
            segment.subrange((src as u32) as int, (src as u32) + (len as u32)),
        )
    }

    /// Writes a run of bytes at `at`.
    fn place(&mut self, at: usize, bytes: &[u8])
        requires
            at + bytes@.len() <= old(self).data.len(),
        ensures
            final(self).only_data_changed(old(self)),
            final(self).data@ == splice(old(self).data@, at as int, bytes@),
    {
        let ghost before = self.data@;
        let mut step: usize = 0;
        while step < bytes.len()
            invariant
                step <= bytes@.len(),
                at + bytes@.len() <= self.data.len(),
                self.data@.len() == before.len(),
                self.only_data_changed(old(self)),
                forall|i: int|
                    0 <= i < self.data@.len() ==> #[trigger] self.data@[i] == if at <= i < at
                        + step {
                        bytes@[i - at]
                    } else {
                        before[i]
                    },
            decreases bytes@.len() - step,
        {
            self.data.set(at + step, bytes[step]);
            step = step + 1;
        }
        assert(self.data@ =~= splice(before, at as int, bytes@));
    }

    /// `memory.fill`. A zero-length fill at the end of memory is legal; one
    /// past it is not.
    pub fn fill(&mut self, addr: i32, value: i32, len: i32)
        requires
            old(self).reaches(addr, 0, (len as u32) as int),
        ensures
            final(self).data@ == old(self).filled(addr, value, len),
            final(self).only_data_changed(old(self)),
    {
        let at: usize = self.range(addr, 0, (len as u32) as u64);
        let count: usize = len as u32 as usize;
        let byte: u8 = value as u8;
        let ghost before = self.data@;
        let mut step: usize = 0;
        while step < count
            invariant
                step <= count,
                byte == value as u8,
                at + count <= self.data.len(),
                self.data@.len() == before.len(),
                self.only_data_changed(old(self)),
                forall|i: int|
                    0 <= i < self.data@.len() ==> #[trigger] self.data@[i] == if at <= i < at
                        + step {
                        byte
                    } else {
                        before[i]
                    },
            decreases count - step,
        {
            self.data.set(at + step, byte);
            step = step + 1;
        }
        assert(self.data@ =~= old(self).filled(addr, value, len));
    }

    /// `memory.copy`. Overlapping ranges move as `memmove` does.
    pub fn copy(&mut self, dst: i32, src: i32, len: i32)
        requires
            old(self).reaches(dst, 0, (len as u32) as int),
            old(self).reaches(src, 0, (len as u32) as int),
        ensures
            final(self).data@ == old(self).copied(dst, src, len),
            final(self).only_data_changed(old(self)),
    {
        let to: usize = self.range(dst, 0, (len as u32) as u64);
        let from: usize = self.range(src, 0, (len as u32) as u64);
        let count: usize = len as u32 as usize;
        let moving: Vec<u8> = vstd::slice::slice_to_vec(
            vstd::slice::slice_subrange(self.data.as_slice(), from, from + count),
        );
        self.place(to, moving.as_slice());
    }

    /// `memory.init`, and how a passive data segment reaches memory.
    pub fn init(&mut self, dst: i32, segment: &[u8], src: i32, len: i32)
        requires
            (src as u32) + (len as u32) <= segment@.len(),
            old(self).reaches(dst, 0, (len as u32) as int),
        ensures
            final(self).data@ == old(self).initialised(dst, segment@, src, len),
            final(self).only_data_changed(old(self)),
    {
        let count: usize = len as u32 as usize;
        let from: usize = src as u32 as usize;
        let whole: usize = segment.len();
        let to: usize = self.range(dst, 0, (len as u32) as u64);
        self.place(to, vstd::slice::slice_subrange(segment, from, from + count));
    }

    // ---- atomics ----
    //
    // Under one thread an atomic load, store or read-modify-write does exactly
    // what the plain one does: there is nobody to interleave with. What is not
    // the same is the alignment rule, and the two blocking instructions.

    /// Reads `bytes` bytes, zero-extended. Covers every `*.atomic.load*`.
    pub fn atomic_load(&self, addr: i32, offset: u64, bytes: u32) -> (value: i64)
        requires
            self.atomic_ok(addr, offset, bytes),
        ensures
            value == (self.word(addr, offset, bytes as int) as u64) as i64,
    {
        self.read(addr, offset, bytes as u64) as i64
    }

    /// Writes the low `bytes` bytes. Covers every `*.atomic.store*`.
    pub fn atomic_store(&mut self, addr: i32, offset: u64, bytes: u32, value: i64)
        requires
            old(self).atomic_ok(addr, offset, bytes),
        ensures
            final(self).data@ == old(self).stored(addr, offset, bytes as nat, value),
            final(self).only_data_changed(old(self)),
    {
        self.write(addr, offset, bytes as u64, value as u64);
    }

    /// The read-modify-write operations, which differ only in the arithmetic.
    ///
    /// The result is cut to the access width: an `i32.atomic.rmw8.add_u` wraps
    /// at 256.
    pub fn atomic_rmw(&mut self, addr: i32, offset: u64, bytes: u32, op: Rmw, value: i64) -> (was:
        i64)
        requires
            old(self).atomic_ok(addr, offset, bytes),
        ensures
            was == (old(self).word(addr, offset, bytes as int) as u64) as i64,
            final(self).data@ == splice(
                old(self).data@,
                effective(addr, offset),
                le_bytes(
                    rmw_result(
                        op,
                        old(self).word(addr, offset, bytes as int) as u64,
                        value as u64,
                    ) as nat,
                    bytes as nat,
                ),
            ),
            final(self).only_data_changed(old(self)),
    {
        let was: u64 = self.read(addr, offset, bytes as u64);
        self.write(addr, offset, bytes as u64, combine(op, was, value as u64));
        was as i64
    }

    /// What an atomic load of `bytes` bytes there reads.
    pub open spec fn loaded(&self, addr: i32, offset: u64, bytes: u32) -> i64 {
        (self.word(addr, offset, bytes as int) as u64) as i64
    }

    /// Whether a compare-and-exchange there takes.
    pub open spec fn takes(&self, addr: i32, offset: u64, bytes: u32, expected: i64) -> bool {
        matches_expected(self.word(addr, offset, bytes as int), expected, bytes)
    }

    /// The memory after a compare-and-exchange.
    pub open spec fn after_exchange(
        &self,
        addr: i32,
        offset: u64,
        bytes: u32,
        expected: i64,
        replacement: i64,
    ) -> Seq<u8> {
        if self.takes(addr, offset, bytes, expected) {
            self.stored(addr, offset, bytes as nat, replacement)
        } else {
            self.data@
        }
    }

    /// Whether a watched atomic write there would have to stop the run.
    pub open spec fn atomic_stops(&self, addr: i32, offset: u64, bytes: u32) -> bool {
        self.stops_at(addr, offset, bytes as int)
    }

    /// The atomic write was noted, and nothing else about the watch changed.
    pub open spec fn atomic_noted(
        &self,
        before: &Memory,
        site: u32,
        at: u32,
        addr: i32,
        offset: u64,
        bytes: u32,
    ) -> bool {
        self.noted(before, site, at, addr, offset, bytes as u64, WriteKind::Atomic)
    }

    /// The exchange itself: the old value, and whether it took.
    fn exchange(
        &mut self,
        addr: i32,
        offset: u64,
        bytes: u32,
        expected: i64,
        replacement: i64,
    ) -> (was: (i64, bool))
        requires
            old(self).atomic_ok(addr, offset, bytes),
        ensures
            was.0 == old(self).loaded(addr, offset, bytes),
            was.1 == old(self).takes(addr, offset, bytes, expected),
            final(self).data@ == old(self).after_exchange(
                addr,
                offset,
                bytes,
                expected,
                replacement,
            ),
            final(self).only_data_changed(old(self)),
    {
        let was: u64 = self.read(addr, offset, bytes as u64);
        let took: bool = was == low_bytes(expected as u64, bytes);
        if took {
            self.write(addr, offset, bytes as u64, replacement as u64);
        }
        (was as i64, took)
    }

    /// Notes an atomic write.
    pub(crate) fn note_atomic(&mut self, site: u32, at: u32, addr: i32, offset: u64, bytes: u32)
        requires
            old(self).atomic_ok(addr, offset, bytes),
        ensures
            final(self).data@ == old(self).data@,
            final(self).atomic_noted(old(self), site, at, addr, offset, bytes),
    {
        let len: usize = self.data.len();
        self.watch.note(site, at, addr, offset, bytes as u64, WriteKind::Atomic);
    }

    /// `*.atomic.rmw*.cmpxchg*`. Returns the old value either way, which is how
    /// the caller learns whether the exchange happened.
    pub fn atomic_cmpxchg(
        &mut self,
        addr: i32,
        offset: u64,
        bytes: u32,
        expected: i64,
        replacement: i64,
    ) -> (was: i64)
        requires
            old(self).atomic_ok(addr, offset, bytes),
        ensures
            was == old(self).loaded(addr, offset, bytes),
            final(self).data@ == old(self).after_exchange(
                addr,
                offset,
                bytes,
                expected,
                replacement,
            ),
            final(self).only_data_changed(old(self)),
    {
        self.exchange(addr, offset, bytes, expected, replacement).0
    }

    /// `memory.atomic.notify`. Nobody is waiting, because nobody else is
    /// running, so this wakes zero threads.
    pub fn atomic_notify(&self, addr: i32, offset: u64) -> (woken: i32)
        requires
            self.atomic_ok(addr, offset, 4),
        ensures
            woken == 0,
    {
        0
    }

    /// `memory.atomic.wait32` / `wait64`.
    ///
    /// - the value has already changed: `1` (not-equal);
    /// - a zero timeout: `2` (timed-out), because a zero timeout expires
    ///   immediately whoever else is running.
    ///
    /// The third outcome would block until another thread notifies, and there
    /// is no other thread, so it is not an input.
    pub fn atomic_wait(&self, addr: i32, offset: u64, bytes: u32, expected: i64, timeout: i64) -> (answer:
        i32)
        requires
            self.atomic_ok(addr, offset, bytes),
            (self.word(addr, offset, bytes as int) as u64) as i64 != expected || timeout == 0,
        ensures
            answer == if (self.word(addr, offset, bytes as int) as u64) as i64 != expected {
                1int
            } else {
                2
            },
    {
        if self.atomic_load(addr, offset, bytes) != expected {
            return 1;
        }
        2
    }

    // ---- the instrumented writes ----

    /// `i32.store8` / `i64.store8`, reporting to any watchpoint.
    pub fn store8_at(&mut self, site: u32, at: u32, addr: i32, offset: u64, value: i64)
        requires
            old(self).reaches(addr, offset, 1),
            !old(self).stops_at(addr, offset, 1),
        ensures
            final(self).data@ == old(self).stored(addr, offset, 1, value),
            final(self).noted(old(self), site, at, addr, offset, 1, WriteKind::Store),
    {
        self.store8(addr, offset, value);
        let len: usize = self.data.len();
        self.watch.note(site, at, addr, offset, 1, WriteKind::Store);
    }

    /// `i32.store16` / `i64.store16`, reporting to any watchpoint.
    pub fn store16_at(&mut self, site: u32, at: u32, addr: i32, offset: u64, value: i64)
        requires
            old(self).reaches(addr, offset, 2),
            !old(self).stops_at(addr, offset, 2),
        ensures
            final(self).data@ == old(self).stored(addr, offset, 2, value),
            final(self).noted(old(self), site, at, addr, offset, 2, WriteKind::Store),
    {
        self.store16(addr, offset, value);
        let len: usize = self.data.len();
        self.watch.note(site, at, addr, offset, 2, WriteKind::Store);
    }

    /// `i32.store` / `i64.store32`, reporting to any watchpoint.
    pub fn store32_at(&mut self, site: u32, at: u32, addr: i32, offset: u64, value: i64)
        requires
            old(self).reaches(addr, offset, 4),
            !old(self).stops_at(addr, offset, 4),
        ensures
            final(self).data@ == old(self).stored(addr, offset, 4, value),
            final(self).noted(old(self), site, at, addr, offset, 4, WriteKind::Store),
    {
        self.store32(addr, offset, value);
        let len: usize = self.data.len();
        self.watch.note(site, at, addr, offset, 4, WriteKind::Store);
    }

    /// `i64.store`, reporting to any watchpoint.
    pub fn store64_at(&mut self, site: u32, at: u32, addr: i32, offset: u64, value: i64)
        requires
            old(self).reaches(addr, offset, 8),
            !old(self).stops_at(addr, offset, 8),
        ensures
            final(self).data@ == old(self).stored(addr, offset, 8, value),
            final(self).noted(old(self), site, at, addr, offset, 8, WriteKind::Store),
    {
        self.store64(addr, offset, value);
        let len: usize = self.data.len();
        self.watch.note(site, at, addr, offset, 8, WriteKind::Store);
    }

    /// `memory.fill`, reporting to any watchpoint. This is the one that
    /// answers "who zeroed it": a `memset` is a fill, not a store.
    pub fn fill_at(&mut self, site: u32, at: u32, addr: i32, value: i32, len: i32)
        requires
            old(self).reaches(addr, 0, (len as u32) as int),
            !old(self).stops_at(addr, 0, (len as u32) as int),
        ensures
            final(self).data@ == old(self).filled(addr, value, len),
            final(self).noted(old(self), site, at, addr, 0, (len as u32) as u64, WriteKind::Fill),
    {
        self.fill(addr, value, len);
        self.watch.note(site, at, addr, 0, (len as u32) as u64, WriteKind::Fill);
    }

    /// `memory.copy`, reporting to any watchpoint on the destination.
    pub fn copy_at(&mut self, site: u32, at: u32, dst: i32, src: i32, len: i32)
        requires
            old(self).reaches(dst, 0, (len as u32) as int),
            old(self).reaches(src, 0, (len as u32) as int),
            !old(self).stops_at(dst, 0, (len as u32) as int),
        ensures
            final(self).data@ == old(self).copied(dst, src, len),
            final(self).noted(old(self), site, at, dst, 0, (len as u32) as u64, WriteKind::Copy),
    {
        self.copy(dst, src, len);
        self.watch.note(site, at, dst, 0, (len as u32) as u64, WriteKind::Copy);
    }

    /// `memory.init`, reporting to any watchpoint on the destination.
    pub fn init_at(&mut self, site: u32, at: u32, dst: i32, segment: &[u8], src: i32, len: i32)
        requires
            (src as u32) + (len as u32) <= segment@.len(),
            old(self).reaches(dst, 0, (len as u32) as int),
            !old(self).stops_at(dst, 0, (len as u32) as int),
        ensures
            final(self).data@ == old(self).initialised(dst, segment@, src, len),
            final(self).noted(old(self), site, at, dst, 0, (len as u32) as u64, WriteKind::Init),
    {
        self.init(dst, segment, src, len);
        self.watch.note(site, at, dst, 0, (len as u32) as u64, WriteKind::Init);
    }

    /// An atomic store, reporting to any watchpoint.
    pub fn atomic_store_at(
        &mut self,
        site: u32,
        at: u32,
        addr: i32,
        offset: u64,
        bytes: u32,
        value: i64,
    )
        requires
            old(self).atomic_ok(addr, offset, bytes),
            !old(self).stops_at(addr, offset, bytes as int),
        ensures
            final(self).data@ == old(self).stored(addr, offset, bytes as nat, value),
            final(self).noted(old(self), site, at, addr, offset, bytes as u64, WriteKind::Atomic),
    {
        self.atomic_store(addr, offset, bytes, value);
        let len: usize = self.data.len();
        self.watch.note(site, at, addr, offset, bytes as u64, WriteKind::Atomic);
    }

    /// An atomic read-modify-write, reporting to any watchpoint.
    pub fn atomic_rmw_at(
        &mut self,
        site: u32,
        at: u32,
        addr: i32,
        offset: u64,
        bytes: u32,
        op: Rmw,
        value: i64,
    ) -> (was: i64)
        requires
            old(self).atomic_ok(addr, offset, bytes),
            !old(self).stops_at(addr, offset, bytes as int),
        ensures
            was == (old(self).word(addr, offset, bytes as int) as u64) as i64,
            final(self).data@ == splice(
                old(self).data@,
                effective(addr, offset),
                le_bytes(
                    rmw_result(
                        op,
                        old(self).word(addr, offset, bytes as int) as u64,
                        value as u64,
                    ) as nat,
                    bytes as nat,
                ),
            ),
            final(self).noted(old(self), site, at, addr, offset, bytes as u64, WriteKind::Atomic),
    {
        let was: i64 = self.atomic_rmw(addr, offset, bytes, op, value);
        let len: usize = self.data.len();
        self.watch.note(site, at, addr, offset, bytes as u64, WriteKind::Atomic);
        was
    }

    /// An atomic compare-and-exchange, reporting to any watchpoint.
    ///
    /// Only when the exchange happened. A comparison that failed wrote
    /// nothing, and reporting it would answer "who wrote this address" with a
    /// function that did not.
    pub fn atomic_cmpxchg_at(
        &mut self,
        site: u32,
        at: u32,
        addr: i32,
        offset: u64,
        bytes: u32,
        expected: i64,
        replacement: i64,
    ) -> (was: i64)
        requires
            old(self).atomic_ok(addr, offset, bytes),
            old(self).takes(addr, offset, bytes, expected) ==> !old(self).atomic_stops(
                addr,
                offset,
                bytes,
            ),
        ensures
            was == old(self).loaded(addr, offset, bytes),
            final(self).data@ == old(self).after_exchange(
                addr,
                offset,
                bytes,
                expected,
                replacement,
            ),
            if old(self).takes(addr, offset, bytes, expected) {
                final(self).atomic_noted(old(self), site, at, addr, offset, bytes)
            } else {
                final(self).only_data_changed(old(self))
            },
    {
        let was: (i64, bool) = self.exchange(addr, offset, bytes, expected, replacement);
        if was.1 {
            self.note_atomic(site, at, addr, offset, bytes);
        }
        was.0
    }
}

impl Access for Memory {
    open spec fn contents(&self) -> Seq<u8> {
        self.data@
    }

    /// The declared maximum, and never more than the 4 GiB of a 32-bit memory.
    open spec fn page_limit(&self) -> nat {
        match self.max_pages {
            Some(max) => if max < 65536 {
                max as nat
            } else {
                65536
            },
            None => 65536,
        }
    }

    open spec fn declared_max(&self) -> Option<u32> {
        self.max_pages
    }

    fn byte_at(&self, at: usize) -> (byte: u8) {
        self.data[at]
    }

    fn set_byte_at(&mut self, at: usize, value: u8) {
        self.data.set(at, value);
    }

    fn byte_len(&self) -> (len: usize) {
        self.data.len()
    }

    fn grow_pages(&mut self, delta_pages: u32) -> (result: i32) {
        self.grow(delta_pages)
    }

    fn declared_max_pages(&self) -> (max: Option<u32>) {
        self.max_pages
    }
}

} // verus!
