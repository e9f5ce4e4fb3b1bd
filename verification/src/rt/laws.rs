//! What holds of the runtime as a whole.

use vstd::prelude::*;
use crate::rt::access::{effective, grown};
use crate::rt::memory::{hits_after, overlaps, touches, Hit, WriteKind};
use crate::rt::words::{le_bytes, le_value, pow256, splice};
use crate::rt::words::{lemma_le_bytes_len, lemma_le_value_of_bytes, lemma_pow256_values};

verus! {

/// Bytes written at an address are the bytes read back from it.
pub proof fn read_after_write(data: Seq<u8>, at: int, bytes: Seq<u8>)
    requires
        0 <= at,
        at + bytes.len() <= data.len(),
    ensures
        splice(data, at, bytes).subrange(at, at + bytes.len()) == bytes,
{
    assert(splice(data, at, bytes).subrange(at, at + bytes.len()) =~= bytes);
}

/// A write leaves every range it does not touch as it was.
pub proof fn write_leaves_the_rest(data: Seq<u8>, at: int, bytes: Seq<u8>, from: int, to: int)
    requires
        0 <= at,
        at + bytes.len() <= data.len(),
        0 <= from <= to <= data.len(),
        to <= at || at + bytes.len() <= from,
    ensures
        splice(data, at, bytes).subrange(from, to) == data.subrange(from, to),
{
    assert(splice(data, at, bytes).subrange(from, to) =~= data.subrange(from, to));
}

/// A load of `n` bytes after a store of `n` bytes reads the low `n` bytes of what
/// was stored, at every width and address.
pub proof fn load_after_store(data: Seq<u8>, addr: i32, offset: u64, n: nat, value: u64)
    requires
        effective(addr, offset) + n <= data.len(),
    ensures
        le_value(
            splice(data, effective(addr, offset), le_bytes(value as nat, n)).subrange(
                effective(addr, offset),
                effective(addr, offset) + n,
            ),
        ) == value as nat % pow256(n),
{
    lemma_le_bytes_len(value as nat, n);
    lemma_le_value_of_bytes(value as nat, n);
    read_after_write(data, effective(addr, offset), le_bytes(value as nat, n));
}

/// `i32.store` then `i32.load` gives back the value, as a 32-bit number.
pub proof fn i32_round_trip(data: Seq<u8>, addr: i32, offset: u64, value: i64)
    requires
        effective(addr, offset) + 4 <= data.len(),
    ensures
        (le_value(
            splice(
                data,
                effective(addr, offset),
                le_bytes((value as u64) as nat, 4),
            ).subrange(effective(addr, offset), effective(addr, offset) + 4),
        ) as u32) as i32 == value as i32,
{
    load_after_store(data, addr, offset, 4, value as u64);
    lemma_pow256_values();
    let low = ((value as u64) as nat % pow256(4)) as u32;
    assert(low == (value as u64) % 0x1_0000_0000);
    assert(((value as u64) % 0x1_0000_0000) as u32 as i32 == value as i32) by (bit_vector);
}

/// `i64.store` then `i64.load` gives back the value.
pub proof fn i64_round_trip(data: Seq<u8>, addr: i32, offset: u64, value: i64)
    requires
        effective(addr, offset) + 8 <= data.len(),
    ensures
        (le_value(
            splice(
                data,
                effective(addr, offset),
                le_bytes((value as u64) as nat, 8),
            ).subrange(effective(addr, offset), effective(addr, offset) + 8),
        ) as u64) as i64 == value,
{
    load_after_store(data, addr, offset, 8, value as u64);
    lemma_pow256_values();
    assert((value as u64) as i64 == value) by (bit_vector);
}

/// Growing keeps every byte there was, and what is new reads as zero.
pub proof fn growing_keeps_the_bytes(data: Seq<u8>, pages: nat)
    requires
        data.len() <= pages * 65536,
    ensures
        grown(data, pages).len() == pages * 65536,
        grown(data, pages).subrange(0, data.len() as int) == data,
        forall|i: int| data.len() <= i < pages * 65536 ==> grown(data, pages)[i] == 0,
{
    assert(grown(data, pages).subrange(0, data.len() as int) =~= data);
}

/// A copy moves the bytes the source held before it, however the two ranges
/// overlap.
pub proof fn copying_moves_what_was_there(data: Seq<u8>, dst: int, src: int, len: int)
    requires
        0 <= dst,
        0 <= src,
        0 <= len,
        dst + len <= data.len(),
        src + len <= data.len(),
    ensures
        splice(data, dst, data.subrange(src, src + len)).subrange(dst, dst + len)
            == data.subrange(src, src + len),
{
    read_after_write(data, dst, data.subrange(src, src + len));
}

/// Whether a write of the bytes from `start` to `end` writes a byte.
pub open spec fn written(start: int, end: int, byte: int) -> bool {
    start <= byte < end
}

/// A write is a hit exactly where some byte is both written and watched.
pub proof fn a_hit_is_a_watched_byte_written(ranges: Seq<(u32, u32)>, start: int, end: int)
    ensures
        touches(ranges, start, end) == exists|i: int, byte: int|
            0 <= i < ranges.len() && (#[trigger] ranges[i]).0 <= byte < ranges[i].1 && #[trigger]
                written(start, end, byte),
{
    if touches(ranges, start, end) {
        let i = choose|i: int| 0 <= i < ranges.len() && overlaps(#[trigger] ranges[i], start, end);
        let byte = if start < ranges[i].0 {
            ranges[i].0 as int
        } else {
            start
        };
        assert(ranges[i].0 <= byte < ranges[i].1 && written(start, end, byte));
    }
    if exists|i: int, byte: int|
        0 <= i < ranges.len() && (#[trigger] ranges[i]).0 <= byte < ranges[i].1 && #[trigger]
            written(start, end, byte) {
        let (i, byte) = choose|i: int, byte: int|
            0 <= i < ranges.len() && (#[trigger] ranges[i]).0 <= byte < ranges[i].1 && #[trigger]
                written(start, end, byte);
        assert(overlaps(ranges[i], start, end));
    }
}

/// A write of no bytes leaves the list of hits as it was.
pub proof fn writing_nothing_is_no_hit(
    ranges: Seq<(u32, u32)>,
    hits: Seq<Hit>,
    site: u32,
    at: u32,
    addr: i32,
    offset: u64,
    kind: WriteKind,
)
    ensures
        hits_after(ranges, hits, site, at, addr, offset, 0, kind) == hits,
{
}

} // verus!
