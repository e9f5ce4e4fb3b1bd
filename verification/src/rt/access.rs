//! What a host may do with a memory, whichever kind it is.

use vstd::prelude::*;

verus! {

/// Bytes in a wasm page.
pub const PAGE_SIZE: usize = 65536;

/// Where an access lands: the unsigned address and the static offset, added
/// without wrapping.
pub open spec fn effective(addr: i32, offset: u64) -> int {
    (addr as u32) as int + offset as int
}

/// Whether `size` bytes from there lie inside a memory of `len` bytes.
pub open spec fn fits(len: nat, addr: i32, offset: u64, size: int) -> bool {
    effective(addr, offset) + size <= len
}

/// Whether an atomic access of that width is naturally aligned there.
pub open spec fn aligned(at: int, bytes: u32) -> bool {
    if bytes == 0 {
        at == 0
    } else {
        at % (bytes as int) == 0
    }
}

/// How many whole pages a run of bytes is.
pub open spec fn pages_of(bytes: Seq<u8>) -> nat {
    bytes.len() / 65536
}

/// The bytes after growing to `pages` pages: the old ones, and zeros.
pub open spec fn grown(bytes: Seq<u8>, pages: nat) -> Seq<u8> {
    Seq::new(
        pages * 65536,
        |i: int|
            if i < bytes.len() {
                bytes[i]
            } else {
                0
            },
    )
}

/// The byte-addressable part of a memory, so a host can read one without
/// caring whether the module declared it shared.
pub trait Access {
    /// The bytes the memory holds.
    spec fn contents(&self) -> Seq<u8>;

    /// The most pages the memory can grow to.
    spec fn page_limit(&self) -> nat;

    /// The ceiling it reports.
    spec fn declared_max(&self) -> Option<u32>;

    /// The byte at `at`.
    fn byte_at(&self, at: usize) -> (byte: u8)
        requires
            at < self.contents().len(),
        ensures
            byte == self.contents()[at as int],
    ;

    /// Writes the byte at `at`.
    fn set_byte_at(&mut self, at: usize, value: u8)
        requires
            at < old(self).contents().len(),
        ensures
            final(self).contents() == old(self).contents().update(at as int, value),
            final(self).page_limit() == old(self).page_limit(),
            final(self).declared_max() == old(self).declared_max(),
    ;

    /// How many bytes there are.
    fn byte_len(&self) -> (len: usize)
        ensures
            len == self.contents().len(),
    ;

    /// `memory.grow`: the size in pages before, or -1 where the limit is in the
    /// way.
    fn grow_pages(&mut self, delta_pages: u32) -> (result: i32)
        requires
            pages_of(old(self).contents()) + delta_pages <= old(self).page_limit() ==> (pages_of(
                old(self).contents(),
            ) + delta_pages) * 65536 <= usize::MAX,
        ensures
            final(self).page_limit() == old(self).page_limit(),
            final(self).declared_max() == old(self).declared_max(),
            ({
                let pages = pages_of(old(self).contents());
                if pages + delta_pages <= old(self).page_limit() {
                    &&& result == pages as i32
                    &&& final(self).contents() == grown(old(self).contents(), (pages + delta_pages) as nat)
                } else {
                    &&& result == -1
                    &&& final(self).contents() == old(self).contents()
                }
            }),
    ;

    /// The maximum the memory type declared, if it declared one.
    fn declared_max_pages(&self) -> (max: Option<u32>)
        ensures
            max == self.declared_max(),
    ;
}

} // verus!
