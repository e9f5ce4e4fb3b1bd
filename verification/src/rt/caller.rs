//! What an import is given besides its arguments.

use vstd::prelude::*;
use crate::rt::access::{Access, effective, fits};
use crate::rt::memory::Memory;
use crate::rt::words::{le_bytes, le_value, read_le, splice, write_le, lemma_le_bytes_len};

verus! {

/// An exception thrown by the guest.
///
/// Emscripten compiles a C++ `throw` into a call to the imported
/// `__cxa_throw`, and the generated `invoke_*` trampolines catch exactly this.
#[derive(Debug, Clone, Copy, PartialEq, Eq, Structural)]
pub struct GuestException {
    /// The exception object, as the guest's `__cxa_throw` was given it.
    pub exception: i32,
    /// Its `std::type_info`, for a host that wants to match on the type.
    pub info: i32,
}

/// What an import is given besides its arguments.
///
/// A wasm import receives numbers, and almost every interesting one is a
/// number *into* linear memory: `fd_write` is handed the address of an iovec
/// array, `__assert_fail` the address of a string.
pub struct Caller<'a, M: Access = Memory> {
    /// The instance's linear memory.
    pub memory: &'a mut M,
}

/// Where the first NUL at or after `at` is, or the end where there is none.
pub open spec fn nul_from(bytes: Seq<u8>, at: int) -> int
    decreases bytes.len() - at,
{
    if at >= bytes.len() {
        bytes.len() as int
    } else if bytes[at] == 0 {
        at
    } else {
        nul_from(bytes, at + 1)
    }
}

/// Whether a NUL-terminated string starts at `at`.
pub open spec fn terminated(bytes: Seq<u8>, at: int) -> bool {
    at <= nul_from(bytes, at) < bytes.len()
}

/// The string that starts there, without its terminator.
pub open spec fn c_text(bytes: Seq<u8>, at: int) -> Seq<u8> {
    bytes.subrange(at, nul_from(bytes, at))
}

/// The four bytes at an address, as the signed number they spell.
pub open spec fn word32(bytes: Seq<u8>, addr: i32) -> i32 {
    (le_value(bytes.subrange(effective(addr, 0), effective(addr, 0) + 4)) as u32) as i32
}

/// The bytes of an i32 as the guest stores it.
pub open spec fn i32_bytes(value: i32) -> Seq<u8> {
    le_bytes((value as u32) as nat, 4)
}

/// The bytes of an i64 as the guest stores it.
pub open spec fn i64_bytes(value: i64) -> Seq<u8> {
    le_bytes((value as u64) as nat, 8)
}

/// The bytes of an i32 as the guest stores it.
pub fn bytes_of_i32(value: i32) -> (bytes: Vec<u8>)
    ensures
        bytes@ == i32_bytes(value),
        bytes@.len() == 4,
{
    let mut bytes: Vec<u8> = vec![0u8, 0, 0, 0];
    write_le(&mut bytes, 0, 4, (value as u32) as u64);
    proof {
        lemma_le_bytes_len((value as u32) as nat, 4);
        assert(bytes@ =~= i32_bytes(value));
    }
    bytes
}

/// The bytes of an i64 as the guest stores it.
pub fn bytes_of_i64(value: i64) -> (bytes: Vec<u8>)
    ensures
        bytes@ == i64_bytes(value),
        bytes@.len() == 8,
{
    let mut bytes: Vec<u8> = vec![0u8, 0, 0, 0, 0, 0, 0, 0];
    write_le(&mut bytes, 0, 8, value as u64);
    proof {
        lemma_le_bytes_len((value as u64) as nat, 8);
        assert(bytes@ =~= i64_bytes(value));
    }
    bytes
}

impl<'a, M: Access> Caller<'a, M> {
    /// The bytes of the memory as they stand.
    pub open spec fn contents(&self) -> Seq<u8> {
        self.memory.contents()
    }

    /// Whether `size` bytes at `addr` lie inside the memory.
    pub open spec fn reaches(&self, addr: i32, size: int) -> bool {
        fits(self.contents().len(), addr, 0, size)
    }

    /// The ceiling the memory reports.
    pub open spec fn declared_max(&self) -> Option<u32> {
        self.memory.declared_max()
    }

    /// The most pages the memory can grow to.
    pub open spec fn page_limit(&self) -> nat {
        self.memory.page_limit()
    }

    /// The limits of the memory are what they were.
    pub open spec fn same_limits(&self, before: &Self) -> bool {
        &&& self.memory.page_limit() == before.memory.page_limit()
        &&& self.memory.declared_max() == before.memory.declared_max()
    }

    /// Whether `size` bytes at `addr` lie inside the memory, which is what every
    /// access asks for.
    pub fn in_bounds(&self, addr: i32, size: u64) -> (inside: bool)
        ensures
            inside == self.reaches(addr, size as int),
    {
        (addr as u32) as u128 + size as u128 <= self.memory.byte_len() as u128
    }

    /// Whether a NUL follows `addr` before the end of memory.
    pub fn has_cstring(&self, addr: i32) -> (yes: bool)
        ensures
            yes == terminated(self.contents(), effective(addr, 0)),
    {
        let len: usize = self.memory.byte_len();
        if (addr as u32) as u64 >= len as u64 {
            return false;
        }
        let mut at: usize = addr as u32 as usize;
        let ghost start = at as int;
        while at < len
            invariant
                len == self.contents().len(),
                start == effective(addr, 0),
                0 <= start <= at <= len,
                nul_from(self.contents(), start) == nul_from(self.contents(), at as int),
            decreases len - at,
        {
            if self.memory.byte_at(at) == 0 {
                return true;
            }
            at = at + 1;
        }
        false
    }

    /// The `len` bytes at `addr`.
    ///
    /// A copy rather than a slice: a shared memory is not a `&[u8]` anybody
    /// can borrow, since another thread may be writing it.
    pub fn bytes(&self, addr: i32, len: i32) -> (bytes: Vec<u8>)
        requires
            self.reaches(addr, (len as u32) as int),
        ensures
            bytes@ == self.contents().subrange(
                effective(addr, 0),
                effective(addr, 0) + (len as u32),
            ),
    {
        let total: usize = self.memory.byte_len();
        let start: usize = addr as u32 as usize;
        let count: usize = len as u32 as usize;
        let mut bytes: Vec<u8> = Vec::new();
        while bytes.len() < count
            invariant
                total == self.contents().len(),
                start + count <= total,
                bytes@.len() <= count,
                bytes@ == self.contents().subrange(start as int, start + bytes@.len()),
            decreases count - bytes@.len(),
        {
            let byte: u8 = self.memory.byte_at(start + bytes.len());
            bytes.push(byte);
            assert(bytes@ =~= self.contents().subrange(start as int, start + bytes@.len()));
        }
        bytes
    }

    /// Writes `bytes` at `addr`.
    pub fn write(&mut self, addr: i32, bytes: &[u8])
        requires
            old(self).reaches(addr, bytes@.len() as int),
        ensures
            final(self).contents() == splice(old(self).contents(), effective(addr, 0), bytes@),
            final(self).same_limits(old(self)),
            *final(final(self).memory) == *final(old(self).memory),
    {
        let start: u32 = addr as u32;
        let mut step: usize = 0;
        let ghost before = self.contents();
        let len: usize = self.memory.byte_len();
        assert(before =~= splice(before, start as int, bytes@.subrange(0, 0)));
        while step < bytes.len()
            invariant
                start + bytes@.len() <= before.len(),
                before.len() == len,
                step <= bytes@.len(),
                self.contents() == splice(before, start as int, bytes@.subrange(0, step as int)),
                self.same_limits(old(self)),
                *final(self.memory) == *final(old(self).memory),
            decreases bytes@.len() - step,
        {
            self.memory.set_byte_at(start as usize + step, bytes[step]);
            step = step + 1;
            assert(self.contents() =~= splice(
                before,
                start as int,
                bytes@.subrange(0, step as int),
            ));
        }
        assert(bytes@.subrange(0, step as int) =~= bytes@);
    }

    /// The NUL-terminated string at `addr`, without its terminator.
    pub fn cstring(&self, addr: i32) -> (text: Vec<u8>)
        requires
            terminated(self.contents(), effective(addr, 0)),
        ensures
            text@ == c_text(self.contents(), effective(addr, 0)),
    {
        let len: usize = self.memory.byte_len();
        let start: usize = addr as u32 as usize;
        let mut text: Vec<u8> = Vec::new();
        let mut at: usize = start;
        let ghost whole = self.contents();
        loop
            invariant
                whole == self.contents(),
                len == whole.len(),
                start == effective(addr, 0),
                start <= at,
                nul_from(whole, start as int) < len,
                nul_from(whole, at as int) == nul_from(whole, start as int),
                at <= nul_from(whole, at as int),
                text@ == whole.subrange(start as int, at as int),
            decreases len - at,
        {
            let byte: u8 = self.memory.byte_at(at);
            if byte == 0 {
                return text;
            }
            text.push(byte);
            proof {
                lemma_nul_from_bound(whole, at + 1);
                assert(text@ =~= whole.subrange(start as int, at + 1));
            }
            at = at + 1;
        }
    }

    /// The four bytes at `addr`, as the little-endian i32 the guest wrote.
    pub fn read_i32(&self, addr: i32) -> (value: i32)
        requires
            self.reaches(addr, 4),
        ensures
            value == word32(self.contents(), addr),
    {
        let bytes: Vec<u8> = self.bytes(addr, 4);
        assert(bytes@.subrange(0, 4) =~= bytes@);
        (read_le(&bytes, 0, 4) as u32) as i32
    }

    /// Writes an i32 at `addr`.
    pub fn write_i32(&mut self, addr: i32, value: i32)
        requires
            old(self).reaches(addr, 4),
        ensures
            final(self).contents() == splice(
                old(self).contents(),
                effective(addr, 0),
                i32_bytes(value),
            ),
            final(self).same_limits(old(self)),
            *final(final(self).memory) == *final(old(self).memory),
    {
        let bytes: Vec<u8> = bytes_of_i32(value);
        self.write(addr, bytes.as_slice());
    }

    /// Writes an i64 at `addr`.
    pub fn write_i64(&mut self, addr: i32, value: i64)
        requires
            old(self).reaches(addr, 8),
        ensures
            final(self).contents() == splice(
                old(self).contents(),
                effective(addr, 0),
                i64_bytes(value),
            ),
            final(self).same_limits(old(self)),
            *final(final(self).memory) == *final(old(self).memory),
    {
        let bytes: Vec<u8> = bytes_of_i64(value);
        self.write(addr, bytes.as_slice());
    }
}

/// The search for a NUL stays between where it starts and the end.
pub proof fn lemma_nul_from_bound(bytes: Seq<u8>, at: int)
    requires
        0 <= at <= bytes.len(),
    ensures
        at <= nul_from(bytes, at) <= bytes.len(),
        nul_from(bytes, at) < bytes.len() ==> bytes[nul_from(bytes, at)] == 0,
        forall|i: int| at <= i < nul_from(bytes, at) ==> bytes[i] != 0,
    decreases bytes.len() - at,
{
    if at < bytes.len() && bytes[at] != 0 {
        lemma_nul_from_bound(bytes, at + 1);
    }
}

} // verus!
