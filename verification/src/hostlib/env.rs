//! The environment, the arguments, random bytes and the clock.

use vstd::prelude::*;
use vstd::utf8::encode_utf8;
use crate::hostlib::errno;
use crate::hostlib::wasi::{append_bytes, copy_bytes, Wasi, WasiModel};
use crate::rt::access::{effective, fits, Access};
use crate::rt::caller::{bytes_of_i64, i32_bytes, i64_bytes, Caller};
use crate::rt::words::{le_bytes, splice};
use crate::text::pieces::texts;

verus! {

// ---- lists of strings ----

/// A text as C has it: its bytes and a NUL.
pub open spec fn c_bytes(text: Seq<char>) -> Seq<u8> {
    encode_utf8(text).push(0)
}

/// How many bytes texts take, each with its NUL.
pub open spec fn c_length(list: Seq<Seq<char>>) -> nat
    decreases list.len(),
{
    if list.len() == 0 {
        0
    } else {
        c_length(list.drop_last()) + c_bytes(list.last()).len()
    }
}

/// Where the text after the first `n` goes: they are laid out end to end.
pub open spec fn text_place(list: Seq<Seq<char>>, buffer: i32, n: int) -> i32
    decreases n,
{
    if n <= 0 {
        buffer
    } else {
        text_place(list, buffer, n - 1).wrapping_add(
            (c_bytes(list[n - 1]).len() as usize) as i32,
        )
    }
}

/// Where the `n`th pointer goes.
pub open spec fn pointer_place(pointers: i32, n: int) -> i32 {
    pointers.wrapping_add((n as i32).wrapping_mul(4))
}

/// Memory with the first `n` texts laid out: the pointers, and the strings they
/// point at.
pub open spec fn laid_out(
    memory: Seq<u8>,
    list: Seq<Seq<char>>,
    pointers: i32,
    buffer: i32,
    n: int,
) -> Seq<u8>
    decreases n,
{
    if n <= 0 {
        memory
    } else {
        let before = laid_out(memory, list, pointers, buffer, n - 1);
        let at = text_place(list, buffer, n - 1);
        splice(
            splice(before, effective(pointer_place(pointers, n - 1), 0), i32_bytes(at)),
            effective(at, 0),
            c_bytes(list[n - 1]),
        )
    }
}

/// Whether texts and their pointers lie inside the memory.
pub open spec fn layout_fits(len: nat, list: Seq<Seq<char>>, pointers: i32, buffer: i32) -> bool {
    forall|n: int|
        0 <= n < list.len() ==> fits(len, #[trigger] pointer_place(pointers, n), 0, 4) && fits(
            len,
            text_place(list, buffer, n),
            0,
            c_bytes(list[n]).len() as int,
        )
}

/// Memory with the count and the size of some texts written.
pub open spec fn sized(memory: Seq<u8>, list: Seq<Seq<char>>, count: i32, size: i32) -> Seq<u8> {
    splice(
        splice(memory, effective(count, 0), i32_bytes((list.len() as usize) as i32)),
        effective(size, 0),
        i32_bytes((c_length(list) as usize) as i32),
    )
}

/// The bytes of a text as C has it.
fn bytes_for_c(text: &String) -> (bytes: Vec<u8>)
    ensures
        bytes@ == c_bytes(text@),
{
    let mut bytes: Vec<u8> = copy_bytes(text.as_str().as_bytes());
    bytes.push(0);
    bytes
}

/// How many bytes fewer texts take.
proof fn lemma_c_length(list: Seq<Seq<char>>, n: int)
    requires
        0 <= n <= list.len(),
    ensures
        c_length(list.take(n)) <= c_length(list),
    decreases list.len(),
{
    if n < list.len() {
        assert(list.drop_last().take(n) =~= list.take(n));
        lemma_c_length(list.drop_last(), n);
    } else {
        assert(list.take(n) =~= list);
    }
}

/// Writes how many texts there are, and how many bytes they need.
fn write_sizes<M: Access>(
    caller: &mut Caller<'_, M>,
    list: &Vec<String>,
    count: i32,
    size: i32,
)
    requires
        c_length(texts(list@)) <= usize::MAX,
        old(caller).reaches(count, 4),
        old(caller).reaches(size, 4),
    ensures
        final(caller).contents() == sized(old(caller).contents(), texts(list@), count, size),
        final(caller).same_limits(old(caller)),
        *final(final(caller).memory) == *final(old(caller).memory),
{
    let mut total: usize = 0;
    let ghost all = texts(list@);
    let mut i: usize = 0;
    assert(all.take(0) =~= Seq::empty());
    while i < list.len()
        invariant
            i <= list@.len(),
            all == texts(list@),
            c_length(all) <= usize::MAX,
            total == c_length(all.take(i as int)),
        decreases list@.len() - i,
    {
        proof {
            assert(all.take(i + 1).drop_last() =~= all.take(i as int));
            assert(all.take(i + 1).last() == list@[i as int]@);
            lemma_c_length(all, i + 1);
        }
        total = total + list[i].as_str().len() + 1;
        i = i + 1;
    }
    assert(all.take(i as int) =~= all);
    caller.write_i32(count, list.len() as i32);
    caller.write_i32(size, total as i32);
}

/// Lays texts out: the pointers, and the strings they point at.
fn write_layout<M: Access>(
    caller: &mut Caller<'_, M>,
    list: &Vec<String>,
    pointers: i32,
    buffer: i32,
)
    requires
        layout_fits(old(caller).contents().len(), texts(list@), pointers, buffer),
    ensures
        final(caller).contents() == laid_out(
            old(caller).contents(),
            texts(list@),
            pointers,
            buffer,
            list@.len() as int,
        ),
        final(caller).same_limits(old(caller)),
        *final(final(caller).memory) == *final(old(caller).memory),
{
    let ghost memory = caller.contents();
    let ghost all = texts(list@);
    let mut at: i32 = buffer;
    let mut i: usize = 0;
    while i < list.len()
        invariant
            i <= list@.len(),
            all == texts(list@),
            layout_fits(memory.len(), all, pointers, buffer),
            at == text_place(all, buffer, i as int),
            caller.contents() == laid_out(memory, all, pointers, buffer, i as int),
            caller.contents().len() == memory.len(),
            caller.same_limits(old(caller)),
            *final(caller.memory) == *final(old(caller).memory),
        decreases list@.len() - i,
    {
        assert(all[i as int] == list@[i as int]@);
        let pointer: i32 = pointers.wrapping_add((i as i32).wrapping_mul(4));
        assert(pointer == pointer_place(pointers, i as int));
        let bytes: Vec<u8> = bytes_for_c(&list[i]);
        caller.write_i32(pointer, at);
        caller.write(at, bytes.as_slice());
        at = at.wrapping_add(bytes.len() as i32);
        i = i + 1;
    }
}

// ---- randomness ----

/// The state after another: xorshift64*.
pub open spec fn next_state(state: u64) -> u64 {
    let a = state ^ (state >> 12);
    let b = a ^ (a << 25);
    b ^ (b >> 27)
}

/// The number a state gives.
pub open spec fn number_from(state: u64) -> u64 {
    state.wrapping_mul(0x2545_F491_4F6C_DD1D)
}

/// The state after `n` more.
pub open spec fn state_after(state: u64, n: nat) -> u64
    decreases n,
{
    if n == 0 {
        state
    } else {
        next_state(state_after(state, (n - 1) as nat))
    }
}

/// The bytes of the first `n` numbers from a seed.
pub open spec fn random_bytes(state: u64, n: nat) -> Seq<u8>
    decreases n,
{
    if n == 0 {
        Seq::empty()
    } else {
        random_bytes(state, (n - 1) as nat) + le_bytes(
            number_from(state_after(state, n)) as nat,
            8,
        )
    }
}

/// How many numbers it takes for so many bytes.
pub open spec fn numbers_for(length: nat) -> nat {
    (length + 7) / 8
}

/// A seed gives eight bytes a number.
pub proof fn lemma_random_len(state: u64, n: nat)
    ensures
        random_bytes(state, n).len() == 8 * n,
    decreases n,
{
    if n > 0 {
        lemma_random_len(state, (n - 1) as nat);
        crate::rt::words::lemma_le_bytes_len(number_from(state_after(state, n)) as nat, 8);
    }
}

impl Wasi {
    /// The next pseudo-random `u64`. Deterministic on purpose, so that two runs of
    /// the same module produce the same bytes.
    fn next_random(&mut self) -> (number: u64)
        ensures
            final(self).files == old(self).files,
            final(self)@ == (WasiModel { random: next_state(old(self)@.random), ..old(self)@ }),
            number == number_from(next_state(old(self)@.random)),
    {
        let mut state: u64 = self.random;
        state = state ^ (state >> 12);
        state = state ^ (state << 25);
        state = state ^ (state >> 27);
        self.random = state;
        state.wrapping_mul(0x2545_F491_4F6C_DD1D)
    }

    /// `random_get`, from the seeded generator.
    pub fn random_get<M: Access>(
        &mut self,
        caller: &mut Caller<'_, M>,
        buffer: i32,
        length: i32,
    ) -> (errno: i32)
        requires
            old(caller).reaches(buffer, (length as u32) as int),
        ensures
            errno == errno::SUCCESS,
            final(self).files == old(self).files,
            ({
                let n = numbers_for((length as u32) as nat);
                let bytes = random_bytes(old(self)@.random, n).take((length as u32) as int);
                &&& final(self)@ == (WasiModel {
                    random: state_after(old(self)@.random, n),
                    ..old(self)@
                })
                &&& final(caller).contents() == splice(
                    old(caller).contents(),
                    effective(buffer, 0),
                    bytes,
                )
            }),
            final(caller).same_limits(old(caller)),
            *final(final(caller).memory) == *final(old(caller).memory),
    {
        let wanted: usize = length as u32 as usize;
        let ghost seed = self@.random;
        let ghost mut n: nat = 0;
        let mut bytes: Vec<u8> = Vec::new();
        while bytes.len() < wanted
            invariant
                wanted == length as u32,
                bytes@ == random_bytes(seed, n),
                bytes@.len() == 8 * n,
                bytes@.len() < wanted + 8,
                seed == old(self)@.random,
                self.files == old(self).files,
                self@ == (WasiModel { random: state_after(seed, n), ..old(self)@ }),
            decreases wanted + 8 - bytes@.len(),
        {
            let number: u64 = self.next_random();
            let eight: Vec<u8> = bytes_of_i64(number as i64);
            proof {
                lemma_signed_round_trip(number);
                n = n + 1;
            }
            append_bytes(&mut bytes, eight.as_slice());
        }
        proof {
            assert(n == numbers_for(wanted as nat));
        }
        let ghost all = bytes@;
        bytes.truncate(wanted);
        assert(bytes@ =~= all.take(wanted as int));
        caller.write(buffer, bytes.as_slice());
        errno::SUCCESS
    }

    /// `clock_time_get`, in nanoseconds, from [`Self::now_nanoseconds`].
    pub fn clock_time_get<M: Access>(&self, caller: &mut Caller<'_, M>, out: i32) -> (errno: i32)
        requires
            old(caller).reaches(out, 8),
        ensures
            errno == errno::SUCCESS,
            final(caller).contents() == splice(
                old(caller).contents(),
                effective(out, 0),
                i64_bytes(self@.now_nanoseconds),
            ),
            final(caller).same_limits(old(caller)),
            *final(final(caller).memory) == *final(old(caller).memory),
    {
        caller.write_i64(out, self.now_nanoseconds);
        errno::SUCCESS
    }

    /// `environ_sizes_get`: how many entries, and how many bytes they need.
    pub fn environ_sizes_get<M: Access>(
        &self,
        caller: &mut Caller<'_, M>,
        count: i32,
        size: i32,
    ) -> (errno: i32)
        requires
            c_length(self@.environment) <= usize::MAX,
            old(caller).reaches(count, 4),
            old(caller).reaches(size, 4),
        ensures
            errno == errno::SUCCESS,
            final(caller).contents() == sized(
                old(caller).contents(),
                self@.environment,
                count,
                size,
            ),
            final(caller).same_limits(old(caller)),
            *final(final(caller).memory) == *final(old(caller).memory),
    {
        write_sizes(caller, &self.environment, count, size);
        errno::SUCCESS
    }

    /// `environ_get`: the pointers, then the strings they point at.
    pub fn environ_get<M: Access>(
        &self,
        caller: &mut Caller<'_, M>,
        pointers: i32,
        buffer: i32,
    ) -> (errno: i32)
        requires
            layout_fits(old(caller).contents().len(), self@.environment, pointers, buffer),
        ensures
            errno == errno::SUCCESS,
            final(caller).contents() == laid_out(
                old(caller).contents(),
                self@.environment,
                pointers,
                buffer,
                self@.environment.len() as int,
            ),
            final(caller).same_limits(old(caller)),
            *final(final(caller).memory) == *final(old(caller).memory),
    {
        write_layout(caller, &self.environment, pointers, buffer);
        errno::SUCCESS
    }

    /// `args_sizes_get`.
    pub fn args_sizes_get<M: Access>(
        &self,
        caller: &mut Caller<'_, M>,
        count: i32,
        size: i32,
    ) -> (errno: i32)
        requires
            c_length(self@.arguments) <= usize::MAX,
            old(caller).reaches(count, 4),
            old(caller).reaches(size, 4),
        ensures
            errno == errno::SUCCESS,
            final(caller).contents() == sized(old(caller).contents(), self@.arguments, count, size),
            final(caller).same_limits(old(caller)),
            *final(final(caller).memory) == *final(old(caller).memory),
    {
        write_sizes(caller, &self.arguments, count, size);
        errno::SUCCESS
    }

    /// `args_get`.
    pub fn args_get<M: Access>(
        &self,
        caller: &mut Caller<'_, M>,
        pointers: i32,
        buffer: i32,
    ) -> (errno: i32)
        requires
            layout_fits(old(caller).contents().len(), self@.arguments, pointers, buffer),
        ensures
            errno == errno::SUCCESS,
            final(caller).contents() == laid_out(
                old(caller).contents(),
                self@.arguments,
                pointers,
                buffer,
                self@.arguments.len() as int,
            ),
            final(caller).same_limits(old(caller)),
            *final(final(caller).memory) == *final(old(caller).memory),
    {
        write_layout(caller, &self.arguments, pointers, buffer);
        errno::SUCCESS
    }
}

/// A number survives being taken for a signed one.
proof fn lemma_signed_round_trip(number: u64)
    by (bit_vector)
    ensures
        number as i64 as u64 == number,
{
}

} // verus!
