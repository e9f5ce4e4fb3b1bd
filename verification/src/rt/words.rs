//! Little-endian words as sequences of bytes.
//!
//! Everything in linear memory is bytes, and every wider value is the
//! little-endian sum of some of them. The two spec functions here say what that
//! means in both directions, and the lemmas say they undo each other.

use vstd::prelude::*;

verus! {

/// 256 to the power of `n`.
pub open spec fn pow256(n: nat) -> nat
    decreases n,
{
    if n == 0 {
        1
    } else {
        256 * pow256((n - 1) as nat)
    }
}

/// The number a run of bytes spells, lowest byte first.
pub open spec fn le_value(bytes: Seq<u8>) -> nat
    decreases bytes.len(),
{
    if bytes.len() == 0 {
        0
    } else {
        bytes[0] as nat + 256 * le_value(bytes.drop_first())
    }
}

/// The low `n` bytes of a number, lowest byte first.
pub open spec fn le_bytes(value: nat, n: nat) -> Seq<u8>
    decreases n,
{
    if n == 0 {
        Seq::empty()
    } else {
        seq![(value % 256) as u8] + le_bytes(value / 256, (n - 1) as nat)
    }
}

/// As many bytes come out as were asked for.
pub proof fn lemma_le_bytes_len(value: nat, n: nat)
    ensures
        le_bytes(value, n).len() == n,
    decreases n,
{
    if n > 0 {
        lemma_le_bytes_len(value / 256, (n - 1) as nat);
    }
}

/// What is left of the bytes of a number is the bytes of what is left of it.
pub proof fn lemma_le_bytes_rest(value: nat, n: nat)
    requires
        n > 0,
    ensures
        le_bytes(value, n).len() == n,
        le_bytes(value, n)[0] == (value % 256) as u8,
        le_bytes(value, n).drop_first() == le_bytes(value / 256, (n - 1) as nat),
{
    lemma_le_bytes_len(value, n);
    assert(le_bytes(value, n).drop_first() =~= le_bytes(value / 256, (n - 1) as nat));
}

/// A run of `n` bytes spells a number below 256 to the `n`.
pub proof fn lemma_le_value_bound(bytes: Seq<u8>)
    ensures
        le_value(bytes) < pow256(bytes.len()),
    decreases bytes.len(),
{
    if bytes.len() > 0 {
        lemma_le_value_bound(bytes.drop_first());
    }
}

/// Writing a number as `n` bytes and reading them back gives its low `n` bytes.
pub proof fn lemma_le_value_of_bytes(value: nat, n: nat)
    ensures
        le_value(le_bytes(value, n)) == value % pow256(n),
    decreases n,
{
    if n > 0 {
        let p = pow256((n - 1) as nat);
        lemma_pow256_positive((n - 1) as nat);
        lemma_le_bytes_rest(value, n);
        lemma_le_value_of_bytes(value / 256, (n - 1) as nat);
        assert(value % (256 * p) == value % 256 + 256 * ((value / 256) % p)) by {
            vstd::arithmetic::div_mod::lemma_breakdown(value as int, 256, p as int);
        }
    }
}

/// Reading bytes as a number and writing it back gives the bytes.
pub proof fn lemma_le_bytes_of_value(bytes: Seq<u8>)
    ensures
        le_bytes(le_value(bytes), bytes.len()) == bytes,
    decreases bytes.len(),
{
    if bytes.len() > 0 {
        lemma_le_bytes_of_value(bytes.drop_first());
        assert(le_bytes(le_value(bytes), bytes.len()) =~= bytes);
    }
}

/// No power of 256 is zero.
pub proof fn lemma_pow256_positive(n: nat)
    ensures
        pow256(n) > 0,
    decreases n,
{
    if n > 0 {
        lemma_pow256_positive((n - 1) as nat);
    }
}

/// A longer run of bytes reaches higher.
pub proof fn lemma_pow256_monotonic(a: nat, b: nat)
    requires
        a <= b,
    ensures
        pow256(a) <= pow256(b),
    decreases b,
{
    if a < b {
        lemma_pow256_monotonic(a, (b - 1) as nat);
    }
}

/// The powers of 256 that bound the four widths a wasm access has.
pub proof fn lemma_pow256_values()
    ensures
        pow256(0) == 1,
        pow256(1) == 0x100,
        pow256(2) == 0x1_0000,
        pow256(4) == 0x1_0000_0000,
        pow256(8) == 0x1_0000_0000_0000_0000,
{
    reveal_with_fuel(pow256, 9);
}

/// Reads `n` bytes at `at` as one number.
pub fn read_le(data: &Vec<u8>, at: usize, n: usize) -> (value: u64)
    requires
        at + n <= data.len(),
        n <= 8,
    ensures
        value == le_value(data@.subrange(at as int, at + n)),
{
    let mut value: u64 = 0;
    let mut step: usize = n;
    proof {
        lemma_pow256_values();
    }
    while step > 0
        invariant
            step <= n <= 8,
            at + n <= data.len(),
            value == le_value(data@.subrange(at + step, at + n)),
        decreases step,
    {
        proof {
            let rest = data@.subrange(at + step, at + n);
            lemma_le_value_bound(rest);
            lemma_pow256_monotonic(rest.len(), 7);
            lemma_pow256_values();
            assert(pow256(8) == 256 * pow256(7));
            let here = data@.subrange(at + step - 1, at + n);
            assert(here.drop_first() =~= rest);
        }
        step = step - 1;
        value = value * 256 + data[at + step] as u64;
    }
    value
}

/// Writes the low `n` bytes of a number at `at`.
pub fn write_le(data: &mut Vec<u8>, at: usize, n: usize, value: u64)
    requires
        at + n <= old(data).len(),
    ensures
        final(data)@ == splice(old(data)@, at as int, le_bytes(value as nat, n as nat)),
{
    let ghost spelled = le_bytes(value as nat, n as nat);
    let ghost before = data@;
    proof {
        lemma_le_bytes_len(value as nat, n as nat);
        assert(spelled.subrange(0, n as int) =~= spelled);
    }
    let mut rest: u64 = value;
    let mut step: usize = 0;
    while step < n
        invariant
            step <= n,
            at + n <= data.len(),
            data@.len() == before.len(),
            spelled.len() == n,
            spelled.subrange(step as int, n as int) == le_bytes(rest as nat, (n - step) as nat),
            forall|i: int|
                0 <= i < data@.len() ==> #[trigger] data@[i] == if at <= i < at + step {
                    spelled[i - at]
                } else {
                    before[i]
                },
        decreases n - step,
    {
        proof {
            lemma_le_bytes_rest(rest as nat, (n - step) as nat);
            let tail = spelled.subrange(step as int, n as int);
            assert(tail[0] == spelled[step as int]);
            assert(tail.drop_first() =~= spelled.subrange(step + 1, n as int));
        }
        data.set(at + step, (rest % 256) as u8);
        rest = rest / 256;
        step = step + 1;
    }
    proof {
        assert(data@ =~= splice(before, at as int, spelled));
    }
}

/// `base` with the bytes from `at` on replaced by `bytes`.
pub open spec fn splice(base: Seq<u8>, at: int, bytes: Seq<u8>) -> Seq<u8> {
    Seq::new(
        base.len(),
        |i: int|
            if at <= i < at + bytes.len() {
                bytes[i - at]
            } else {
                base[i]
            },
    )
}

} // verus!
