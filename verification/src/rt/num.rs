//! Integer division, where wasm and Rust disagree about what cannot be done.

use vstd::prelude::*;

verus! {

/// Division that rounds towards zero.
pub open spec fn quotient(lhs: int, rhs: int) -> int {
    let size = magnitude(lhs) / magnitude(rhs);
    if (lhs < 0) == (rhs < 0) {
        size
    } else {
        -size
    }
}

/// What is left after it, with the sign of the dividend.
pub open spec fn remainder(lhs: int, rhs: int) -> int {
    let size = magnitude(lhs) % magnitude(rhs);
    if lhs < 0 {
        -size
    } else {
        size
    }
}

/// The size of a number without its sign.
pub open spec fn magnitude(n: int) -> int {
    if n < 0 {
        -n
    } else {
        n
    }
}

/// The quotient and the remainder make up the dividend again.
pub proof fn quotient_and_remainder_make_the_dividend(lhs: int, rhs: int)
    requires
        rhs != 0,
    ensures
        lhs == quotient(lhs, rhs) * rhs + remainder(lhs, rhs),
        magnitude(remainder(lhs, rhs)) < magnitude(rhs),
{
    let a = magnitude(lhs);
    let b = magnitude(rhs);
    vstd::arithmetic::div_mod::lemma_fundamental_div_mod(a, b);
    vstd::arithmetic::div_mod::lemma_mod_bound(a, b);
    let q = a / b;
    assert(b * q == q * b) by (nonlinear_arith);
    assert((-q) * rhs == -(q * rhs)) by (nonlinear_arith);
    assert(q * (-rhs) == -(q * rhs)) by (nonlinear_arith);
}

/// `i32.div_s`. Zero has no quotient, and neither has the minimum divided by
/// minus one.
pub fn i32_div_s(lhs: i32, rhs: i32) -> (result: i32)
    requires
        rhs != 0,
        !(lhs == i32::MIN && rhs == -1),
    ensures
        result == quotient(lhs as int, rhs as int),
{
    proof {
        lemma_quotient_range(lhs as int, rhs as int, 0x8000_0000);
        assert(0int / magnitude(rhs as int) == 0) by (nonlinear_arith)
            requires
                magnitude(rhs as int) > 0,
        ;
    }
    match lhs.checked_div(rhs) {
        Some(result) => result,
        None => 0,
    }
}

/// `i32.div_u`
pub fn i32_div_u(lhs: i32, rhs: i32) -> (result: i32)
    requires
        rhs != 0,
    ensures
        result == ((lhs as u32) / (rhs as u32)) as i32,
{
    proof {
        lemma_nonzero_u32(rhs);
    }
    ((lhs as u32) / (rhs as u32)) as i32
}

/// `i32.rem_s`. The minimum by minus one leaves zero.
pub fn i32_rem_s(lhs: i32, rhs: i32) -> (result: i32)
    requires
        rhs != 0,
    ensures
        result == remainder(lhs as int, rhs as int),
{
    proof {
        lemma_remainder_range(lhs as int, rhs as int);
    }
    match lhs.checked_rem(rhs) {
        Some(result) => result,
        None => 0,
    }
}

/// `i32.rem_u`
pub fn i32_rem_u(lhs: i32, rhs: i32) -> (result: i32)
    requires
        rhs != 0,
    ensures
        result == ((lhs as u32) % (rhs as u32)) as i32,
{
    proof {
        lemma_nonzero_u32(rhs);
    }
    ((lhs as u32) % (rhs as u32)) as i32
}

/// `i64.div_s`
pub fn i64_div_s(lhs: i64, rhs: i64) -> (result: i64)
    requires
        rhs != 0,
        !(lhs == i64::MIN && rhs == -1),
    ensures
        result == quotient(lhs as int, rhs as int),
{
    proof {
        lemma_quotient_range(lhs as int, rhs as int, 0x8000_0000_0000_0000);
        assert(0int / magnitude(rhs as int) == 0) by (nonlinear_arith)
            requires
                magnitude(rhs as int) > 0,
        ;
    }
    match lhs.checked_div(rhs) {
        Some(result) => result,
        None => 0,
    }
}

/// `i64.div_u`
pub fn i64_div_u(lhs: i64, rhs: i64) -> (result: i64)
    requires
        rhs != 0,
    ensures
        result == ((lhs as u64) / (rhs as u64)) as i64,
{
    proof {
        lemma_nonzero_u64(rhs);
    }
    ((lhs as u64) / (rhs as u64)) as i64
}

/// `i64.rem_s`
pub fn i64_rem_s(lhs: i64, rhs: i64) -> (result: i64)
    requires
        rhs != 0,
    ensures
        result == remainder(lhs as int, rhs as int),
{
    proof {
        lemma_remainder_range(lhs as int, rhs as int);
    }
    match lhs.checked_rem(rhs) {
        Some(result) => result,
        None => 0,
    }
}

/// `i64.rem_u`
pub fn i64_rem_u(lhs: i64, rhs: i64) -> (result: i64)
    requires
        rhs != 0,
    ensures
        result == ((lhs as u64) % (rhs as u64)) as i64,
{
    proof {
        lemma_nonzero_u64(rhs);
    }
    ((lhs as u64) % (rhs as u64)) as i64
}

/// A quotient fits where its dividend does, but for the one that does not.
proof fn lemma_quotient_range(lhs: int, rhs: int, bound: int)
    requires
        rhs != 0,
        -bound <= lhs < bound,
        !(lhs == -bound && rhs == -1),
    ensures
        -bound <= quotient(lhs, rhs) < bound,
{
    let a = magnitude(lhs);
    let b = magnitude(rhs);
    vstd::arithmetic::div_mod::lemma_div_nonincreasing(a, b);
    vstd::arithmetic::div_mod::lemma_div_pos_is_pos(a, b);
    if lhs == -bound && rhs < 0 {
        assert(a / b < a) by (nonlinear_arith)
            requires
                a > 0,
                b >= 2,
        ;
    }
}

/// A remainder is no larger than its dividend, and zero by minus one.
proof fn lemma_remainder_range(lhs: int, rhs: int)
    requires
        rhs != 0,
    ensures
        -magnitude(lhs) <= remainder(lhs, rhs) <= magnitude(lhs),
        rhs == -1 ==> remainder(lhs, rhs) == 0,
        remainder(0, rhs) == 0,
{
    let a = magnitude(lhs);
    let b = magnitude(rhs);
    vstd::arithmetic::div_mod::lemma_mod_bound(a, b);
    vstd::arithmetic::div_mod::lemma_mod_decreases(a as nat, b as nat);
    vstd::arithmetic::div_mod::lemma_small_mod(0, b as nat);
    if rhs == -1 {
        assert(a % 1 == 0);
    }
}

/// A nonzero number is nonzero read as unsigned.
proof fn lemma_nonzero_u32(n: i32)
    by (bit_vector)
    requires
        n != 0,
    ensures
        n as u32 != 0,
{
}

/// A nonzero number is nonzero read as unsigned.
proof fn lemma_nonzero_u64(n: i64)
    by (bit_vector)
    requires
        n != 0,
    ensures
        n as u64 != 0,
{
}

} // verus!
