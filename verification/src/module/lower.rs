//! Operators, narrowed to instructions.

use vstd::prelude::*;
use crate::error::{Error, Failure};
use crate::module::model::Instruction;
use crate::module::operator::{
    Operator, immediate, number, read_immediate, read_number, spelled, value_of, words_of,
};
use crate::module::types::{
    Atomic, AtomicKind, BlockType, LoadKind, MemArg, Op, RmwKind, StoreKind, ValType,
};
use crate::ops::table::{num_op, op_named};
use crate::text::pieces::same_as;

verus! {

/// The value type a word spells, or why there is none.
pub open spec fn val_type(word: Seq<char>, location: Seq<char>) -> Result<ValType, Failure> {
    if word == "I32"@ {
        Ok(ValType::I32)
    } else if word == "I64"@ {
        Ok(ValType::I64)
    } else if word == "F32"@ {
        Ok(ValType::F32)
    } else if word == "F64"@ {
        Ok(ValType::F64)
    } else if word == "V128"@ {
        Err(Failure::Unsupported("v128 (SIMD)"@, location))
    } else {
        Err(Failure::Unsupported("reference type"@, location))
    }
}

/// A result whose failure is given as what it says.
pub open spec fn said<T>(result: Result<T, Error>) -> Result<T, Failure> {
    match result {
        Ok(value) => Ok(value),
        Err(error) => Err(error@),
    }
}

/// Lowers a value type.
pub fn lower_val_type(word: &Vec<char>, location: &str) -> (ty: Result<ValType, Error>)
    ensures
        said(ty) == val_type(word@, location@),
{
    if same_as(word, "I32") {
        Ok(ValType::I32)
    } else if same_as(word, "I64") {
        Ok(ValType::I64)
    } else if same_as(word, "F32") {
        Ok(ValType::F32)
    } else if same_as(word, "F64") {
        Ok(ValType::F64)
    } else if same_as(word, "V128") {
        Err(Error::unsupported("v128 (SIMD)", location))
    } else {
        Err(Error::unsupported("reference type", location))
    }
}

/// An immediate that is an index.
pub open spec fn index_of(words: Seq<Seq<char>>, key: Seq<char>) -> Option<u32> {
    match immediate(words, key) {
        Some(value) => if 0 <= value <= u32::MAX {
            Some(value as u32)
        } else {
            None
        },
        None => None,
    }
}

/// An immediate that is an index.
pub fn read_index(words: &Vec<Vec<char>>, key: &str) -> (index: Option<u32>)
    ensures
        index == index_of(spelled(words@), key@),
{
    match read_immediate(words, key) {
        Some(value) => if 0 <= value && value <= u32::MAX as i128 {
            Some(value as u32)
        } else {
            None
        },
        None => None,
    }
}

/// The number of a word, if it is an index.
pub open spec fn word_index(word: Seq<char>) -> Option<u32> {
    match number(word) {
        Some(value) => if 0 <= value <= u32::MAX {
            Some(value as u32)
        } else {
            None
        },
        None => None,
    }
}

/// The number of a word, if it is an index.
fn read_word_index(word: &Vec<char>) -> (index: Option<u32>)
    ensures
        index == word_index(word@),
{
    match read_number(word) {
        Some(value) => if 0 <= value && value <= u32::MAX as i128 {
            Some(value as u32)
        } else {
            None
        },
        None => None,
    }
}

/// A signed 32-bit immediate.
pub open spec fn i32_of(words: Seq<Seq<char>>, key: Seq<char>) -> Option<i32> {
    match immediate(words, key) {
        Some(value) => if i32::MIN <= value <= i32::MAX {
            Some(value as i32)
        } else {
            None
        },
        None => None,
    }
}

/// A signed 32-bit immediate.
pub fn read_i32(words: &Vec<Vec<char>>, key: &str) -> (value: Option<i32>)
    ensures
        value == i32_of(spelled(words@), key@),
{
    match read_immediate(words, key) {
        Some(value) => if i32::MIN as i128 <= value && value <= i32::MAX as i128 {
            Some(value as i32)
        } else {
            None
        },
        None => None,
    }
}

/// A signed 64-bit immediate.
pub open spec fn i64_of(words: Seq<Seq<char>>, key: Seq<char>) -> Option<i64> {
    match immediate(words, key) {
        Some(value) => if i64::MIN <= value <= i64::MAX {
            Some(value as i64)
        } else {
            None
        },
        None => None,
    }
}

/// A signed 64-bit immediate.
pub fn read_i64(words: &Vec<Vec<char>>, key: &str) -> (value: Option<i64>)
    ensures
        value == i64_of(spelled(words@), key@),
{
    match read_immediate(words, key) {
        Some(value) => if i64::MIN as i128 <= value && value <= i64::MAX as i128 {
            Some(value as i64)
        } else {
            None
        },
        None => None,
    }
}

/// An unsigned 64-bit immediate.
pub open spec fn u64_of(words: Seq<Seq<char>>, key: Seq<char>) -> Option<u64> {
    match immediate(words, key) {
        Some(value) => if 0 <= value <= u64::MAX {
            Some(value as u64)
        } else {
            None
        },
        None => None,
    }
}

/// An unsigned 64-bit immediate.
pub fn read_u64(words: &Vec<Vec<char>>, key: &str) -> (value: Option<u64>)
    ensures
        value == u64_of(spelled(words@), key@),
{
    match read_immediate(words, key) {
        Some(value) => if 0 <= value && value <= u64::MAX as i128 {
            Some(value as u64)
        } else {
            None
        },
        None => None,
    }
}

/// A construct that is reported rather than skipped.
pub open spec fn unknown<T>(text: Seq<char>, location: Seq<char>) -> Result<T, Failure> {
    Err(Failure::Unsupported(text, location))
}

/// The block type an operator carries: nothing, a value type, or an index into
/// the type section.
pub open spec fn block_type(
    words: Seq<Seq<char>>,
    text: Seq<char>,
    location: Seq<char>,
) -> Result<BlockType, Failure> {
    match value_of(words, "blockty"@) {
        Some(kind) => if kind == "Empty"@ {
            Ok(BlockType::Empty)
        } else if kind == "Type"@ {
            match value_of(words, "Type"@) {
                Some(word) => match val_type(word, location) {
                    Ok(ty) => Ok(BlockType::Value(ty)),
                    Err(failure) => Err(failure),
                },
                None => unknown(text, location),
            }
        } else {
            match index_of(words, "FuncType"@) {
                Some(index) => Ok(BlockType::Func(index)),
                None => unknown(text, location),
            }
        },
        None => unknown(text, location),
    }
}

/// Lowers the block type an operator carries.
fn lower_block_type(words: &Vec<Vec<char>>, text: &str, location: &str) -> (ty: Result<
    BlockType,
    Error,
>)
    ensures
        said(ty) == block_type(spelled(words@), text@, location@),
{
    match crate::module::operator::find_value(words, "blockty") {
        Some(at) => if same_as(&words[at], "Empty") {
            Ok(BlockType::Empty)
        } else if same_as(&words[at], "Type") {
            match crate::module::operator::find_value(words, "Type") {
                Some(at) => match lower_val_type(&words[at], location) {
                    Ok(ty) => Ok(BlockType::Value(ty)),
                    Err(error) => Err(error),
                },
                None => Err(Error::unsupported(text, location)),
            }
        } else {
            match read_index(words, "FuncType") {
                Some(index) => Ok(BlockType::Func(index)),
                None => Err(Error::unsupported(text, location)),
            }
        },
        None => Err(Error::unsupported(text, location)),
    }
}

/// The offset an access carries, which must be to memory 0.
pub open spec fn memarg(
    words: Seq<Seq<char>>,
    text: Seq<char>,
    location: Seq<char>,
) -> Result<MemArg, Failure> {
    match (index_of(words, "memory"@), u64_of(words, "offset"@)) {
        (Some(memory), Some(offset)) => if memory != 0 {
            Err(Failure::Unsupported("access to a memory other than 0"@, location))
        } else {
            Ok(MemArg { offset })
        },
        _ => unknown(text, location),
    }
}

/// Lowers the offset an access carries.
fn lower_memarg(words: &Vec<Vec<char>>, text: &str, location: &str) -> (mem: Result<MemArg, Error>)
    ensures
        said(mem) == memarg(spelled(words@), text@, location@),
{
    match (read_index(words, "memory"), read_u64(words, "offset")) {
        (Some(memory), Some(offset)) => if memory != 0 {
            Err(Error::unsupported("access to a memory other than 0", location))
        } else {
            Ok(MemArg { offset })
        },
        _ => Err(Error::unsupported(text, location)),
    }
}

/// The targets of a branch table: the numbers from the ninth word on.
pub open spec fn targets_from(words: Seq<Seq<char>>, at: int) -> Option<Seq<u32>>
    decreases words.len() - at,
{
    if at >= words.len() {
        Some(Seq::empty())
    } else {
        match (word_index(words[at]), targets_from(words, at + 1)) {
            (Some(first), Some(rest)) => Some(seq![first] + rest),
            _ => None,
        }
    }
}

/// The targets of a branch table.
fn read_targets(words: &Vec<Vec<char>>) -> (targets: Option<Vec<u32>>)
    ensures
        match targets {
            Some(targets) => targets_from(spelled(words@), 8) == Some(targets@),
            None => targets_from(spelled(words@), 8) is None,
        },
{
    let mut targets: Vec<u32> = Vec::new();
    let mut at: usize = 8;
    let ghost all = spelled(words@);
    proof {
        if targets_from(all, 8) is Some {
            assert(targets@ + targets_from(all, 8)->0 =~= targets_from(all, 8)->0);
        }
    }
    while at < words.len()
        invariant
            all == spelled(words@),
            8 <= at,
            targets_from(all, 8) is Some == targets_from(all, at as int) is Some,
            targets_from(all, 8) is Some ==> targets@ + targets_from(all, at as int)->0
                == targets_from(all, 8)->0,
        decreases words@.len() - at,
    {
        assert(all[at as int] == words@[at as int]@);
        match read_word_index(&words[at]) {
            Some(target) => {
                proof {
                    if targets_from(all, 8) is Some {
                        let rest = targets_from(all, at + 1)->0;
                        assert(targets@.push(target) + rest =~= targets@ + (seq![target] + rest));
                    }
                }
                targets.push(target);
            },
            None => {
                return None;
            },
        }
        at = at + 1;
    }
    proof {
        if targets_from(all, 8) is Some {
            assert(targets@ + targets_from(all, at as int)->0 =~= targets@);
        }
    }
    Some(targets)
}

/// What an atomic operator does, by its name: what it is, the type it is done to
/// and the bytes it touches.
pub open spec fn atomic_named(name: Seq<char>) -> Option<Atomic> {
    if name == "I32AtomicLoad"@ {
        Some(Atomic { kind: AtomicKind::Load, ty: ValType::I32, width: 4 })
    } else if name == "I32AtomicLoad8U"@ {
        Some(Atomic { kind: AtomicKind::Load, ty: ValType::I32, width: 1 })
    } else if name == "I32AtomicLoad16U"@ {
        Some(Atomic { kind: AtomicKind::Load, ty: ValType::I32, width: 2 })
    } else if name == "I64AtomicLoad"@ {
        Some(Atomic { kind: AtomicKind::Load, ty: ValType::I64, width: 8 })
    } else if name == "I64AtomicLoad8U"@ {
        Some(Atomic { kind: AtomicKind::Load, ty: ValType::I64, width: 1 })
    } else if name == "I64AtomicLoad16U"@ {
        Some(Atomic { kind: AtomicKind::Load, ty: ValType::I64, width: 2 })
    } else if name == "I64AtomicLoad32U"@ {
        Some(Atomic { kind: AtomicKind::Load, ty: ValType::I64, width: 4 })
    } else if name == "I32AtomicStore"@ {
        Some(Atomic { kind: AtomicKind::Store, ty: ValType::I32, width: 4 })
    } else if name == "I32AtomicStore8"@ {
        Some(Atomic { kind: AtomicKind::Store, ty: ValType::I32, width: 1 })
    } else if name == "I32AtomicStore16"@ {
        Some(Atomic { kind: AtomicKind::Store, ty: ValType::I32, width: 2 })
    } else if name == "I64AtomicStore"@ {
        Some(Atomic { kind: AtomicKind::Store, ty: ValType::I64, width: 8 })
    } else if name == "I64AtomicStore8"@ {
        Some(Atomic { kind: AtomicKind::Store, ty: ValType::I64, width: 1 })
    } else if name == "I64AtomicStore16"@ {
        Some(Atomic { kind: AtomicKind::Store, ty: ValType::I64, width: 2 })
    } else if name == "I64AtomicStore32"@ {
        Some(Atomic { kind: AtomicKind::Store, ty: ValType::I64, width: 4 })
    } else if name == "I32AtomicRmwAdd"@ {
        Some(Atomic { kind: AtomicKind::Rmw(RmwKind::Add), ty: ValType::I32, width: 4 })
    } else if name == "I32AtomicRmwSub"@ {
        Some(Atomic { kind: AtomicKind::Rmw(RmwKind::Sub), ty: ValType::I32, width: 4 })
    } else if name == "I32AtomicRmwAnd"@ {
        Some(Atomic { kind: AtomicKind::Rmw(RmwKind::And), ty: ValType::I32, width: 4 })
    } else if name == "I32AtomicRmwOr"@ {
        Some(Atomic { kind: AtomicKind::Rmw(RmwKind::Or), ty: ValType::I32, width: 4 })
    } else if name == "I32AtomicRmwXor"@ {
        Some(Atomic { kind: AtomicKind::Rmw(RmwKind::Xor), ty: ValType::I32, width: 4 })
    } else if name == "I32AtomicRmwXchg"@ {
        Some(Atomic { kind: AtomicKind::Rmw(RmwKind::Xchg), ty: ValType::I32, width: 4 })
    } else if name == "I32AtomicRmwCmpxchg"@ {
        Some(Atomic { kind: AtomicKind::Cmpxchg, ty: ValType::I32, width: 4 })
    } else if name == "I32AtomicRmw8AddU"@ {
        Some(Atomic { kind: AtomicKind::Rmw(RmwKind::Add), ty: ValType::I32, width: 1 })
    } else if name == "I32AtomicRmw8SubU"@ {
        Some(Atomic { kind: AtomicKind::Rmw(RmwKind::Sub), ty: ValType::I32, width: 1 })
    } else if name == "I32AtomicRmw8AndU"@ {
        Some(Atomic { kind: AtomicKind::Rmw(RmwKind::And), ty: ValType::I32, width: 1 })
    } else if name == "I32AtomicRmw8OrU"@ {
        Some(Atomic { kind: AtomicKind::Rmw(RmwKind::Or), ty: ValType::I32, width: 1 })
    } else if name == "I32AtomicRmw8XorU"@ {
        Some(Atomic { kind: AtomicKind::Rmw(RmwKind::Xor), ty: ValType::I32, width: 1 })
    } else if name == "I32AtomicRmw8XchgU"@ {
        Some(Atomic { kind: AtomicKind::Rmw(RmwKind::Xchg), ty: ValType::I32, width: 1 })
    } else if name == "I32AtomicRmw8CmpxchgU"@ {
        Some(Atomic { kind: AtomicKind::Cmpxchg, ty: ValType::I32, width: 1 })
    } else if name == "I32AtomicRmw16AddU"@ {
        Some(Atomic { kind: AtomicKind::Rmw(RmwKind::Add), ty: ValType::I32, width: 2 })
    } else if name == "I32AtomicRmw16SubU"@ {
        Some(Atomic { kind: AtomicKind::Rmw(RmwKind::Sub), ty: ValType::I32, width: 2 })
    } else if name == "I32AtomicRmw16AndU"@ {
        Some(Atomic { kind: AtomicKind::Rmw(RmwKind::And), ty: ValType::I32, width: 2 })
    } else if name == "I32AtomicRmw16OrU"@ {
        Some(Atomic { kind: AtomicKind::Rmw(RmwKind::Or), ty: ValType::I32, width: 2 })
    } else if name == "I32AtomicRmw16XorU"@ {
        Some(Atomic { kind: AtomicKind::Rmw(RmwKind::Xor), ty: ValType::I32, width: 2 })
    } else if name == "I32AtomicRmw16XchgU"@ {
        Some(Atomic { kind: AtomicKind::Rmw(RmwKind::Xchg), ty: ValType::I32, width: 2 })
    } else if name == "I32AtomicRmw16CmpxchgU"@ {
        Some(Atomic { kind: AtomicKind::Cmpxchg, ty: ValType::I32, width: 2 })
    } else if name == "I64AtomicRmwAdd"@ {
        Some(Atomic { kind: AtomicKind::Rmw(RmwKind::Add), ty: ValType::I64, width: 8 })
    } else if name == "I64AtomicRmwSub"@ {
        Some(Atomic { kind: AtomicKind::Rmw(RmwKind::Sub), ty: ValType::I64, width: 8 })
    } else if name == "I64AtomicRmwAnd"@ {
        Some(Atomic { kind: AtomicKind::Rmw(RmwKind::And), ty: ValType::I64, width: 8 })
    } else if name == "I64AtomicRmwOr"@ {
        Some(Atomic { kind: AtomicKind::Rmw(RmwKind::Or), ty: ValType::I64, width: 8 })
    } else if name == "I64AtomicRmwXor"@ {
        Some(Atomic { kind: AtomicKind::Rmw(RmwKind::Xor), ty: ValType::I64, width: 8 })
    } else if name == "I64AtomicRmwXchg"@ {
        Some(Atomic { kind: AtomicKind::Rmw(RmwKind::Xchg), ty: ValType::I64, width: 8 })
    } else if name == "I64AtomicRmwCmpxchg"@ {
        Some(Atomic { kind: AtomicKind::Cmpxchg, ty: ValType::I64, width: 8 })
    } else if name == "I64AtomicRmw8AddU"@ {
        Some(Atomic { kind: AtomicKind::Rmw(RmwKind::Add), ty: ValType::I64, width: 1 })
    } else if name == "I64AtomicRmw8SubU"@ {
        Some(Atomic { kind: AtomicKind::Rmw(RmwKind::Sub), ty: ValType::I64, width: 1 })
    } else if name == "I64AtomicRmw8AndU"@ {
        Some(Atomic { kind: AtomicKind::Rmw(RmwKind::And), ty: ValType::I64, width: 1 })
    } else if name == "I64AtomicRmw8OrU"@ {
        Some(Atomic { kind: AtomicKind::Rmw(RmwKind::Or), ty: ValType::I64, width: 1 })
    } else if name == "I64AtomicRmw8XorU"@ {
        Some(Atomic { kind: AtomicKind::Rmw(RmwKind::Xor), ty: ValType::I64, width: 1 })
    } else if name == "I64AtomicRmw8XchgU"@ {
        Some(Atomic { kind: AtomicKind::Rmw(RmwKind::Xchg), ty: ValType::I64, width: 1 })
    } else if name == "I64AtomicRmw8CmpxchgU"@ {
        Some(Atomic { kind: AtomicKind::Cmpxchg, ty: ValType::I64, width: 1 })
    } else if name == "I64AtomicRmw16AddU"@ {
        Some(Atomic { kind: AtomicKind::Rmw(RmwKind::Add), ty: ValType::I64, width: 2 })
    } else if name == "I64AtomicRmw16SubU"@ {
        Some(Atomic { kind: AtomicKind::Rmw(RmwKind::Sub), ty: ValType::I64, width: 2 })
    } else if name == "I64AtomicRmw16AndU"@ {
        Some(Atomic { kind: AtomicKind::Rmw(RmwKind::And), ty: ValType::I64, width: 2 })
    } else if name == "I64AtomicRmw16OrU"@ {
        Some(Atomic { kind: AtomicKind::Rmw(RmwKind::Or), ty: ValType::I64, width: 2 })
    } else if name == "I64AtomicRmw16XorU"@ {
        Some(Atomic { kind: AtomicKind::Rmw(RmwKind::Xor), ty: ValType::I64, width: 2 })
    } else if name == "I64AtomicRmw16XchgU"@ {
        Some(Atomic { kind: AtomicKind::Rmw(RmwKind::Xchg), ty: ValType::I64, width: 2 })
    } else if name == "I64AtomicRmw16CmpxchgU"@ {
        Some(Atomic { kind: AtomicKind::Cmpxchg, ty: ValType::I64, width: 2 })
    } else if name == "I64AtomicRmw32AddU"@ {
        Some(Atomic { kind: AtomicKind::Rmw(RmwKind::Add), ty: ValType::I64, width: 4 })
    } else if name == "I64AtomicRmw32SubU"@ {
        Some(Atomic { kind: AtomicKind::Rmw(RmwKind::Sub), ty: ValType::I64, width: 4 })
    } else if name == "I64AtomicRmw32AndU"@ {
        Some(Atomic { kind: AtomicKind::Rmw(RmwKind::And), ty: ValType::I64, width: 4 })
    } else if name == "I64AtomicRmw32OrU"@ {
        Some(Atomic { kind: AtomicKind::Rmw(RmwKind::Or), ty: ValType::I64, width: 4 })
    } else if name == "I64AtomicRmw32XorU"@ {
        Some(Atomic { kind: AtomicKind::Rmw(RmwKind::Xor), ty: ValType::I64, width: 4 })
    } else if name == "I64AtomicRmw32XchgU"@ {
        Some(Atomic { kind: AtomicKind::Rmw(RmwKind::Xchg), ty: ValType::I64, width: 4 })
    } else if name == "I64AtomicRmw32CmpxchgU"@ {
        Some(Atomic { kind: AtomicKind::Cmpxchg, ty: ValType::I64, width: 4 })
    } else if name == "MemoryAtomicNotify"@ {
        Some(Atomic { kind: AtomicKind::Notify, ty: ValType::I32, width: 4 })
    } else if name == "MemoryAtomicWait32"@ {
        Some(Atomic { kind: AtomicKind::Wait, ty: ValType::I32, width: 4 })
    } else if name == "MemoryAtomicWait64"@ {
        Some(Atomic { kind: AtomicKind::Wait, ty: ValType::I64, width: 8 })
    } else {
        None
    }
}

/// What an atomic operator does, by its name.
fn read_atomic(name: &Vec<char>) -> (atomic: Option<Atomic>)
    ensures
        atomic == atomic_named(name@),
{
    if same_as(name, "I32AtomicLoad") {
        Some(Atomic { kind: AtomicKind::Load, ty: ValType::I32, width: 4 })
    } else if same_as(name, "I32AtomicLoad8U") {
        Some(Atomic { kind: AtomicKind::Load, ty: ValType::I32, width: 1 })
    } else if same_as(name, "I32AtomicLoad16U") {
        Some(Atomic { kind: AtomicKind::Load, ty: ValType::I32, width: 2 })
    } else if same_as(name, "I64AtomicLoad") {
        Some(Atomic { kind: AtomicKind::Load, ty: ValType::I64, width: 8 })
    } else if same_as(name, "I64AtomicLoad8U") {
        Some(Atomic { kind: AtomicKind::Load, ty: ValType::I64, width: 1 })
    } else if same_as(name, "I64AtomicLoad16U") {
        Some(Atomic { kind: AtomicKind::Load, ty: ValType::I64, width: 2 })
    } else if same_as(name, "I64AtomicLoad32U") {
        Some(Atomic { kind: AtomicKind::Load, ty: ValType::I64, width: 4 })
    } else if same_as(name, "I32AtomicStore") {
        Some(Atomic { kind: AtomicKind::Store, ty: ValType::I32, width: 4 })
    } else if same_as(name, "I32AtomicStore8") {
        Some(Atomic { kind: AtomicKind::Store, ty: ValType::I32, width: 1 })
    } else if same_as(name, "I32AtomicStore16") {
        Some(Atomic { kind: AtomicKind::Store, ty: ValType::I32, width: 2 })
    } else if same_as(name, "I64AtomicStore") {
        Some(Atomic { kind: AtomicKind::Store, ty: ValType::I64, width: 8 })
    } else if same_as(name, "I64AtomicStore8") {
        Some(Atomic { kind: AtomicKind::Store, ty: ValType::I64, width: 1 })
    } else if same_as(name, "I64AtomicStore16") {
        Some(Atomic { kind: AtomicKind::Store, ty: ValType::I64, width: 2 })
    } else if same_as(name, "I64AtomicStore32") {
        Some(Atomic { kind: AtomicKind::Store, ty: ValType::I64, width: 4 })
    } else if same_as(name, "I32AtomicRmwAdd") {
        Some(Atomic { kind: AtomicKind::Rmw(RmwKind::Add), ty: ValType::I32, width: 4 })
    } else if same_as(name, "I32AtomicRmwSub") {
        Some(Atomic { kind: AtomicKind::Rmw(RmwKind::Sub), ty: ValType::I32, width: 4 })
    } else if same_as(name, "I32AtomicRmwAnd") {
        Some(Atomic { kind: AtomicKind::Rmw(RmwKind::And), ty: ValType::I32, width: 4 })
    } else if same_as(name, "I32AtomicRmwOr") {
        Some(Atomic { kind: AtomicKind::Rmw(RmwKind::Or), ty: ValType::I32, width: 4 })
    } else if same_as(name, "I32AtomicRmwXor") {
        Some(Atomic { kind: AtomicKind::Rmw(RmwKind::Xor), ty: ValType::I32, width: 4 })
    } else if same_as(name, "I32AtomicRmwXchg") {
        Some(Atomic { kind: AtomicKind::Rmw(RmwKind::Xchg), ty: ValType::I32, width: 4 })
    } else if same_as(name, "I32AtomicRmwCmpxchg") {
        Some(Atomic { kind: AtomicKind::Cmpxchg, ty: ValType::I32, width: 4 })
    } else if same_as(name, "I32AtomicRmw8AddU") {
        Some(Atomic { kind: AtomicKind::Rmw(RmwKind::Add), ty: ValType::I32, width: 1 })
    } else if same_as(name, "I32AtomicRmw8SubU") {
        Some(Atomic { kind: AtomicKind::Rmw(RmwKind::Sub), ty: ValType::I32, width: 1 })
    } else if same_as(name, "I32AtomicRmw8AndU") {
        Some(Atomic { kind: AtomicKind::Rmw(RmwKind::And), ty: ValType::I32, width: 1 })
    } else if same_as(name, "I32AtomicRmw8OrU") {
        Some(Atomic { kind: AtomicKind::Rmw(RmwKind::Or), ty: ValType::I32, width: 1 })
    } else if same_as(name, "I32AtomicRmw8XorU") {
        Some(Atomic { kind: AtomicKind::Rmw(RmwKind::Xor), ty: ValType::I32, width: 1 })
    } else if same_as(name, "I32AtomicRmw8XchgU") {
        Some(Atomic { kind: AtomicKind::Rmw(RmwKind::Xchg), ty: ValType::I32, width: 1 })
    } else if same_as(name, "I32AtomicRmw8CmpxchgU") {
        Some(Atomic { kind: AtomicKind::Cmpxchg, ty: ValType::I32, width: 1 })
    } else if same_as(name, "I32AtomicRmw16AddU") {
        Some(Atomic { kind: AtomicKind::Rmw(RmwKind::Add), ty: ValType::I32, width: 2 })
    } else if same_as(name, "I32AtomicRmw16SubU") {
        Some(Atomic { kind: AtomicKind::Rmw(RmwKind::Sub), ty: ValType::I32, width: 2 })
    } else if same_as(name, "I32AtomicRmw16AndU") {
        Some(Atomic { kind: AtomicKind::Rmw(RmwKind::And), ty: ValType::I32, width: 2 })
    } else if same_as(name, "I32AtomicRmw16OrU") {
        Some(Atomic { kind: AtomicKind::Rmw(RmwKind::Or), ty: ValType::I32, width: 2 })
    } else if same_as(name, "I32AtomicRmw16XorU") {
        Some(Atomic { kind: AtomicKind::Rmw(RmwKind::Xor), ty: ValType::I32, width: 2 })
    } else if same_as(name, "I32AtomicRmw16XchgU") {
        Some(Atomic { kind: AtomicKind::Rmw(RmwKind::Xchg), ty: ValType::I32, width: 2 })
    } else if same_as(name, "I32AtomicRmw16CmpxchgU") {
        Some(Atomic { kind: AtomicKind::Cmpxchg, ty: ValType::I32, width: 2 })
    } else if same_as(name, "I64AtomicRmwAdd") {
        Some(Atomic { kind: AtomicKind::Rmw(RmwKind::Add), ty: ValType::I64, width: 8 })
    } else if same_as(name, "I64AtomicRmwSub") {
        Some(Atomic { kind: AtomicKind::Rmw(RmwKind::Sub), ty: ValType::I64, width: 8 })
    } else if same_as(name, "I64AtomicRmwAnd") {
        Some(Atomic { kind: AtomicKind::Rmw(RmwKind::And), ty: ValType::I64, width: 8 })
    } else if same_as(name, "I64AtomicRmwOr") {
        Some(Atomic { kind: AtomicKind::Rmw(RmwKind::Or), ty: ValType::I64, width: 8 })
    } else if same_as(name, "I64AtomicRmwXor") {
        Some(Atomic { kind: AtomicKind::Rmw(RmwKind::Xor), ty: ValType::I64, width: 8 })
    } else if same_as(name, "I64AtomicRmwXchg") {
        Some(Atomic { kind: AtomicKind::Rmw(RmwKind::Xchg), ty: ValType::I64, width: 8 })
    } else if same_as(name, "I64AtomicRmwCmpxchg") {
        Some(Atomic { kind: AtomicKind::Cmpxchg, ty: ValType::I64, width: 8 })
    } else if same_as(name, "I64AtomicRmw8AddU") {
        Some(Atomic { kind: AtomicKind::Rmw(RmwKind::Add), ty: ValType::I64, width: 1 })
    } else if same_as(name, "I64AtomicRmw8SubU") {
        Some(Atomic { kind: AtomicKind::Rmw(RmwKind::Sub), ty: ValType::I64, width: 1 })
    } else if same_as(name, "I64AtomicRmw8AndU") {
        Some(Atomic { kind: AtomicKind::Rmw(RmwKind::And), ty: ValType::I64, width: 1 })
    } else if same_as(name, "I64AtomicRmw8OrU") {
        Some(Atomic { kind: AtomicKind::Rmw(RmwKind::Or), ty: ValType::I64, width: 1 })
    } else if same_as(name, "I64AtomicRmw8XorU") {
        Some(Atomic { kind: AtomicKind::Rmw(RmwKind::Xor), ty: ValType::I64, width: 1 })
    } else if same_as(name, "I64AtomicRmw8XchgU") {
        Some(Atomic { kind: AtomicKind::Rmw(RmwKind::Xchg), ty: ValType::I64, width: 1 })
    } else if same_as(name, "I64AtomicRmw8CmpxchgU") {
        Some(Atomic { kind: AtomicKind::Cmpxchg, ty: ValType::I64, width: 1 })
    } else if same_as(name, "I64AtomicRmw16AddU") {
        Some(Atomic { kind: AtomicKind::Rmw(RmwKind::Add), ty: ValType::I64, width: 2 })
    } else if same_as(name, "I64AtomicRmw16SubU") {
        Some(Atomic { kind: AtomicKind::Rmw(RmwKind::Sub), ty: ValType::I64, width: 2 })
    } else if same_as(name, "I64AtomicRmw16AndU") {
        Some(Atomic { kind: AtomicKind::Rmw(RmwKind::And), ty: ValType::I64, width: 2 })
    } else if same_as(name, "I64AtomicRmw16OrU") {
        Some(Atomic { kind: AtomicKind::Rmw(RmwKind::Or), ty: ValType::I64, width: 2 })
    } else if same_as(name, "I64AtomicRmw16XorU") {
        Some(Atomic { kind: AtomicKind::Rmw(RmwKind::Xor), ty: ValType::I64, width: 2 })
    } else if same_as(name, "I64AtomicRmw16XchgU") {
        Some(Atomic { kind: AtomicKind::Rmw(RmwKind::Xchg), ty: ValType::I64, width: 2 })
    } else if same_as(name, "I64AtomicRmw16CmpxchgU") {
        Some(Atomic { kind: AtomicKind::Cmpxchg, ty: ValType::I64, width: 2 })
    } else if same_as(name, "I64AtomicRmw32AddU") {
        Some(Atomic { kind: AtomicKind::Rmw(RmwKind::Add), ty: ValType::I64, width: 4 })
    } else if same_as(name, "I64AtomicRmw32SubU") {
        Some(Atomic { kind: AtomicKind::Rmw(RmwKind::Sub), ty: ValType::I64, width: 4 })
    } else if same_as(name, "I64AtomicRmw32AndU") {
        Some(Atomic { kind: AtomicKind::Rmw(RmwKind::And), ty: ValType::I64, width: 4 })
    } else if same_as(name, "I64AtomicRmw32OrU") {
        Some(Atomic { kind: AtomicKind::Rmw(RmwKind::Or), ty: ValType::I64, width: 4 })
    } else if same_as(name, "I64AtomicRmw32XorU") {
        Some(Atomic { kind: AtomicKind::Rmw(RmwKind::Xor), ty: ValType::I64, width: 4 })
    } else if same_as(name, "I64AtomicRmw32XchgU") {
        Some(Atomic { kind: AtomicKind::Rmw(RmwKind::Xchg), ty: ValType::I64, width: 4 })
    } else if same_as(name, "I64AtomicRmw32CmpxchgU") {
        Some(Atomic { kind: AtomicKind::Cmpxchg, ty: ValType::I64, width: 4 })
    } else if same_as(name, "MemoryAtomicNotify") {
        Some(Atomic { kind: AtomicKind::Notify, ty: ValType::I32, width: 4 })
    } else if same_as(name, "MemoryAtomicWait32") {
        Some(Atomic { kind: AtomicKind::Wait, ty: ValType::I32, width: 4 })
    } else if same_as(name, "MemoryAtomicWait64") {
        Some(Atomic { kind: AtomicKind::Wait, ty: ValType::I64, width: 8 })
    } else {
        None
    }
}

/// The load of that name.
pub open spec fn load_named(name: Seq<char>) -> Option<LoadKind> {
    if name == "I32Load"@ {
        Some(LoadKind::I32)
    } else if name == "I64Load"@ {
        Some(LoadKind::I64)
    } else if name == "F32Load"@ {
        Some(LoadKind::F32)
    } else if name == "F64Load"@ {
        Some(LoadKind::F64)
    } else if name == "I32Load8S"@ {
        Some(LoadKind::I32Load8S)
    } else if name == "I32Load8U"@ {
        Some(LoadKind::I32Load8U)
    } else if name == "I32Load16S"@ {
        Some(LoadKind::I32Load16S)
    } else if name == "I32Load16U"@ {
        Some(LoadKind::I32Load16U)
    } else if name == "I64Load8S"@ {
        Some(LoadKind::I64Load8S)
    } else if name == "I64Load8U"@ {
        Some(LoadKind::I64Load8U)
    } else if name == "I64Load16S"@ {
        Some(LoadKind::I64Load16S)
    } else if name == "I64Load16U"@ {
        Some(LoadKind::I64Load16U)
    } else if name == "I64Load32S"@ {
        Some(LoadKind::I64Load32S)
    } else if name == "I64Load32U"@ {
        Some(LoadKind::I64Load32U)
    } else {
        None
    }
}

/// The load of that name.
fn read_load(name: &Vec<char>) -> (kind: Option<LoadKind>)
    ensures
        kind == load_named(name@),
{
    if same_as(name, "I32Load") {
        Some(LoadKind::I32)
    } else if same_as(name, "I64Load") {
        Some(LoadKind::I64)
    } else if same_as(name, "F32Load") {
        Some(LoadKind::F32)
    } else if same_as(name, "F64Load") {
        Some(LoadKind::F64)
    } else if same_as(name, "I32Load8S") {
        Some(LoadKind::I32Load8S)
    } else if same_as(name, "I32Load8U") {
        Some(LoadKind::I32Load8U)
    } else if same_as(name, "I32Load16S") {
        Some(LoadKind::I32Load16S)
    } else if same_as(name, "I32Load16U") {
        Some(LoadKind::I32Load16U)
    } else if same_as(name, "I64Load8S") {
        Some(LoadKind::I64Load8S)
    } else if same_as(name, "I64Load8U") {
        Some(LoadKind::I64Load8U)
    } else if same_as(name, "I64Load16S") {
        Some(LoadKind::I64Load16S)
    } else if same_as(name, "I64Load16U") {
        Some(LoadKind::I64Load16U)
    } else if same_as(name, "I64Load32S") {
        Some(LoadKind::I64Load32S)
    } else if same_as(name, "I64Load32U") {
        Some(LoadKind::I64Load32U)
    } else {
        None
    }
}

/// The store of that name.
pub open spec fn store_named(name: Seq<char>) -> Option<StoreKind> {
    if name == "I32Store"@ {
        Some(StoreKind::I32)
    } else if name == "I64Store"@ {
        Some(StoreKind::I64)
    } else if name == "F32Store"@ {
        Some(StoreKind::F32)
    } else if name == "F64Store"@ {
        Some(StoreKind::F64)
    } else if name == "I32Store8"@ {
        Some(StoreKind::I32Store8)
    } else if name == "I32Store16"@ {
        Some(StoreKind::I32Store16)
    } else if name == "I64Store8"@ {
        Some(StoreKind::I64Store8)
    } else if name == "I64Store16"@ {
        Some(StoreKind::I64Store16)
    } else if name == "I64Store32"@ {
        Some(StoreKind::I64Store32)
    } else {
        None
    }
}

/// The store of that name.
fn read_store(name: &Vec<char>) -> (kind: Option<StoreKind>)
    ensures
        kind == store_named(name@),
{
    if same_as(name, "I32Store") {
        Some(StoreKind::I32)
    } else if same_as(name, "I64Store") {
        Some(StoreKind::I64)
    } else if same_as(name, "F32Store") {
        Some(StoreKind::F32)
    } else if same_as(name, "F64Store") {
        Some(StoreKind::F64)
    } else if same_as(name, "I32Store8") {
        Some(StoreKind::I32Store8)
    } else if same_as(name, "I32Store16") {
        Some(StoreKind::I32Store16)
    } else if same_as(name, "I64Store8") {
        Some(StoreKind::I64Store8)
    } else if same_as(name, "I64Store16") {
        Some(StoreKind::I64Store16)
    } else if same_as(name, "I64Store32") {
        Some(StoreKind::I64Store32)
    } else {
        None
    }
}

/// The instruction of that name that carries no immediate that matters.
pub open spec fn plain_named(name: Seq<char>) -> Option<Op> {
    if name == "Unreachable"@ {
        Some(Op::Unreachable)
    } else if name == "Nop"@ {
        Some(Op::Nop)
    } else if name == "Else"@ {
        Some(Op::Else)
    } else if name == "End"@ {
        Some(Op::End)
    } else if name == "Return"@ {
        Some(Op::Return)
    } else if name == "Drop"@ {
        Some(Op::Drop)
    } else if name == "Select"@ {
        Some(Op::Select)
    } else if name == "TypedSelect"@ {
        Some(Op::Select)
    } else if name == "TypedSelectMulti"@ {
        Some(Op::Select)
    } else if name == "MemorySize"@ {
        Some(Op::MemorySize)
    } else if name == "MemoryGrow"@ {
        Some(Op::MemoryGrow)
    } else if name == "MemoryCopy"@ {
        Some(Op::MemoryCopy)
    } else if name == "MemoryFill"@ {
        Some(Op::MemoryFill)
    } else if name == "AtomicFence"@ {
        Some(Op::AtomicFence)
    } else {
        None
    }
}

/// The instruction of that name that carries no immediate that matters.
fn read_plain(name: &Vec<char>) -> (op: Option<Op>)
    ensures
        op == plain_named(name@),
{
    if same_as(name, "Unreachable") {
        Some(Op::Unreachable)
    } else if same_as(name, "Nop") {
        Some(Op::Nop)
    } else if same_as(name, "Else") {
        Some(Op::Else)
    } else if same_as(name, "End") {
        Some(Op::End)
    } else if same_as(name, "Return") {
        Some(Op::Return)
    } else if same_as(name, "Drop") {
        Some(Op::Drop)
    } else if same_as(name, "Select") {
        Some(Op::Select)
    } else if same_as(name, "TypedSelect") {
        Some(Op::Select)
    } else if same_as(name, "TypedSelectMulti") {
        Some(Op::Select)
    } else if same_as(name, "MemorySize") {
        Some(Op::MemorySize)
    } else if same_as(name, "MemoryGrow") {
        Some(Op::MemoryGrow)
    } else if same_as(name, "MemoryCopy") {
        Some(Op::MemoryCopy)
    } else if same_as(name, "MemoryFill") {
        Some(Op::MemoryFill)
    } else if same_as(name, "AtomicFence") {
        Some(Op::AtomicFence)
    } else {
        None
    }
}

/// The key under which an operator that carries one index carries it, and the
/// instruction it becomes.
pub open spec fn indexed(words: Seq<Seq<char>>, name: Seq<char>) -> Option<Op> {
    if name == "Br"@ {
        match index_of(words, "relative_depth"@) {
            Some(index) => Some(Op::Br(index)),
            None => None,
        }
    } else if name == "BrIf"@ {
        match index_of(words, "relative_depth"@) {
            Some(index) => Some(Op::BrIf(index)),
            None => None,
        }
    } else if name == "Call"@ {
        match index_of(words, "function_index"@) {
            Some(index) => Some(Op::Call(index)),
            None => None,
        }
    } else if name == "LocalGet"@ {
        match index_of(words, "local_index"@) {
            Some(index) => Some(Op::LocalGet(index)),
            None => None,
        }
    } else if name == "LocalSet"@ {
        match index_of(words, "local_index"@) {
            Some(index) => Some(Op::LocalSet(index)),
            None => None,
        }
    } else if name == "LocalTee"@ {
        match index_of(words, "local_index"@) {
            Some(index) => Some(Op::LocalTee(index)),
            None => None,
        }
    } else if name == "GlobalGet"@ {
        match index_of(words, "global_index"@) {
            Some(index) => Some(Op::GlobalGet(index)),
            None => None,
        }
    } else if name == "GlobalSet"@ {
        match index_of(words, "global_index"@) {
            Some(index) => Some(Op::GlobalSet(index)),
            None => None,
        }
    } else if name == "MemoryInit"@ {
        match index_of(words, "data_index"@) {
            Some(index) => Some(Op::MemoryInit(index)),
            None => None,
        }
    } else if name == "DataDrop"@ {
        match index_of(words, "data_index"@) {
            Some(index) => Some(Op::DataDrop(index)),
            None => None,
        }
    } else {
        None
    }
}

/// The instruction of an operator that carries one index.
fn read_indexed(words: &Vec<Vec<char>>, name: &Vec<char>) -> (op: Option<Op>)
    ensures
        op == indexed(spelled(words@), name@),
{
    if same_as(name, "Br") {
        match read_index(words, "relative_depth") {
            Some(index) => Some(Op::Br(index)),
            None => None,
        }
    } else if same_as(name, "BrIf") {
        match read_index(words, "relative_depth") {
            Some(index) => Some(Op::BrIf(index)),
            None => None,
        }
    } else if same_as(name, "Call") {
        match read_index(words, "function_index") {
            Some(index) => Some(Op::Call(index)),
            None => None,
        }
    } else if same_as(name, "LocalGet") {
        match read_index(words, "local_index") {
            Some(index) => Some(Op::LocalGet(index)),
            None => None,
        }
    } else if same_as(name, "LocalSet") {
        match read_index(words, "local_index") {
            Some(index) => Some(Op::LocalSet(index)),
            None => None,
        }
    } else if same_as(name, "LocalTee") {
        match read_index(words, "local_index") {
            Some(index) => Some(Op::LocalTee(index)),
            None => None,
        }
    } else if same_as(name, "GlobalGet") {
        match read_index(words, "global_index") {
            Some(index) => Some(Op::GlobalGet(index)),
            None => None,
        }
    } else if same_as(name, "GlobalSet") {
        match read_index(words, "global_index") {
            Some(index) => Some(Op::GlobalSet(index)),
            None => None,
        }
    } else if same_as(name, "MemoryInit") {
        match read_index(words, "data_index") {
            Some(index) => Some(Op::MemoryInit(index)),
            None => None,
        }
    } else if same_as(name, "DataDrop") {
        match read_index(words, "data_index") {
            Some(index) => Some(Op::DataDrop(index)),
            None => None,
        }
    } else {
        None
    }
}

/// The instruction of a constant.
pub open spec fn constant(words: Seq<Seq<char>>, name: Seq<char>) -> Option<Op> {
    if name == "I32Const"@ {
        match i32_of(words, "value"@) {
            Some(value) => Some(Op::I32Const(value)),
            None => None,
        }
    } else if name == "I64Const"@ {
        match i64_of(words, "value"@) {
            Some(value) => Some(Op::I64Const(value)),
            None => None,
        }
    } else if name == "F32Const"@ {
        match index_of(words, "Ieee32"@) {
            Some(bits) => Some(Op::F32Const(bits)),
            None => None,
        }
    } else if name == "F64Const"@ {
        match u64_of(words, "Ieee64"@) {
            Some(bits) => Some(Op::F64Const(bits)),
            None => None,
        }
    } else {
        None
    }
}

/// The instruction of a constant.
pub fn read_constant(words: &Vec<Vec<char>>, name: &Vec<char>) -> (op: Option<Op>)
    ensures
        op == constant(spelled(words@), name@),
{
    if same_as(name, "I32Const") {
        match read_i32(words, "value") {
            Some(value) => Some(Op::I32Const(value)),
            None => None,
        }
    } else if same_as(name, "I64Const") {
        match read_i64(words, "value") {
            Some(value) => Some(Op::I64Const(value)),
            None => None,
        }
    } else if same_as(name, "F32Const") {
        match read_index(words, "Ieee32") {
            Some(bits) => Some(Op::F32Const(bits)),
            None => None,
        }
    } else if same_as(name, "F64Const") {
        match read_u64(words, "Ieee64") {
            Some(bits) => Some(Op::F64Const(bits)),
            None => None,
        }
    } else {
        None
    }
}

/// The instruction an operator becomes, or why it becomes none. Whatever is not
/// modelled is reported by the decoder's own text of it.
pub open spec fn lowered(
    words: Seq<Seq<char>>,
    name: Seq<char>,
    text: Seq<char>,
    location: Seq<char>,
) -> Result<Instruction, Failure> {
    if num_op(name) is Some {
        Ok(Instruction::Plain(Op::Num(num_op(name)->0)))
    } else if plain_named(name) is Some {
        Ok(Instruction::Plain(plain_named(name)->0))
    } else if indexed(words, name) is Some {
        Ok(Instruction::Plain(indexed(words, name)->0))
    } else if constant(words, name) is Some {
        Ok(Instruction::Plain(constant(words, name)->0))
    } else if load_named(name) is Some {
        match memarg(words, text, location) {
            Ok(mem) => Ok(Instruction::Plain(Op::Load { kind: load_named(name)->0, mem })),
            Err(failure) => Err(failure),
        }
    } else if store_named(name) is Some {
        match memarg(words, text, location) {
            Ok(mem) => Ok(Instruction::Plain(Op::Store { kind: store_named(name)->0, mem })),
            Err(failure) => Err(failure),
        }
    } else if atomic_named(name) is Some {
        match memarg(words, text, location) {
            Ok(mem) => Ok(Instruction::Plain(Op::Atomic { op: atomic_named(name)->0, mem })),
            Err(failure) => Err(failure),
        }
    } else if name == "Block"@ {
        match block_type(words, text, location) {
            Ok(ty) => Ok(Instruction::Plain(Op::Block(ty))),
            Err(failure) => Err(failure),
        }
    } else if name == "Loop"@ {
        match block_type(words, text, location) {
            Ok(ty) => Ok(Instruction::Plain(Op::Loop(ty))),
            Err(failure) => Err(failure),
        }
    } else if name == "If"@ {
        match block_type(words, text, location) {
            Ok(ty) => Ok(Instruction::Plain(Op::If(ty))),
            Err(failure) => Err(failure),
        }
    } else if name == "BrTable"@ {
        match (index_of(words, "default"@), targets_from(words, 8)) {
            (Some(default), Some(targets)) => Ok(Instruction::Table(targets, default)),
            _ => unknown(text, location),
        }
    } else if name == "CallIndirect"@ {
        match (index_of(words, "table_index"@), index_of(words, "type_index"@)) {
            (Some(table), Some(type_index)) => if table != 0 {
                Err(Failure::Unsupported("call_indirect on a table other than 0"@, location))
            } else {
                Ok(Instruction::Plain(Op::CallIndirect { type_index }))
            },
            _ => unknown(text, location),
        }
    } else {
        unknown(text, location)
    }
}

/// The instruction an operator becomes.
pub open spec fn lowered_operator(text: Seq<char>, location: Seq<char>) -> Result<
    Instruction,
    Failure,
> {
    lowered(words_of(text), crate::module::operator::first_word(text), text, location)
}

/// A lowered instruction as its model.
pub open spec fn lowering(result: Result<Op, Error>) -> Result<Instruction, Failure> {
    match result {
        Ok(op) => Ok(op@),
        Err(error) => Err(error@),
    }
}

/// Lowers an operator.
pub fn lower_op(operator: &Operator, location: &str) -> (op: Result<Op, Error>)
    ensures
        lowering(op) == lowered_operator(operator.text@, location@),
{
    let words: Vec<Vec<char>> = operator.words();
    let name: Vec<char> = operator.name_chars();
    let text: &str = operator.text.as_str();
    if let Some(num) = op_named(&name) {
        return Ok(Op::Num(num));
    }
    if let Some(op) = read_plain(&name) {
        return Ok(op);
    }
    if let Some(op) = read_indexed(&words, &name) {
        return Ok(op);
    }
    if let Some(op) = read_constant(&words, &name) {
        return Ok(op);
    }
    if let Some(kind) = read_load(&name) {
        return match lower_memarg(&words, text, location) {
            Ok(mem) => Ok(Op::Load { kind, mem }),
            Err(error) => Err(error),
        };
    }
    if let Some(kind) = read_store(&name) {
        return match lower_memarg(&words, text, location) {
            Ok(mem) => Ok(Op::Store { kind, mem }),
            Err(error) => Err(error),
        };
    }
    if let Some(atomic) = read_atomic(&name) {
        return match lower_memarg(&words, text, location) {
            Ok(mem) => Ok(Op::Atomic { op: atomic, mem }),
            Err(error) => Err(error),
        };
    }
    if same_as(&name, "Block") {
        return match lower_block_type(&words, text, location) {
            Ok(ty) => Ok(Op::Block(ty)),
            Err(error) => Err(error),
        };
    }
    if same_as(&name, "Loop") {
        return match lower_block_type(&words, text, location) {
            Ok(ty) => Ok(Op::Loop(ty)),
            Err(error) => Err(error),
        };
    }
    if same_as(&name, "If") {
        return match lower_block_type(&words, text, location) {
            Ok(ty) => Ok(Op::If(ty)),
            Err(error) => Err(error),
        };
    }
    if same_as(&name, "BrTable") {
        return match (read_index(&words, "default"), read_targets(&words)) {
            (Some(default), Some(targets)) => Ok(Op::BrTable { targets, default }),
            _ => Err(Error::unsupported(text, location)),
        };
    }
    if same_as(&name, "CallIndirect") {
        return match (read_index(&words, "table_index"), read_index(&words, "type_index")) {
            (Some(table), Some(type_index)) => if table != 0 {
                Err(Error::unsupported("call_indirect on a table other than 0", location))
            } else {
                Ok(Op::CallIndirect { type_index })
            },
            _ => Err(Error::unsupported(text, location)),
        };
    }
    Err(Error::unsupported(text, location))
}

} // verus!
