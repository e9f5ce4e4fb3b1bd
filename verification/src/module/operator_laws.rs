//! What holds of every operator that is lowered.

use vstd::prelude::*;
use crate::error::Failure;
use crate::module::lower::{
    atomic_named, constant, indexed, load_named, lowered, plain_named, store_named,
};
use crate::module::model::Instruction;
use crate::module::operator::{
    all_digits, digits_value, immediate, number, value_from, value_of, word_end, words_from,
    words_of,
};
use crate::module::types::{Atomic, AtomicKind, BlockType, LoadKind, Op, RmwKind, StoreKind, ValType};
use crate::ops::table::num_op;
use crate::text::pieces::{decimal, digit_char, signed_decimal};

verus! {

// ---- words ----

/// Whether a character belongs to a word: a letter, a digit, an underscore or a sign.
pub open spec fn of_a_word(ch: char) -> bool {
    'a' <= ch <= 'z' || 'A' <= ch <= 'Z' || '0' <= ch <= '9' || ch == '_' || ch == '-'
}

/// Whether a text is a word.
pub open spec fn is_word(text: Seq<char>) -> bool {
    text.len() > 0 && forall|i: int| 0 <= i < text.len() ==> of_a_word(#[trigger] text[i])
}

/// Whether a text stands between words.
pub open spec fn is_between(text: Seq<char>) -> bool {
    text.len() > 0 && forall|i: int| 0 <= i < text.len() ==> !of_a_word(#[trigger] text[i])
}

/// Words with something between each two, and after the last.
pub open spec fn written(words: Seq<Seq<char>>, between: Seq<Seq<char>>) -> Seq<char>
    decreases words.len(),
{
    if words.len() == 0 {
        Seq::empty()
    } else {
        written(words.drop_last(), between) + words.last() + between[words.len() - 1]
    }
}

proof fn lemma_word_runs(text: Seq<char>, at: int, end: int)
    requires
        0 <= at <= end <= text.len(),
        forall|i: int| at <= i < end ==> of_a_word(#[trigger] text[i]),
        end < text.len() ==> !of_a_word(text[end]),
    ensures
        word_end(text, at) == end,
    decreases end - at,
{
    if at < end {
        assert(of_a_word(text[at]));
        lemma_word_runs(text, at + 1, end);
    }
}

proof fn lemma_passes(text: Seq<char>, at: int, end: int)
    requires
        0 <= at <= end <= text.len(),
        forall|i: int| at <= i < end ==> !of_a_word(#[trigger] text[i]),
    ensures
        words_from(text, at) == words_from(text, end),
    decreases end - at,
{
    if at < end {
        assert(!of_a_word(text[at]));
        lemma_passes(text, at + 1, end);
    }
}

proof fn lemma_written(
    text: Seq<char>,
    words: Seq<Seq<char>>,
    between: Seq<Seq<char>>,
    k: int,
)
    requires
        between.len() >= words.len(),
        0 <= k <= words.len(),
        text == written(words, between),
        forall|i: int| 0 <= i < words.len() ==> is_word(#[trigger] words[i]),
        forall|i: int| 0 <= i < words.len() ==> is_between(#[trigger] between[i]),
    ensures
        written(words.take(k), between).len() <= text.len(),
        words_from(text, written(words.take(k), between).len() as int) == words.skip(k),
    decreases words.len() - k,
{
    let at = written(words.take(k), between).len() as int;
    lemma_written_prefix(words, between, k);
    if k == words.len() {
        assert(words.take(k) =~= words);
        assert(words.skip(k) =~= Seq::empty());
    } else {
        lemma_written(text, words, between, k + 1);
        lemma_written_prefix(words, between, k + 1);
        let word = words[k];
        let gap = between[k];
        assert(words.take(k + 1).drop_last() =~= words.take(k));
        let next = written(words.take(k + 1), between);
        assert(next == written(words.take(k), between) + word + gap);
        let end = at + word.len();
        assert(is_word(words[k]));
        assert(is_between(between[k]));
        assert forall|i: int| at <= i < end implies of_a_word(#[trigger] text[i]) by {
            assert(text[i] == next[i]);
            assert(next[i] == word[i - at]);
        }
        assert forall|i: int| end <= i < next.len() implies !of_a_word(#[trigger] text[i]) by {
            assert(text[i] == next[i]);
            assert(next[i] == gap[i - end]);
        }
        assert(of_a_word(text[at]));
        assert(!of_a_word(text[end]));
        lemma_word_runs(text, at, end);
        lemma_passes(text, end, next.len() as int);
        assert(text.subrange(at, end) =~= word) by {
            assert forall|i: int| 0 <= i < word.len() implies text.subrange(at, end)[i]
                == word[i] by {
                assert(text[at + i] == next[at + i]);
            }
        }
        assert(words.skip(k) =~= seq![word] + words.skip(k + 1));
    }
}

proof fn lemma_written_prefix(words: Seq<Seq<char>>, between: Seq<Seq<char>>, k: int)
    requires
        0 <= k <= words.len(),
    ensures
        written(words.take(k), between).is_prefix_of(written(words, between)),
    decreases words.len() - k,
{
    if k == words.len() {
        assert(words.take(k) =~= words);
    } else {
        lemma_written_prefix(words, between, k + 1);
        assert(words.take(k + 1).drop_last() =~= words.take(k));
    }
}

/// The words of a text are the words it was written from, in order, whatever stands
/// between them.
pub proof fn words_are_read_back(words: Seq<Seq<char>>, between: Seq<Seq<char>>)
    requires
        between.len() >= words.len(),
        forall|i: int| 0 <= i < words.len() ==> is_word(#[trigger] words[i]),
        forall|i: int| 0 <= i < words.len() ==> is_between(#[trigger] between[i]),
    ensures
        words_of(written(words, between)) == words,
{
    lemma_written(written(words, between), words, between, 0);
    assert(words.take(0) =~= Seq::empty());
    assert(words.skip(0) =~= words);
}

/// The value of an immediate is the word after the first that is its key; the first word
/// of all is the name and no key.
pub proof fn an_immediate_follows_its_key(words: Seq<Seq<char>>, key: Seq<char>, at: int)
    requires
        1 <= at,
        at + 1 < words.len(),
        words[at] == key,
        forall|i: int| 1 <= i < at ==> #[trigger] words[i] != key,
    ensures
        value_of(words, key) == Some(words[at + 1]),
{
    lemma_value(words, key, 1, at);
}

proof fn lemma_value(words: Seq<Seq<char>>, key: Seq<char>, from: int, at: int)
    requires
        1 <= from <= at,
        at + 1 < words.len(),
        words[at] == key,
        forall|i: int| 1 <= i < at ==> #[trigger] words[i] != key,
    ensures
        value_from(words, key, from) == Some(words[at + 1]),
    decreases at - from,
{
    if from < at {
        assert(words[from] != key);
        lemma_value(words, key, from + 1, at);
    }
}

// ---- numbers ----

proof fn lemma_digits(n: nat)
    ensures
        all_digits(decimal(n)),
        decimal(n).len() > 0,
        digits_value(decimal(n)) == n,
    decreases n,
{
    let text = decimal(n);
    if n < 10 {
        assert(text.drop_last() =~= Seq::empty());
        assert(digits_value(text.drop_last()) == 0);
        assert(text.last() == digit_char(n));
    } else {
        lemma_digits(n / 10);
        assert(text.drop_last() =~= decimal(n / 10));
        assert(text.last() == digit_char(n % 10));
        assert(10 * (n / 10) + n % 10 == n);
        assert forall|i: int| 0 <= i < text.len() implies '0' <= #[trigger] text[i] <= '9' by {
            if i < text.len() - 1 {
                assert(text[i] == decimal(n / 10)[i]);
            }
        }
    }
}

proof fn lemma_decimal_len(n: nat, digits: nat)
    requires
        n < crate::module::operator::pow10(digits),
        digits > 0,
    ensures
        decimal(n).len() <= digits,
    decreases digits,
{
    if n >= 10 {
        let fewer = (digits - 1) as nat;
        assert(crate::module::operator::pow10(digits) == 10 * crate::module::operator::pow10(fewer));
        if fewer == 0 {
            assert(crate::module::operator::pow10(0) == 1);
        } else {
            lemma_decimal_len(n / 10, fewer);
        }
    }
}

/// A number is read back from how it is written in decimal, with its sign, over all that
/// an immediate may be.
pub proof fn a_number_is_read_back(n: int)
    requires
        -0x8000_0000_0000_0000 <= n <= 0xffff_ffff_ffff_ffff,
    ensures
        number(signed_decimal(n)) == Some(n),
{
    let m: nat = if n < 0 {
        (-n) as nat
    } else {
        n as nat
    };
    lemma_digits(m);
    assert(crate::module::operator::pow10(20) == 100_000_000_000_000_000_000) by {
        reveal_with_fuel(crate::module::operator::pow10, 21);
    }
    lemma_decimal_len(m, 20);
    let text = signed_decimal(n);
    if n < 0 {
        assert(text[0] == '-');
        assert(text.drop_first() =~= decimal(m));
    } else {
        assert('0' <= decimal(m)[0] <= '9');
        assert(text[0] != '-');
    }
}

// ---- instructions ----

/// Whether an instruction with one index comes from an operator of that name, whose
/// immediate under the key is the index.
pub open spec fn comes_from(
    words: Seq<Seq<char>>,
    name: Seq<char>,
    wanted: Seq<char>,
    key: Seq<char>,
    index: int,
) -> bool {
    name == wanted && immediate(words, key) == Some(index)
}

/// What an instruction comes from: the name of the operator, and its immediates.
pub open spec fn told_by(words: Seq<Seq<char>>, name: Seq<char>, op: Op) -> bool {
    match op {
        Op::Unreachable => name == "Unreachable"@,
        Op::Nop => name == "Nop"@,
        Op::Else => name == "Else"@,
        Op::End => name == "End"@,
        Op::Return => name == "Return"@,
        Op::Drop => name == "Drop"@,
        Op::Select => name == "Select"@ || name == "TypedSelect"@ || name == "TypedSelectMulti"@,
        Op::MemorySize => name == "MemorySize"@,
        Op::MemoryGrow => name == "MemoryGrow"@,
        Op::MemoryCopy => name == "MemoryCopy"@,
        Op::MemoryFill => name == "MemoryFill"@,
        Op::AtomicFence => name == "AtomicFence"@,
        Op::Br(depth) => comes_from(words, name, "Br"@, "relative_depth"@, depth as int),
        Op::BrIf(depth) => comes_from(words, name, "BrIf"@, "relative_depth"@, depth as int),
        Op::Call(func) => comes_from(words, name, "Call"@, "function_index"@, func as int),
        Op::LocalGet(local) => comes_from(words, name, "LocalGet"@, "local_index"@, local as int),
        Op::LocalSet(local) => comes_from(words, name, "LocalSet"@, "local_index"@, local as int),
        Op::LocalTee(local) => comes_from(words, name, "LocalTee"@, "local_index"@, local as int),
        Op::GlobalGet(global) => comes_from(
            words,
            name,
            "GlobalGet"@,
            "global_index"@,
            global as int,
        ),
        Op::GlobalSet(global) => comes_from(
            words,
            name,
            "GlobalSet"@,
            "global_index"@,
            global as int,
        ),
        Op::MemoryInit(data) => comes_from(words, name, "MemoryInit"@, "data_index"@, data as int),
        Op::DataDrop(data) => comes_from(words, name, "DataDrop"@, "data_index"@, data as int),
        Op::I32Const(value) => comes_from(words, name, "I32Const"@, "value"@, value as int),
        Op::I64Const(value) => comes_from(words, name, "I64Const"@, "value"@, value as int),
        Op::F32Const(bits) => comes_from(words, name, "F32Const"@, "Ieee32"@, bits as int),
        Op::F64Const(bits) => comes_from(words, name, "F64Const"@, "Ieee64"@, bits as int),
        Op::CallIndirect { type_index } => comes_from(
            words,
            name,
            "CallIndirect"@,
            "type_index"@,
            type_index as int,
        ) && immediate(words, "table_index"@) == Some(0int),
        Op::Block(ty) => name == "Block"@ && told_type(words, ty),
        Op::Loop(ty) => name == "Loop"@ && told_type(words, ty),
        Op::If(ty) => name == "If"@ && told_type(words, ty),
        Op::Load { kind, mem } => name == load_operator(kind) && immediate(words, "offset"@)
            == Some(mem.offset as int) && immediate(words, "memory"@) == Some(0int),
        Op::Store { kind, mem } => name == store_operator(kind) && immediate(words, "offset"@)
            == Some(mem.offset as int) && immediate(words, "memory"@) == Some(0int),
        Op::Atomic { op, mem } => told_atomic(name, op) && immediate(words, "offset"@) == Some(
            mem.offset as int,
        ) && immediate(words, "memory"@) == Some(0int),
        Op::Num(num) => num_op(name) == Some(num),
        Op::BrTable { .. } => false,
    }
}

/// What a block type comes from.
pub open spec fn told_type(words: Seq<Seq<char>>, ty: BlockType) -> bool {
    match ty {
        BlockType::Empty => value_of(words, "blockty"@) == Some("Empty"@),
        BlockType::Value(ty) => value_of(words, "blockty"@) == Some("Type"@) && value_of(
            words,
            "Type"@,
        ) == Some(
            match ty {
                ValType::I32 => "I32"@,
                ValType::I64 => "I64"@,
                ValType::F32 => "F32"@,
                ValType::F64 => "F64"@,
            },
        ),
        BlockType::Func(index) => immediate(words, "FuncType"@) == Some(index as int) && value_of(
            words,
            "blockty"@,
        ) is Some,
    }
}

/// The operator a load comes from.
pub open spec fn load_operator(kind: LoadKind) -> Seq<char> {
    match kind {
        LoadKind::I32 => "I32Load"@,
        LoadKind::I64 => "I64Load"@,
        LoadKind::F32 => "F32Load"@,
        LoadKind::F64 => "F64Load"@,
        LoadKind::I32Load8S => "I32Load8S"@,
        LoadKind::I32Load8U => "I32Load8U"@,
        LoadKind::I32Load16S => "I32Load16S"@,
        LoadKind::I32Load16U => "I32Load16U"@,
        LoadKind::I64Load8S => "I64Load8S"@,
        LoadKind::I64Load8U => "I64Load8U"@,
        LoadKind::I64Load16S => "I64Load16S"@,
        LoadKind::I64Load16U => "I64Load16U"@,
        LoadKind::I64Load32S => "I64Load32S"@,
        LoadKind::I64Load32U => "I64Load32U"@,
    }
}

/// The operator a store comes from.
pub open spec fn store_operator(kind: StoreKind) -> Seq<char> {
    match kind {
        StoreKind::I32 => "I32Store"@,
        StoreKind::I64 => "I64Store"@,
        StoreKind::F32 => "F32Store"@,
        StoreKind::F64 => "F64Store"@,
        StoreKind::I32Store8 => "I32Store8"@,
        StoreKind::I32Store16 => "I32Store16"@,
        StoreKind::I64Store8 => "I64Store8"@,
        StoreKind::I64Store16 => "I64Store16"@,
        StoreKind::I64Store32 => "I64Store32"@,
    }
}

/// Whether an atomic comes from an operator of that name.
pub open spec fn told_atomic(name: Seq<char>, op: Atomic) -> bool {
    ||| name == "I32AtomicLoad"@ && op.kind == AtomicKind::Load && op.ty == ValType::I32 && op.width == 4
    ||| name == "I32AtomicLoad8U"@ && op.kind == AtomicKind::Load && op.ty == ValType::I32 && op.width == 1
    ||| name == "I32AtomicLoad16U"@ && op.kind == AtomicKind::Load && op.ty == ValType::I32 && op.width == 2
    ||| name == "I64AtomicLoad"@ && op.kind == AtomicKind::Load && op.ty == ValType::I64 && op.width == 8
    ||| name == "I64AtomicLoad8U"@ && op.kind == AtomicKind::Load && op.ty == ValType::I64 && op.width == 1
    ||| name == "I64AtomicLoad16U"@ && op.kind == AtomicKind::Load && op.ty == ValType::I64 && op.width == 2
    ||| name == "I64AtomicLoad32U"@ && op.kind == AtomicKind::Load && op.ty == ValType::I64 && op.width == 4
    ||| name == "I32AtomicStore"@ && op.kind == AtomicKind::Store && op.ty == ValType::I32 && op.width == 4
    ||| name == "I32AtomicStore8"@ && op.kind == AtomicKind::Store && op.ty == ValType::I32 && op.width == 1
    ||| name == "I32AtomicStore16"@ && op.kind == AtomicKind::Store && op.ty == ValType::I32 && op.width == 2
    ||| name == "I64AtomicStore"@ && op.kind == AtomicKind::Store && op.ty == ValType::I64 && op.width == 8
    ||| name == "I64AtomicStore8"@ && op.kind == AtomicKind::Store && op.ty == ValType::I64 && op.width == 1
    ||| name == "I64AtomicStore16"@ && op.kind == AtomicKind::Store && op.ty == ValType::I64 && op.width == 2
    ||| name == "I64AtomicStore32"@ && op.kind == AtomicKind::Store && op.ty == ValType::I64 && op.width == 4
    ||| name == "I32AtomicRmwAdd"@ && op.kind == AtomicKind::Rmw(RmwKind::Add) && op.ty == ValType::I32 && op.width == 4
    ||| name == "I32AtomicRmwSub"@ && op.kind == AtomicKind::Rmw(RmwKind::Sub) && op.ty == ValType::I32 && op.width == 4
    ||| name == "I32AtomicRmwAnd"@ && op.kind == AtomicKind::Rmw(RmwKind::And) && op.ty == ValType::I32 && op.width == 4
    ||| name == "I32AtomicRmwOr"@ && op.kind == AtomicKind::Rmw(RmwKind::Or) && op.ty == ValType::I32 && op.width == 4
    ||| name == "I32AtomicRmwXor"@ && op.kind == AtomicKind::Rmw(RmwKind::Xor) && op.ty == ValType::I32 && op.width == 4
    ||| name == "I32AtomicRmwXchg"@ && op.kind == AtomicKind::Rmw(RmwKind::Xchg) && op.ty == ValType::I32 && op.width == 4
    ||| name == "I32AtomicRmwCmpxchg"@ && op.kind == AtomicKind::Cmpxchg && op.ty == ValType::I32 && op.width == 4
    ||| name == "I32AtomicRmw8AddU"@ && op.kind == AtomicKind::Rmw(RmwKind::Add) && op.ty == ValType::I32 && op.width == 1
    ||| name == "I32AtomicRmw8SubU"@ && op.kind == AtomicKind::Rmw(RmwKind::Sub) && op.ty == ValType::I32 && op.width == 1
    ||| name == "I32AtomicRmw8AndU"@ && op.kind == AtomicKind::Rmw(RmwKind::And) && op.ty == ValType::I32 && op.width == 1
    ||| name == "I32AtomicRmw8OrU"@ && op.kind == AtomicKind::Rmw(RmwKind::Or) && op.ty == ValType::I32 && op.width == 1
    ||| name == "I32AtomicRmw8XorU"@ && op.kind == AtomicKind::Rmw(RmwKind::Xor) && op.ty == ValType::I32 && op.width == 1
    ||| name == "I32AtomicRmw8XchgU"@ && op.kind == AtomicKind::Rmw(RmwKind::Xchg) && op.ty == ValType::I32 && op.width == 1
    ||| name == "I32AtomicRmw8CmpxchgU"@ && op.kind == AtomicKind::Cmpxchg && op.ty == ValType::I32 && op.width == 1
    ||| name == "I32AtomicRmw16AddU"@ && op.kind == AtomicKind::Rmw(RmwKind::Add) && op.ty == ValType::I32 && op.width == 2
    ||| name == "I32AtomicRmw16SubU"@ && op.kind == AtomicKind::Rmw(RmwKind::Sub) && op.ty == ValType::I32 && op.width == 2
    ||| name == "I32AtomicRmw16AndU"@ && op.kind == AtomicKind::Rmw(RmwKind::And) && op.ty == ValType::I32 && op.width == 2
    ||| name == "I32AtomicRmw16OrU"@ && op.kind == AtomicKind::Rmw(RmwKind::Or) && op.ty == ValType::I32 && op.width == 2
    ||| name == "I32AtomicRmw16XorU"@ && op.kind == AtomicKind::Rmw(RmwKind::Xor) && op.ty == ValType::I32 && op.width == 2
    ||| name == "I32AtomicRmw16XchgU"@ && op.kind == AtomicKind::Rmw(RmwKind::Xchg) && op.ty == ValType::I32 && op.width == 2
    ||| name == "I32AtomicRmw16CmpxchgU"@ && op.kind == AtomicKind::Cmpxchg && op.ty == ValType::I32 && op.width == 2
    ||| name == "I64AtomicRmwAdd"@ && op.kind == AtomicKind::Rmw(RmwKind::Add) && op.ty == ValType::I64 && op.width == 8
    ||| name == "I64AtomicRmwSub"@ && op.kind == AtomicKind::Rmw(RmwKind::Sub) && op.ty == ValType::I64 && op.width == 8
    ||| name == "I64AtomicRmwAnd"@ && op.kind == AtomicKind::Rmw(RmwKind::And) && op.ty == ValType::I64 && op.width == 8
    ||| name == "I64AtomicRmwOr"@ && op.kind == AtomicKind::Rmw(RmwKind::Or) && op.ty == ValType::I64 && op.width == 8
    ||| name == "I64AtomicRmwXor"@ && op.kind == AtomicKind::Rmw(RmwKind::Xor) && op.ty == ValType::I64 && op.width == 8
    ||| name == "I64AtomicRmwXchg"@ && op.kind == AtomicKind::Rmw(RmwKind::Xchg) && op.ty == ValType::I64 && op.width == 8
    ||| name == "I64AtomicRmwCmpxchg"@ && op.kind == AtomicKind::Cmpxchg && op.ty == ValType::I64 && op.width == 8
    ||| name == "I64AtomicRmw8AddU"@ && op.kind == AtomicKind::Rmw(RmwKind::Add) && op.ty == ValType::I64 && op.width == 1
    ||| name == "I64AtomicRmw8SubU"@ && op.kind == AtomicKind::Rmw(RmwKind::Sub) && op.ty == ValType::I64 && op.width == 1
    ||| name == "I64AtomicRmw8AndU"@ && op.kind == AtomicKind::Rmw(RmwKind::And) && op.ty == ValType::I64 && op.width == 1
    ||| name == "I64AtomicRmw8OrU"@ && op.kind == AtomicKind::Rmw(RmwKind::Or) && op.ty == ValType::I64 && op.width == 1
    ||| name == "I64AtomicRmw8XorU"@ && op.kind == AtomicKind::Rmw(RmwKind::Xor) && op.ty == ValType::I64 && op.width == 1
    ||| name == "I64AtomicRmw8XchgU"@ && op.kind == AtomicKind::Rmw(RmwKind::Xchg) && op.ty == ValType::I64 && op.width == 1
    ||| name == "I64AtomicRmw8CmpxchgU"@ && op.kind == AtomicKind::Cmpxchg && op.ty == ValType::I64 && op.width == 1
    ||| name == "I64AtomicRmw16AddU"@ && op.kind == AtomicKind::Rmw(RmwKind::Add) && op.ty == ValType::I64 && op.width == 2
    ||| name == "I64AtomicRmw16SubU"@ && op.kind == AtomicKind::Rmw(RmwKind::Sub) && op.ty == ValType::I64 && op.width == 2
    ||| name == "I64AtomicRmw16AndU"@ && op.kind == AtomicKind::Rmw(RmwKind::And) && op.ty == ValType::I64 && op.width == 2
    ||| name == "I64AtomicRmw16OrU"@ && op.kind == AtomicKind::Rmw(RmwKind::Or) && op.ty == ValType::I64 && op.width == 2
    ||| name == "I64AtomicRmw16XorU"@ && op.kind == AtomicKind::Rmw(RmwKind::Xor) && op.ty == ValType::I64 && op.width == 2
    ||| name == "I64AtomicRmw16XchgU"@ && op.kind == AtomicKind::Rmw(RmwKind::Xchg) && op.ty == ValType::I64 && op.width == 2
    ||| name == "I64AtomicRmw16CmpxchgU"@ && op.kind == AtomicKind::Cmpxchg && op.ty == ValType::I64 && op.width == 2
    ||| name == "I64AtomicRmw32AddU"@ && op.kind == AtomicKind::Rmw(RmwKind::Add) && op.ty == ValType::I64 && op.width == 4
    ||| name == "I64AtomicRmw32SubU"@ && op.kind == AtomicKind::Rmw(RmwKind::Sub) && op.ty == ValType::I64 && op.width == 4
    ||| name == "I64AtomicRmw32AndU"@ && op.kind == AtomicKind::Rmw(RmwKind::And) && op.ty == ValType::I64 && op.width == 4
    ||| name == "I64AtomicRmw32OrU"@ && op.kind == AtomicKind::Rmw(RmwKind::Or) && op.ty == ValType::I64 && op.width == 4
    ||| name == "I64AtomicRmw32XorU"@ && op.kind == AtomicKind::Rmw(RmwKind::Xor) && op.ty == ValType::I64 && op.width == 4
    ||| name == "I64AtomicRmw32XchgU"@ && op.kind == AtomicKind::Rmw(RmwKind::Xchg) && op.ty == ValType::I64 && op.width == 4
    ||| name == "I64AtomicRmw32CmpxchgU"@ && op.kind == AtomicKind::Cmpxchg && op.ty == ValType::I64 && op.width == 4
    ||| name == "MemoryAtomicNotify"@ && op.kind == AtomicKind::Notify && op.ty == ValType::I32 && op.width == 4
    ||| name == "MemoryAtomicWait32"@ && op.kind == AtomicKind::Wait && op.ty == ValType::I32 && op.width == 4
    ||| name == "MemoryAtomicWait64"@ && op.kind == AtomicKind::Wait && op.ty == ValType::I64 && op.width == 8
}

proof fn lemma_atomic(name: Seq<char>)
    ensures
        atomic_named(name) is Some ==> told_atomic(name, atomic_named(name)->0),
{
}

proof fn lemma_access(name: Seq<char>)
    ensures
        load_named(name) is Some ==> name == load_operator(load_named(name)->0),
        store_named(name) is Some ==> name == store_operator(store_named(name)->0),
{
}

proof fn lemma_simple(words: Seq<Seq<char>>, name: Seq<char>)
    ensures
        plain_named(name) is Some ==> told_by(words, name, plain_named(name)->0) && !(plain_named(
            name,
        )->0 is Num),
        indexed(words, name) is Some ==> told_by(words, name, indexed(words, name)->0),
        constant(words, name) is Some ==> told_by(words, name, constant(words, name)->0),
{
}

/// Every instruction comes from the operator of its name, with the immediates that the
/// operator carries under their keys; an access is to memory 0 and an indirect call
/// through table 0. Nothing is lowered to anything else.
pub proof fn an_instruction_is_its_operator(
    words: Seq<Seq<char>>,
    name: Seq<char>,
    text: Seq<char>,
    location: Seq<char>,
)
    ensures
        match lowered(words, name, text, location) {
            Ok(Instruction::Plain(op)) => told_by(words, name, op),
            Ok(Instruction::Table(targets, default)) => {
                &&& name == "BrTable"@
                &&& immediate(words, "default"@) == Some(default as int)
                &&& words.len() >= 8 ==> targets.len() == words.len() - 8
                &&& forall|i: int|
                    0 <= i < targets.len() ==> number(words[8 + i]) == Some(
                        #[trigger] targets[i] as int,
                    )
            },
            Err(_) => true,
        },
{
    lemma_atomic(name);
    lemma_access(name);
    lemma_simple(words, name);
    lemma_targets(words, 8);
}

proof fn lemma_targets(words: Seq<Seq<char>>, at: int)
    requires
        0 <= at,
    ensures
        match crate::module::lower::targets_from(words, at) {
            Some(targets) => {
                &&& at <= words.len() ==> targets.len() == words.len() - at
                &&& at > words.len() ==> targets.len() == 0
                &&& forall|i: int|
                    0 <= i < targets.len() ==> number(words[at + i]) == Some(
                        #[trigger] targets[i] as int,
                    )
            },
            None => true,
        },
    decreases words.len() - at,
{
    if at < words.len() {
        lemma_targets(words, at + 1);
        let here = crate::module::lower::targets_from(words, at);
        let rest = crate::module::lower::targets_from(words, at + 1);
        if here is Some {
            let targets = here->0;
            assert forall|i: int| 0 <= i < targets.len() implies number(words[at + i]) == Some(
                #[trigger] targets[i] as int,
            ) by {
                if i > 0 {
                    assert(targets[i] == (rest->0)[i - 1]);
                    assert(at + 1 + (i - 1) == at + i);
                }
            }
        }
    }
}

/// What is not lowered is an error that says what it is and where it was found.
pub proof fn what_is_not_lowered_is_named(
    words: Seq<Seq<char>>,
    name: Seq<char>,
    text: Seq<char>,
    location: Seq<char>,
)
    requires
        num_op(name) is None,
        plain_named(name) is None,
        indexed(words, name) is None,
        constant(words, name) is None,
        load_named(name) is None,
        store_named(name) is None,
        atomic_named(name) is None,
        name != "Block"@ && name != "Loop"@ && name != "If"@ && name != "BrTable"@ && name
            != "CallIndirect"@,
    ensures
        lowered(words, name, text, location) == Err::<Instruction, Failure>(
            Failure::Unsupported(text, location),
        ),
{
}

} // verus!
