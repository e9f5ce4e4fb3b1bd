//! Recognising the same code in another module.

use vstd::prelude::*;
use vstd::string::StringExecFns;
use vstd::utf8::encode_utf8;
use crate::module::types::{
    Atomic, AtomicKind, BlockType, Func, LoadKind, Module, Op, StoreKind, ValType,
};
use crate::text::pieces::{decimal, push_decimal};

verus! {

/// The shortest function worth fingerprinting.
///
/// Below this, distinct functions collide: a three-instruction accessor has the
/// same shape as every other three-instruction accessor.
pub const FINGERPRINT_FLOOR: usize = 20;

/// A hash with some bytes written into it.
pub open spec fn hash_bytes(hash: u64, bytes: Seq<u8>) -> u64
    decreases bytes.len(),
{
    if bytes.len() == 0 {
        hash
    } else {
        (hash_bytes(hash, bytes.drop_last()) ^ (bytes.last() as u64)).wrapping_mul(
            0x0000_0100_0000_01b3,
        )
    }
}

/// A hash with a text written into it.
pub open spec fn hash_text(hash: u64, text: Seq<char>) -> u64 {
    hash_bytes(hash, encode_utf8(text))
}

fn write_text(hash: u64, text: &str) -> (out: u64)
    ensures
        out == hash_text(hash, text@),
{
    let bytes: &[u8] = text.as_bytes();
    let mut out: u64 = hash;
    let mut i: usize = 0;
    assert(bytes@.take(0) =~= Seq::empty());
    while i < bytes.len()
        invariant
            i <= bytes@.len(),
            out == hash_bytes(hash, bytes@.take(i as int)),
        decreases bytes@.len() - i,
    {
        proof {
            let next = bytes@.take(i + 1);
            assert(next.drop_last() =~= bytes@.take(i as int));
            assert(next.last() == bytes@[i as int]);
        }
        out = (out ^ (bytes[i] as u64)).wrapping_mul(0x0000_0100_0000_01b3);
        i = i + 1;
    }
    assert(bytes@.take(i as int) =~= bytes@);
    out
}

/// The name of a value type.
pub open spec fn type_word(ty: ValType) -> Seq<char> {
    match ty {
        ValType::I32 => "I32"@,
        ValType::I64 => "I64"@,
        ValType::F32 => "F32"@,
        ValType::F64 => "F64"@,
    }
}

fn name_of_type(ty: ValType) -> (name: &'static str)
    ensures
        name@ == type_word(ty),
{
    match ty {
        ValType::I32 => "I32",
        ValType::I64 => "I64",
        ValType::F32 => "F32",
        ValType::F64 => "F64",
    }
}

/// The name of a load.
pub open spec fn load_name(kind: LoadKind) -> Seq<char> {
    match kind {
        LoadKind::I32 => "I32"@,
        LoadKind::I64 => "I64"@,
        LoadKind::F32 => "F32"@,
        LoadKind::F64 => "F64"@,
        LoadKind::I32Load8S => "I32Load8S"@,
        LoadKind::I32Load8U => "I32Load8U"@,
        LoadKind::I32Load16S => "I32Load16S"@,
        LoadKind::I32Load16U => "I32Load16U"@,
        LoadKind::I64Load8S => "I64Load8S"@,
        LoadKind::I64Load8U => "I64Load8U"@,
        LoadKind::I64Load16S => "I64Load16S"@,
        LoadKind::I64Load16U => "I64Load16U"@,
        LoadKind::I64Load32S => "I64Load32S"@,
        LoadKind::I64Load32U => "I64Load32U"@,
    }
}

fn name_of_load(kind: LoadKind) -> (name: &'static str)
    ensures
        name@ == load_name(kind),
{
    match kind {
        LoadKind::I32 => "I32",
        LoadKind::I64 => "I64",
        LoadKind::F32 => "F32",
        LoadKind::F64 => "F64",
        LoadKind::I32Load8S => "I32Load8S",
        LoadKind::I32Load8U => "I32Load8U",
        LoadKind::I32Load16S => "I32Load16S",
        LoadKind::I32Load16U => "I32Load16U",
        LoadKind::I64Load8S => "I64Load8S",
        LoadKind::I64Load8U => "I64Load8U",
        LoadKind::I64Load16S => "I64Load16S",
        LoadKind::I64Load16U => "I64Load16U",
        LoadKind::I64Load32S => "I64Load32S",
        LoadKind::I64Load32U => "I64Load32U",
    }
}

/// The name of a store.
pub open spec fn store_name(kind: StoreKind) -> Seq<char> {
    match kind {
        StoreKind::I32 => "I32"@,
        StoreKind::I64 => "I64"@,
        StoreKind::F32 => "F32"@,
        StoreKind::F64 => "F64"@,
        StoreKind::I32Store8 => "I32Store8"@,
        StoreKind::I32Store16 => "I32Store16"@,
        StoreKind::I64Store8 => "I64Store8"@,
        StoreKind::I64Store16 => "I64Store16"@,
        StoreKind::I64Store32 => "I64Store32"@,
    }
}

fn name_of_store(kind: StoreKind) -> (name: &'static str)
    ensures
        name@ == store_name(kind),
{
    match kind {
        StoreKind::I32 => "I32",
        StoreKind::I64 => "I64",
        StoreKind::F32 => "F32",
        StoreKind::F64 => "F64",
        StoreKind::I32Store8 => "I32Store8",
        StoreKind::I32Store16 => "I32Store16",
        StoreKind::I64Store8 => "I64Store8",
        StoreKind::I64Store16 => "I64Store16",
        StoreKind::I64Store32 => "I64Store32",
    }
}

/// A name with something in brackets after it.
pub open spec fn bracketed(name: Seq<char>, inside: Seq<char>) -> Seq<char> {
    name + "("@ + inside + ")"@
}

fn bracket(name: &str, inside: &str) -> (text: String)
    ensures
        text@ == bracketed(name@, inside@),
{
    let mut text: String = name.to_owned();
    text.append("(");
    text.append(inside);
    text.append(")");
    text
}

fn bracket_number(name: &str, n: u32) -> (text: String)
    ensures
        text@ == bracketed(name@, decimal(n as nat)),
{
    let mut text: String = name.to_owned();
    text.append("(");
    push_decimal(&mut text, n as u64);
    text.append(")");
    text
}

/// A block type, spelled.
pub open spec fn block_name(ty: BlockType) -> Seq<char> {
    match ty {
        BlockType::Empty => "Empty"@,
        BlockType::Value(ty) => bracketed("Value"@, type_word(ty)),
        BlockType::Func(index) => bracketed("Func"@, decimal(index as nat)),
    }
}

fn name_of_block(ty: BlockType) -> (text: String)
    ensures
        text@ == block_name(ty),
{
    match ty {
        BlockType::Empty => "Empty".to_owned(),
        BlockType::Value(ty) => bracket("Value", name_of_type(ty)),
        BlockType::Func(index) => bracket_number("Func", index),
    }
}

/// What an atomic does, spelled.
pub open spec fn atomic_name(kind: AtomicKind) -> Seq<char> {
    match kind {
        AtomicKind::Load => "Load"@,
        AtomicKind::Store => "Store"@,
        AtomicKind::Rmw(kind) => bracketed("Rmw"@, kind.called()),
        AtomicKind::Cmpxchg => "Cmpxchg"@,
        AtomicKind::Wait => "Wait"@,
        AtomicKind::Notify => "Notify"@,
    }
}

fn name_of_atomic(kind: AtomicKind) -> (text: String)
    ensures
        text@ == atomic_name(kind),
{
    match kind {
        AtomicKind::Load => "Load".to_owned(),
        AtomicKind::Store => "Store".to_owned(),
        AtomicKind::Rmw(kind) => bracket("Rmw", kind.rt_name()),
        AtomicKind::Cmpxchg => "Cmpxchg".to_owned(),
        AtomicKind::Wait => "Wait".to_owned(),
        AtomicKind::Notify => "Notify".to_owned(),
    }
}

/// An atomic instruction, spelled without where it reaches.
pub open spec fn atomic_text(op: Atomic) -> Seq<char> {
    "aAtomic { kind: "@ + atomic_name(op.kind) + ", ty: "@ + type_word(op.ty) + ", width: "@
        + decimal(op.width as nat) + " }"@
}

fn text_of_atomic(op: &Atomic) -> (text: String)
    ensures
        text@ == atomic_text(*op),
{
    let mut text: String = "aAtomic { kind: ".to_owned();
    let kind: String = name_of_atomic(op.kind);
    text.append(kind.as_str());
    text.append(", ty: ");
    text.append(name_of_type(op.ty));
    text.append(", width: ");
    push_decimal(&mut text, op.width as u64);
    text.append(" }");
    text
}

/// Numbers with a comma between each two.
pub open spec fn listed_numbers(numbers: Seq<u32>) -> Seq<char>
    decreases numbers.len(),
{
    if numbers.len() == 0 {
        Seq::empty()
    } else if numbers.len() == 1 {
        decimal(numbers[0] as nat)
    } else {
        listed_numbers(numbers.drop_last()) + ", "@ + decimal(numbers.last() as nat)
    }
}

/// A branch table, spelled.
pub open spec fn table_text(targets: Seq<u32>, default: u32) -> Seq<char> {
    "BrTable { targets: ["@ + listed_numbers(targets) + "], default: "@ + decimal(default as nat)
        + " }"@
}

fn text_of_table(targets: &Vec<u32>, default: u32) -> (text: String)
    ensures
        text@ == table_text(targets@, default),
{
    let mut text: String = "BrTable { targets: [".to_owned();
    let ghost opening = text@;
    let mut i: usize = 0;
    assert(targets@.take(0) =~= Seq::empty());
    assert(opening + Seq::<char>::empty() =~= opening);
    while i < targets.len()
        invariant
            i <= targets@.len(),
            text@ == opening + listed_numbers(targets@.take(i as int)),
        decreases targets@.len() - i,
    {
        proof {
            let next = targets@.take(i + 1);
            assert(next.drop_last() =~= targets@.take(i as int));
            assert(next.last() == targets@[i as int]);
        }
        if i > 0 {
            text.append(", ");
        }
        push_decimal(&mut text, targets[i] as u64);
        i = i + 1;
        assert(text@ =~= opening + listed_numbers(targets@.take(i as int)));
    }
    assert(targets@.take(i as int) =~= targets@);
    text.append("], default: ");
    push_decimal(&mut text, default as u64);
    text.append(" }");
    text
}

/// What an instruction contributes to a fingerprint: its name and immediates,
/// without what differs between builds of the same source, which is constants,
/// call targets, memory offsets, and the indices of globals and data segments.
pub open spec fn op_shape(op: Op) -> Seq<char> {
    match op {
        Op::I32Const(_) => "c"@,
        Op::I64Const(_) => "C"@,
        Op::F32Const(_) | Op::F64Const(_) => "F"@,
        Op::Call(_) => "k"@,
        Op::CallIndirect { .. } => "K"@,
        Op::Load { kind, .. } => "l"@ + load_name(kind),
        Op::Store { kind, .. } => "s"@ + store_name(kind),
        Op::GlobalGet(_) | Op::GlobalSet(_) => "g"@,
        Op::MemoryInit(_) | Op::DataDrop(_) => "d"@,
        Op::Unreachable => "Unreachable"@,
        Op::Nop => "Nop"@,
        Op::Block(ty) => bracketed("Block"@, block_name(ty)),
        Op::Loop(ty) => bracketed("Loop"@, block_name(ty)),
        Op::If(ty) => bracketed("If"@, block_name(ty)),
        Op::Else => "Else"@,
        Op::End => "End"@,
        Op::Br(depth) => bracketed("Br"@, decimal(depth as nat)),
        Op::BrIf(depth) => bracketed("BrIf"@, decimal(depth as nat)),
        Op::BrTable { targets, default } => table_text(targets@, default),
        Op::Return => "Return"@,
        Op::Drop => "Drop"@,
        Op::Select => "Select"@,
        Op::LocalGet(index) => bracketed("LocalGet"@, decimal(index as nat)),
        Op::LocalSet(index) => bracketed("LocalSet"@, decimal(index as nat)),
        Op::LocalTee(index) => bracketed("LocalTee"@, decimal(index as nat)),
        Op::MemorySize => "MemorySize"@,
        Op::MemoryGrow => "MemoryGrow"@,
        Op::MemoryCopy => "MemoryCopy"@,
        Op::MemoryFill => "MemoryFill"@,
        Op::Atomic { op, .. } => atomic_text(op),
        Op::AtomicFence => "AtomicFence"@,
        Op::Num(num) => bracketed("Num"@, num.called()),
    }
}

/// What an instruction contributes to a fingerprint.
pub fn shape_of(op: &Op) -> (text: String)
    ensures
        text@ == op_shape(*op),
{
    match op {
        Op::I32Const(_) => "c".to_owned(),
        Op::I64Const(_) => "C".to_owned(),
        Op::F32Const(_) | Op::F64Const(_) => "F".to_owned(),
        Op::Call(_) => "k".to_owned(),
        Op::CallIndirect { .. } => "K".to_owned(),
        Op::Load { kind, .. } => {
            let mut text: String = "l".to_owned();
            text.append(name_of_load(*kind));
            text
        },
        Op::Store { kind, .. } => {
            let mut text: String = "s".to_owned();
            text.append(name_of_store(*kind));
            text
        },
        Op::GlobalGet(_) | Op::GlobalSet(_) => "g".to_owned(),
        Op::MemoryInit(_) | Op::DataDrop(_) => "d".to_owned(),
        Op::Unreachable => "Unreachable".to_owned(),
        Op::Nop => "Nop".to_owned(),
        Op::Block(ty) => bracket("Block", name_of_block(*ty).as_str()),
        Op::Loop(ty) => bracket("Loop", name_of_block(*ty).as_str()),
        Op::If(ty) => bracket("If", name_of_block(*ty).as_str()),
        Op::Else => "Else".to_owned(),
        Op::End => "End".to_owned(),
        Op::Br(depth) => bracket_number("Br", *depth),
        Op::BrIf(depth) => bracket_number("BrIf", *depth),
        Op::BrTable { targets, default } => text_of_table(targets, *default),
        Op::Return => "Return".to_owned(),
        Op::Drop => "Drop".to_owned(),
        Op::Select => "Select".to_owned(),
        Op::LocalGet(index) => bracket_number("LocalGet", *index),
        Op::LocalSet(index) => bracket_number("LocalSet", *index),
        Op::LocalTee(index) => bracket_number("LocalTee", *index),
        Op::MemorySize => "MemorySize".to_owned(),
        Op::MemoryGrow => "MemoryGrow".to_owned(),
        Op::MemoryCopy => "MemoryCopy".to_owned(),
        Op::MemoryFill => "MemoryFill".to_owned(),
        Op::Atomic { op, .. } => text_of_atomic(op),
        Op::AtomicFence => "AtomicFence".to_owned(),
        Op::Num(num) => bracket("Num", num.name()),
    }
}

/// A hash with some types written into it, each after a letter.
pub open spec fn hash_types(hash: u64, letter: Seq<char>, types: Seq<ValType>) -> u64
    decreases types.len(),
{
    if types.len() == 0 {
        hash
    } else {
        hash_text(
            hash_types(hash, letter, types.drop_last()),
            letter + type_word(types.last()),
        )
    }
}

fn write_types(hash: u64, letter: &str, types: &Vec<ValType>) -> (out: u64)
    ensures
        out == hash_types(hash, letter@, types@),
{
    let mut out: u64 = hash;
    let mut i: usize = 0;
    assert(types@.take(0) =~= Seq::empty());
    while i < types.len()
        invariant
            i <= types@.len(),
            out == hash_types(hash, letter@, types@.take(i as int)),
        decreases types@.len() - i,
    {
        proof {
            let next = types@.take(i + 1);
            assert(next.drop_last() =~= types@.take(i as int));
            assert(next.last() == types@[i as int]);
        }
        let mut text: String = letter.to_owned();
        text.append(name_of_type(types[i]));
        out = write_text(out, text.as_str());
        i = i + 1;
    }
    assert(types@.take(i as int) =~= types@);
    out
}

/// A hash with a body written into it.
pub open spec fn hash_body(hash: u64, body: Seq<Op>) -> u64
    decreases body.len(),
{
    if body.len() == 0 {
        hash
    } else {
        hash_text(hash_body(hash, body.drop_last()), op_shape(body.last()))
    }
}

/// The hash before anything is written into it.
pub open spec fn empty_hash() -> u64 {
    0xcbf2_9ce4_8422_2325
}

/// The hash of a function's signature. Two bodies of the same shape that take
/// different arguments are not the same function.
pub open spec fn hash_signature(module: &Module, type_index: u32) -> u64 {
    if type_index < module.types@.len() {
        let ty = module.types@[type_index as int];
        hash_types(hash_types(empty_hash(), "p"@, ty.params@), "r"@, ty.results@)
    } else {
        empty_hash()
    }
}

/// The fingerprint of a function.
pub open spec fn fingerprint_of(module: &Module, func: Func) -> u64 {
    hash_body(hash_signature(module, func.type_index), func.body@)
}

/// A fingerprint of a function's body, for recognising the same code in
/// another module.
///
/// Constants, call targets and memory offsets are left out: those move between
/// builds while the shape of the code does not. A match is strong evidence and a
/// miss is no evidence.
pub fn fingerprint(module: &Module, func: &Func) -> (hash: u64)
    ensures
        hash == fingerprint_of(module, *func),
{
    let mut hash: u64 = 0xcbf2_9ce4_8422_2325;
    let at: usize = func.type_index as usize;
    if at < module.types.len() {
        hash = write_types(hash, "p", &module.types[at].params);
        hash = write_types(hash, "r", &module.types[at].results);
    }
    let ghost start = hash;
    let mut i: usize = 0;
    assert(func.body@.take(0) =~= Seq::empty());
    while i < func.body.len()
        invariant
            i <= func.body@.len(),
            hash == hash_body(start, func.body@.take(i as int)),
        decreases func.body@.len() - i,
    {
        proof {
            let next = func.body@.take(i + 1);
            assert(next.drop_last() =~= func.body@.take(i as int));
            assert(next.last() == func.body@[i as int]);
        }
        let text: String = shape_of(&func.body[i]);
        hash = write_text(hash, text.as_str());
        i = i + 1;
    }
    assert(func.body@.take(i as int) =~= func.body@);
    hash
}

/// Whether two instructions differ at most in what differs between builds of the
/// same source.
pub open spec fn same_but_for_the_build(a: Op, b: Op) -> bool {
    match (a, b) {
        (Op::I32Const(_), Op::I32Const(_)) => true,
        (Op::I64Const(_), Op::I64Const(_)) => true,
        (Op::F32Const(_), Op::F32Const(_)) => true,
        (Op::F64Const(_), Op::F64Const(_)) => true,
        (Op::Call(_), Op::Call(_)) => true,
        (Op::CallIndirect { .. }, Op::CallIndirect { .. }) => true,
        (Op::Load { kind: one, .. }, Op::Load { kind: other, .. }) => one == other,
        (Op::Store { kind: one, .. }, Op::Store { kind: other, .. }) => one == other,
        (Op::Atomic { op: one, .. }, Op::Atomic { op: other, .. }) => one == other,
        (Op::GlobalGet(_), Op::GlobalGet(_)) => true,
        (Op::GlobalSet(_), Op::GlobalSet(_)) => true,
        (Op::MemoryInit(_), Op::MemoryInit(_)) => true,
        (Op::DataDrop(_), Op::DataDrop(_)) => true,
        _ => a == b,
    }
}

/// Two functions whose signatures hash alike, as equal ones do and as two that name
/// no type do, and whose instructions differ only in constants, call targets, memory
/// offsets and the indices of globals and data segments, have the same fingerprint,
/// in one module or in two.
pub proof fn fingerprint_ignores_the_build(a: &Module, f: Func, b: &Module, g: Func)
    requires
        hash_signature(a, f.type_index) == hash_signature(b, g.type_index),
        f.body@.len() == g.body@.len(),
        forall|i: int|
            0 <= i < f.body@.len() ==> same_but_for_the_build(#[trigger] f.body@[i], g.body@[i]),
    ensures
        fingerprint_of(a, f) == fingerprint_of(b, g),
{
    lemma_same_hash(hash_signature(a, f.type_index), f.body@, g.body@);
}

proof fn lemma_same_hash(hash: u64, f: Seq<Op>, g: Seq<Op>)
    requires
        f.len() == g.len(),
        forall|i: int| 0 <= i < f.len() ==> same_but_for_the_build(#[trigger] f[i], g[i]),
    ensures
        hash_body(hash, f) == hash_body(hash, g),
    decreases f.len(),
{
    if f.len() > 0 {
        assert(same_but_for_the_build(f[f.len() - 1], g[f.len() - 1]));
        assert forall|i: int| 0 <= i < f.drop_last().len() implies same_but_for_the_build(
            #[trigger] f.drop_last()[i],
            g.drop_last()[i],
        ) by {
            assert(same_but_for_the_build(f[i], g[i]));
        }
        lemma_same_hash(hash, f.drop_last(), g.drop_last());
    }
}

} // verus!
