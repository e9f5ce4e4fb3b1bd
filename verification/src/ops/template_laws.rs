//! What holds of every numeric instruction: what it takes and makes, and how it is written.

use vstd::prelude::*;
use crate::module::types::ValType;
use crate::ops::table::NumOp;

verus! {

// ---- operands ----

/// What an instruction takes and makes, by what it is.
pub open spec fn takes_and_makes(op: NumOp) -> (Seq<ValType>, ValType) {
    match op {
        NumOp::I32Eqz
        | NumOp::I32Clz
        | NumOp::I32Ctz
        | NumOp::I32Popcnt
        | NumOp::I32Extend8S
        | NumOp::I32Extend16S => (
            seq![ValType::I32],
            ValType::I32,
        ),
        NumOp::I32Eq
        | NumOp::I32Ne
        | NumOp::I32LtS
        | NumOp::I32LtU
        | NumOp::I32GtS
        | NumOp::I32GtU
        | NumOp::I32LeS
        | NumOp::I32LeU
        | NumOp::I32GeS
        | NumOp::I32GeU
        | NumOp::I32Add
        | NumOp::I32Sub
        | NumOp::I32Mul
        | NumOp::I32DivS
        | NumOp::I32DivU
        | NumOp::I32RemS
        | NumOp::I32RemU
        | NumOp::I32And
        | NumOp::I32Or
        | NumOp::I32Xor
        | NumOp::I32Shl
        | NumOp::I32ShrS
        | NumOp::I32ShrU
        | NumOp::I32Rotl
        | NumOp::I32Rotr => (
            seq![ValType::I32, ValType::I32],
            ValType::I32,
        ),
        NumOp::I64Eqz
        | NumOp::I32WrapI64 => (
            seq![ValType::I64],
            ValType::I32,
        ),
        NumOp::I64Eq
        | NumOp::I64Ne
        | NumOp::I64LtS
        | NumOp::I64LtU
        | NumOp::I64GtS
        | NumOp::I64GtU
        | NumOp::I64LeS
        | NumOp::I64LeU
        | NumOp::I64GeS
        | NumOp::I64GeU => (
            seq![ValType::I64, ValType::I64],
            ValType::I32,
        ),
        NumOp::I64Clz
        | NumOp::I64Ctz
        | NumOp::I64Popcnt
        | NumOp::I64Extend8S
        | NumOp::I64Extend16S
        | NumOp::I64Extend32S => (
            seq![ValType::I64],
            ValType::I64,
        ),
        NumOp::I64Add
        | NumOp::I64Sub
        | NumOp::I64Mul
        | NumOp::I64DivS
        | NumOp::I64DivU
        | NumOp::I64RemS
        | NumOp::I64RemU
        | NumOp::I64And
        | NumOp::I64Or
        | NumOp::I64Xor
        | NumOp::I64Shl
        | NumOp::I64ShrS
        | NumOp::I64ShrU
        | NumOp::I64Rotl
        | NumOp::I64Rotr => (
            seq![ValType::I64, ValType::I64],
            ValType::I64,
        ),
        NumOp::F32Eq
        | NumOp::F32Ne
        | NumOp::F32Lt
        | NumOp::F32Gt
        | NumOp::F32Le
        | NumOp::F32Ge => (
            seq![ValType::F32, ValType::F32],
            ValType::I32,
        ),
        NumOp::F32Abs
        | NumOp::F32Neg
        | NumOp::F32Ceil
        | NumOp::F32Floor
        | NumOp::F32Trunc
        | NumOp::F32Nearest
        | NumOp::F32Sqrt => (
            seq![ValType::F32],
            ValType::F32,
        ),
        NumOp::F32Add
        | NumOp::F32Sub
        | NumOp::F32Mul
        | NumOp::F32Div
        | NumOp::F32Min
        | NumOp::F32Max
        | NumOp::F32Copysign => (
            seq![ValType::F32, ValType::F32],
            ValType::F32,
        ),
        NumOp::F64Eq
        | NumOp::F64Ne
        | NumOp::F64Lt
        | NumOp::F64Gt
        | NumOp::F64Le
        | NumOp::F64Ge => (
            seq![ValType::F64, ValType::F64],
            ValType::I32,
        ),
        NumOp::F64Abs
        | NumOp::F64Neg
        | NumOp::F64Ceil
        | NumOp::F64Floor
        | NumOp::F64Trunc
        | NumOp::F64Nearest
        | NumOp::F64Sqrt => (
            seq![ValType::F64],
            ValType::F64,
        ),
        NumOp::F64Add
        | NumOp::F64Sub
        | NumOp::F64Mul
        | NumOp::F64Div
        | NumOp::F64Min
        | NumOp::F64Max
        | NumOp::F64Copysign => (
            seq![ValType::F64, ValType::F64],
            ValType::F64,
        ),
        NumOp::I32TruncF32S
        | NumOp::I32TruncF32U
        | NumOp::I32ReinterpretF32
        | NumOp::I32TruncSatF32S
        | NumOp::I32TruncSatF32U => (
            seq![ValType::F32],
            ValType::I32,
        ),
        NumOp::I32TruncF64S
        | NumOp::I32TruncF64U
        | NumOp::I32TruncSatF64S
        | NumOp::I32TruncSatF64U => (
            seq![ValType::F64],
            ValType::I32,
        ),
        NumOp::I64ExtendI32S
        | NumOp::I64ExtendI32U => (
            seq![ValType::I32],
            ValType::I64,
        ),
        NumOp::I64TruncF32S
        | NumOp::I64TruncF32U
        | NumOp::I64TruncSatF32S
        | NumOp::I64TruncSatF32U => (
            seq![ValType::F32],
            ValType::I64,
        ),
        NumOp::I64TruncF64S
        | NumOp::I64TruncF64U
        | NumOp::I64ReinterpretF64
        | NumOp::I64TruncSatF64S
        | NumOp::I64TruncSatF64U => (
            seq![ValType::F64],
            ValType::I64,
        ),
        NumOp::F32ConvertI32S
        | NumOp::F32ConvertI32U
        | NumOp::F32ReinterpretI32 => (
            seq![ValType::I32],
            ValType::F32,
        ),
        NumOp::F32ConvertI64S
        | NumOp::F32ConvertI64U => (
            seq![ValType::I64],
            ValType::F32,
        ),
        NumOp::F32DemoteF64 => (
            seq![ValType::F64],
            ValType::F32,
        ),
        NumOp::F64ConvertI32S
        | NumOp::F64ConvertI32U => (
            seq![ValType::I32],
            ValType::F64,
        ),
        NumOp::F64ConvertI64S
        | NumOp::F64ConvertI64U
        | NumOp::F64ReinterpretI64 => (
            seq![ValType::I64],
            ValType::F64,
        ),
        NumOp::F64PromoteF32 => (
            seq![ValType::F32],
            ValType::F64,
        ),
    }
}

/// An instruction takes operands of the type it is of, one or two, and makes a value of it;
/// one that compares makes a truth value, and one that converts takes what it converts
/// from.
pub proof fn operands_go_by_the_type(op: NumOp)
    ensures
        op.pops() == takes_and_makes(op).0,
        op.pushes() == takes_and_makes(op).1,
{
    assert(op.pops() =~= takes_and_makes(op).0);
}

// ---- templates ----

/// A comparison, as a truth value.
pub open spec fn compared(sign: Seq<char>) -> Seq<char> {
    "(({0} "@ + sign + " {1}) as i32)"@
}

/// A comparison with zero.
pub open spec fn against_zero() -> Seq<char> {
    "(({0} == 0) as i32)"@
}

/// A comparison of what both are as another type, which has no sign.
pub open spec fn compared_as(ty: Seq<char>, sign: Seq<char>) -> Seq<char> {
    "((({0} as "@ + ty + ") "@ + sign + " ({1} as "@ + ty + ")) as i32)"@
}

/// A method without an argument, whose result is another type.
pub open spec fn counting(name: Seq<char>, ty: Seq<char>) -> Seq<char> {
    "({0}."@ + name + "() as "@ + ty + ")"@
}

/// A method with the second operand as its argument.
pub open spec fn method(name: Seq<char>) -> Seq<char> {
    "{0}."@ + name + "({1})"@
}

/// A method without an argument.
pub open spec fn plain_method(name: Seq<char>) -> Seq<char> {
    "{0}."@ + name + "()"@
}

/// An operator between both operands.
pub open spec fn infix(sign: Seq<char>) -> Seq<char> {
    "({0} "@ + sign + " {1})"@
}

/// The operand with its sign turned.
pub open spec fn negated() -> Seq<char> {
    "(-{0})"@
}

/// A shift, whose count is taken modulo the width.
pub open spec fn shifted(sign: Seq<char>, mask: Seq<char>) -> Seq<char> {
    "({0} "@ + sign + " ({1} & "@ + mask + "))"@
}

/// A shift to the right of what the operand is without a sign.
pub open spec fn shifted_as(ty: Seq<char>, mask: Seq<char>, back: Seq<char>) -> Seq<char> {
    "((({0} as "@ + ty + ") >> ({1} as "@ + ty + " & "@ + mask + ")) as "@ + back + ")"@
}

/// A rotation, whose count is taken modulo the width.
pub open spec fn rotated(name: Seq<char>, ty: Seq<char>, mask: Seq<char>) -> Seq<char> {
    "{0}."@ + name + "({1} as "@ + ty + " & "@ + mask + ")"@
}

/// A function of the runtime, which traps where the instruction does, of one operand.
pub open spec fn runtime_of_one(name: Seq<char>) -> Seq<char> {
    "rt::"@ + name + "({0})"@
}

/// The same of two.
pub open spec fn runtime_of_two(name: Seq<char>) -> Seq<char> {
    "rt::"@ + name + "({0}, {1})"@
}

/// The operand as another type, or as one after another.
pub open spec fn cast(ty: Seq<char>) -> Seq<char> {
    "({0} as "@ + ty + ")"@
}

/// A float made of bits.
pub open spec fn from_bits(ty: Seq<char>, bits: Seq<char>) -> Seq<char> {
    ty + "::from_bits({0} as "@ + bits + ")"@
}

/// How each instruction that makes or compares `i32` is written.
pub open spec fn i32_operations(op: NumOp) -> Seq<char> {
    match op {
        NumOp::I32Eqz => against_zero(),
        NumOp::I32Eq => compared("=="@),
        NumOp::I32Ne => compared("!="@),
        NumOp::I32LtS => compared("<"@),
        NumOp::I32LtU => compared_as("u32"@, "<"@),
        NumOp::I32GtS => compared(">"@),
        NumOp::I32GtU => compared_as("u32"@, ">"@),
        NumOp::I32LeS => compared("<="@),
        NumOp::I32LeU => compared_as("u32"@, "<="@),
        NumOp::I32GeS => compared(">="@),
        NumOp::I32GeU => compared_as("u32"@, ">="@),
        NumOp::I32Clz => counting("leading_zeros"@, "i32"@),
        NumOp::I32Ctz => counting("trailing_zeros"@, "i32"@),
        NumOp::I32Popcnt => counting("count_ones"@, "i32"@),
        NumOp::I32Add => method("wrapping_add"@),
        NumOp::I32Sub => method("wrapping_sub"@),
        NumOp::I32Mul => method("wrapping_mul"@),
        NumOp::I32DivS => runtime_of_two("i32_div_s"@),
        NumOp::I32DivU => runtime_of_two("i32_div_u"@),
        NumOp::I32RemS => runtime_of_two("i32_rem_s"@),
        NumOp::I32RemU => runtime_of_two("i32_rem_u"@),
        NumOp::I32And => infix("&"@),
        NumOp::I32Or => infix("|"@),
        NumOp::I32Xor => infix("^"@),
        NumOp::I32Shl => shifted("<<"@, "31"@),
        NumOp::I32ShrS => shifted(">>"@, "31"@),
        NumOp::I32ShrU => shifted_as("u32"@, "31"@, "i32"@),
        NumOp::I32Rotl => rotated("rotate_left"@, "u32"@, "31"@),
        NumOp::I32Rotr => rotated("rotate_right"@, "u32"@, "31"@),
        NumOp::I32WrapI64 => cast("i32"@),
        NumOp::I32TruncF32S => runtime_of_one("i32_trunc_f32_s"@),
        NumOp::I32TruncF32U => runtime_of_one("i32_trunc_f32_u"@),
        NumOp::I32TruncF64S => runtime_of_one("i32_trunc_f64_s"@),
        NumOp::I32TruncF64U => runtime_of_one("i32_trunc_f64_u"@),
        NumOp::I32ReinterpretF32 => counting("to_bits"@, "i32"@),
        NumOp::I32Extend8S => cast("i8 as i32"@),
        NumOp::I32Extend16S => cast("i16 as i32"@),
        NumOp::I32TruncSatF32S => cast("i32"@),
        NumOp::I32TruncSatF32U => cast("u32 as i32"@),
        NumOp::I32TruncSatF64S => cast("i32"@),
        NumOp::I32TruncSatF64U => cast("u32 as i32"@),
        _ => op.written(),
    }
}

proof fn lemma_i32_operations_0(op: NumOp)
    requires
        op == NumOp::I32Eqz || op == NumOp::I32Eq || op == NumOp::I32Ne || op == NumOp::I32LtS || op == NumOp::I32LtU || op == NumOp::I32GtS || op == NumOp::I32GtU || op == NumOp::I32LeS || op == NumOp::I32LeU,
    ensures
        op.written() == i32_operations(op),
{
    reveal_strlit(" ({1} as ");
    reveal_strlit(" {1}) as i32)");
    reveal_strlit("!=");
    reveal_strlit("((({0} as ");
    reveal_strlit("((({0} as u32) < ({1} as u32)) as i32)");
    reveal_strlit("((({0} as u32) <= ({1} as u32)) as i32)");
    reveal_strlit("((({0} as u32) > ({1} as u32)) as i32)");
    reveal_strlit("(({0} ");
    reveal_strlit("(({0} != {1}) as i32)");
    reveal_strlit("(({0} < {1}) as i32)");
    reveal_strlit("(({0} <= {1}) as i32)");
    reveal_strlit("(({0} == 0) as i32)");
    reveal_strlit("(({0} == {1}) as i32)");
    reveal_strlit("(({0} > {1}) as i32)");
    reveal_strlit(") ");
    reveal_strlit(")) as i32)");
    reveal_strlit("<");
    reveal_strlit("<=");
    reveal_strlit("==");
    reveal_strlit(">");
    reveal_strlit("u32");
    if op == NumOp::I32Eqz {
        assert(op.written() =~= against_zero());
    }
    if op == NumOp::I32Eq {
        assert(op.written() =~= compared("=="@));
    }
    if op == NumOp::I32Ne {
        assert(op.written() =~= compared("!="@));
    }
    if op == NumOp::I32LtS {
        assert(op.written() =~= compared("<"@));
    }
    if op == NumOp::I32LtU {
        assert(op.written() =~= compared_as("u32"@, "<"@));
    }
    if op == NumOp::I32GtS {
        assert(op.written() =~= compared(">"@));
    }
    if op == NumOp::I32GtU {
        assert(op.written() =~= compared_as("u32"@, ">"@));
    }
    if op == NumOp::I32LeS {
        assert(op.written() =~= compared("<="@));
    }
    if op == NumOp::I32LeU {
        assert(op.written() =~= compared_as("u32"@, "<="@));
    }
}

proof fn lemma_i32_operations_1(op: NumOp)
    requires
        op == NumOp::I32GeS || op == NumOp::I32GeU || op == NumOp::I32Clz || op == NumOp::I32Ctz || op == NumOp::I32Popcnt || op == NumOp::I32Add || op == NumOp::I32Sub || op == NumOp::I32Mul || op == NumOp::I32DivS,
    ensures
        op.written() == i32_operations(op),
{
    reveal_strlit(" ({1} as ");
    reveal_strlit(" {1}) as i32)");
    reveal_strlit("((({0} as ");
    reveal_strlit("((({0} as u32) >= ({1} as u32)) as i32)");
    reveal_strlit("(({0} ");
    reveal_strlit("(({0} >= {1}) as i32)");
    reveal_strlit("() as ");
    reveal_strlit("({0}, {1})");
    reveal_strlit("({0}.");
    reveal_strlit("({0}.count_ones() as i32)");
    reveal_strlit("({0}.leading_zeros() as i32)");
    reveal_strlit("({0}.trailing_zeros() as i32)");
    reveal_strlit("({1})");
    reveal_strlit(")");
    reveal_strlit(") ");
    reveal_strlit(")) as i32)");
    reveal_strlit(">=");
    reveal_strlit("count_ones");
    reveal_strlit("i32");
    reveal_strlit("i32_div_s");
    reveal_strlit("leading_zeros");
    reveal_strlit("rt::");
    reveal_strlit("rt::i32_div_s({0}, {1})");
    reveal_strlit("trailing_zeros");
    reveal_strlit("u32");
    reveal_strlit("wrapping_add");
    reveal_strlit("wrapping_mul");
    reveal_strlit("wrapping_sub");
    reveal_strlit("{0}.");
    reveal_strlit("{0}.wrapping_add({1})");
    reveal_strlit("{0}.wrapping_mul({1})");
    reveal_strlit("{0}.wrapping_sub({1})");
    if op == NumOp::I32GeS {
        assert(op.written() =~= compared(">="@));
    }
    if op == NumOp::I32GeU {
        assert(op.written() =~= compared_as("u32"@, ">="@));
    }
    if op == NumOp::I32Clz {
        assert(op.written() =~= counting("leading_zeros"@, "i32"@));
    }
    if op == NumOp::I32Ctz {
        assert(op.written() =~= counting("trailing_zeros"@, "i32"@));
    }
    if op == NumOp::I32Popcnt {
        assert(op.written() =~= counting("count_ones"@, "i32"@));
    }
    if op == NumOp::I32Add {
        assert(op.written() =~= method("wrapping_add"@));
    }
    if op == NumOp::I32Sub {
        assert(op.written() =~= method("wrapping_sub"@));
    }
    if op == NumOp::I32Mul {
        assert(op.written() =~= method("wrapping_mul"@));
    }
    if op == NumOp::I32DivS {
        assert(op.written() =~= runtime_of_two("i32_div_s"@));
    }
}

proof fn lemma_i32_operations_2(op: NumOp)
    requires
        op == NumOp::I32DivU || op == NumOp::I32RemS || op == NumOp::I32RemU || op == NumOp::I32And || op == NumOp::I32Or || op == NumOp::I32Xor || op == NumOp::I32Shl || op == NumOp::I32ShrS || op == NumOp::I32ShrU,
    ensures
        op.written() == i32_operations(op),
{
    reveal_strlit(" & ");
    reveal_strlit(" ({1} & ");
    reveal_strlit(" {1})");
    reveal_strlit("&");
    reveal_strlit("((({0} as ");
    reveal_strlit("((({0} as u32) >> ({1} as u32 & 31)) as i32)");
    reveal_strlit("({0} ");
    reveal_strlit("({0} & {1})");
    reveal_strlit("({0} << ({1} & 31))");
    reveal_strlit("({0} >> ({1} & 31))");
    reveal_strlit("({0} ^ {1})");
    reveal_strlit("({0} | {1})");
    reveal_strlit("({0}, {1})");
    reveal_strlit(")");
    reveal_strlit(") >> ({1} as ");
    reveal_strlit("))");
    reveal_strlit(")) as ");
    reveal_strlit("31");
    reveal_strlit("<<");
    reveal_strlit(">>");
    reveal_strlit("^");
    reveal_strlit("i32");
    reveal_strlit("i32_div_u");
    reveal_strlit("i32_rem_s");
    reveal_strlit("i32_rem_u");
    reveal_strlit("rt::");
    reveal_strlit("rt::i32_div_u({0}, {1})");
    reveal_strlit("rt::i32_rem_s({0}, {1})");
    reveal_strlit("rt::i32_rem_u({0}, {1})");
    reveal_strlit("u32");
    reveal_strlit("|");
    if op == NumOp::I32DivU {
        assert(op.written() =~= runtime_of_two("i32_div_u"@));
    }
    if op == NumOp::I32RemS {
        assert(op.written() =~= runtime_of_two("i32_rem_s"@));
    }
    if op == NumOp::I32RemU {
        assert(op.written() =~= runtime_of_two("i32_rem_u"@));
    }
    if op == NumOp::I32And {
        assert(op.written() =~= infix("&"@));
    }
    if op == NumOp::I32Or {
        assert(op.written() =~= infix("|"@));
    }
    if op == NumOp::I32Xor {
        assert(op.written() =~= infix("^"@));
    }
    if op == NumOp::I32Shl {
        assert(op.written() =~= shifted("<<"@, "31"@));
    }
    if op == NumOp::I32ShrS {
        assert(op.written() =~= shifted(">>"@, "31"@));
    }
    if op == NumOp::I32ShrU {
        assert(op.written() =~= shifted_as("u32"@, "31"@, "i32"@));
    }
}

proof fn lemma_i32_operations_3(op: NumOp)
    requires
        op == NumOp::I32Rotl || op == NumOp::I32Rotr || op == NumOp::I32WrapI64 || op == NumOp::I32TruncF32S || op == NumOp::I32TruncF32U || op == NumOp::I32TruncF64S || op == NumOp::I32TruncF64U || op == NumOp::I32ReinterpretF32 || op == NumOp::I32Extend8S,
    ensures
        op.written() == i32_operations(op),
{
    reveal_strlit(" & ");
    reveal_strlit("() as ");
    reveal_strlit("({0} as ");
    reveal_strlit("({0} as i32)");
    reveal_strlit("({0} as i8 as i32)");
    reveal_strlit("({0})");
    reveal_strlit("({0}.");
    reveal_strlit("({0}.to_bits() as i32)");
    reveal_strlit("({1} as ");
    reveal_strlit(")");
    reveal_strlit("31");
    reveal_strlit("i32");
    reveal_strlit("i32_trunc_f32_s");
    reveal_strlit("i32_trunc_f32_u");
    reveal_strlit("i32_trunc_f64_s");
    reveal_strlit("i32_trunc_f64_u");
    reveal_strlit("i8 as i32");
    reveal_strlit("rotate_left");
    reveal_strlit("rotate_right");
    reveal_strlit("rt::");
    reveal_strlit("rt::i32_trunc_f32_s({0})");
    reveal_strlit("rt::i32_trunc_f32_u({0})");
    reveal_strlit("rt::i32_trunc_f64_s({0})");
    reveal_strlit("rt::i32_trunc_f64_u({0})");
    reveal_strlit("to_bits");
    reveal_strlit("u32");
    reveal_strlit("{0}.");
    reveal_strlit("{0}.rotate_left({1} as u32 & 31)");
    reveal_strlit("{0}.rotate_right({1} as u32 & 31)");
    if op == NumOp::I32Rotl {
        assert(op.written() =~= rotated("rotate_left"@, "u32"@, "31"@));
    }
    if op == NumOp::I32Rotr {
        assert(op.written() =~= rotated("rotate_right"@, "u32"@, "31"@));
    }
    if op == NumOp::I32WrapI64 {
        assert(op.written() =~= cast("i32"@));
    }
    if op == NumOp::I32TruncF32S {
        assert(op.written() =~= runtime_of_one("i32_trunc_f32_s"@));
    }
    if op == NumOp::I32TruncF32U {
        assert(op.written() =~= runtime_of_one("i32_trunc_f32_u"@));
    }
    if op == NumOp::I32TruncF64S {
        assert(op.written() =~= runtime_of_one("i32_trunc_f64_s"@));
    }
    if op == NumOp::I32TruncF64U {
        assert(op.written() =~= runtime_of_one("i32_trunc_f64_u"@));
    }
    if op == NumOp::I32ReinterpretF32 {
        assert(op.written() =~= counting("to_bits"@, "i32"@));
    }
    if op == NumOp::I32Extend8S {
        assert(op.written() =~= cast("i8 as i32"@));
    }
}

proof fn lemma_i32_operations_4(op: NumOp)
    requires
        op == NumOp::I32Extend16S || op == NumOp::I32TruncSatF32S || op == NumOp::I32TruncSatF32U || op == NumOp::I32TruncSatF64S || op == NumOp::I32TruncSatF64U,
    ensures
        op.written() == i32_operations(op),
{
    reveal_strlit("({0} as ");
    reveal_strlit("({0} as i16 as i32)");
    reveal_strlit("({0} as i32)");
    reveal_strlit("({0} as u32 as i32)");
    reveal_strlit(")");
    reveal_strlit("i16 as i32");
    reveal_strlit("i32");
    reveal_strlit("u32 as i32");
    if op == NumOp::I32Extend16S {
        assert(op.written() =~= cast("i16 as i32"@));
    }
    if op == NumOp::I32TruncSatF32S {
        assert(op.written() =~= cast("i32"@));
    }
    if op == NumOp::I32TruncSatF32U {
        assert(op.written() =~= cast("u32 as i32"@));
    }
    if op == NumOp::I32TruncSatF64S {
        assert(op.written() =~= cast("i32"@));
    }
    if op == NumOp::I32TruncSatF64U {
        assert(op.written() =~= cast("u32 as i32"@));
    }
}

/// Arithmetic on `i32` wraps and shift counts are taken modulo 32; what has no sign is compared
/// and shifted as `u32`; and what can trap is a function of the runtime.
pub proof fn i32_operations_are_written_so(op: NumOp)
    ensures
        op.written() == i32_operations(op),
{
    match op {
        NumOp::I32Eqz
        | NumOp::I32Eq
        | NumOp::I32Ne
        | NumOp::I32LtS
        | NumOp::I32LtU
        | NumOp::I32GtS
        | NumOp::I32GtU
        | NumOp::I32LeS
        | NumOp::I32LeU => {
            lemma_i32_operations_0(op);
        },
        NumOp::I32GeS
        | NumOp::I32GeU
        | NumOp::I32Clz
        | NumOp::I32Ctz
        | NumOp::I32Popcnt
        | NumOp::I32Add
        | NumOp::I32Sub
        | NumOp::I32Mul
        | NumOp::I32DivS => {
            lemma_i32_operations_1(op);
        },
        NumOp::I32DivU
        | NumOp::I32RemS
        | NumOp::I32RemU
        | NumOp::I32And
        | NumOp::I32Or
        | NumOp::I32Xor
        | NumOp::I32Shl
        | NumOp::I32ShrS
        | NumOp::I32ShrU => {
            lemma_i32_operations_2(op);
        },
        NumOp::I32Rotl
        | NumOp::I32Rotr
        | NumOp::I32WrapI64
        | NumOp::I32TruncF32S
        | NumOp::I32TruncF32U
        | NumOp::I32TruncF64S
        | NumOp::I32TruncF64U
        | NumOp::I32ReinterpretF32
        | NumOp::I32Extend8S => {
            lemma_i32_operations_3(op);
        },
        NumOp::I32Extend16S
        | NumOp::I32TruncSatF32S
        | NumOp::I32TruncSatF32U
        | NumOp::I32TruncSatF64S
        | NumOp::I32TruncSatF64U => {
            lemma_i32_operations_4(op);
        },
        _ => {},
    }
}

/// How each instruction that makes or compares `i64` is written.
pub open spec fn i64_operations(op: NumOp) -> Seq<char> {
    match op {
        NumOp::I64Eqz => against_zero(),
        NumOp::I64Eq => compared("=="@),
        NumOp::I64Ne => compared("!="@),
        NumOp::I64LtS => compared("<"@),
        NumOp::I64LtU => compared_as("u64"@, "<"@),
        NumOp::I64GtS => compared(">"@),
        NumOp::I64GtU => compared_as("u64"@, ">"@),
        NumOp::I64LeS => compared("<="@),
        NumOp::I64LeU => compared_as("u64"@, "<="@),
        NumOp::I64GeS => compared(">="@),
        NumOp::I64GeU => compared_as("u64"@, ">="@),
        NumOp::I64Clz => counting("leading_zeros"@, "i64"@),
        NumOp::I64Ctz => counting("trailing_zeros"@, "i64"@),
        NumOp::I64Popcnt => counting("count_ones"@, "i64"@),
        NumOp::I64Add => method("wrapping_add"@),
        NumOp::I64Sub => method("wrapping_sub"@),
        NumOp::I64Mul => method("wrapping_mul"@),
        NumOp::I64DivS => runtime_of_two("i64_div_s"@),
        NumOp::I64DivU => runtime_of_two("i64_div_u"@),
        NumOp::I64RemS => runtime_of_two("i64_rem_s"@),
        NumOp::I64RemU => runtime_of_two("i64_rem_u"@),
        NumOp::I64And => infix("&"@),
        NumOp::I64Or => infix("|"@),
        NumOp::I64Xor => infix("^"@),
        NumOp::I64Shl => shifted("<<"@, "63"@),
        NumOp::I64ShrS => shifted(">>"@, "63"@),
        NumOp::I64ShrU => shifted_as("u64"@, "63"@, "i64"@),
        NumOp::I64Rotl => rotated("rotate_left"@, "u64 as u32"@, "63"@),
        NumOp::I64Rotr => rotated("rotate_right"@, "u64 as u32"@, "63"@),
        NumOp::I64ExtendI32S => cast("i64"@),
        NumOp::I64ExtendI32U => cast("u32 as i64"@),
        NumOp::I64TruncF32S => runtime_of_one("i64_trunc_f32_s"@),
        NumOp::I64TruncF32U => runtime_of_one("i64_trunc_f32_u"@),
        NumOp::I64TruncF64S => runtime_of_one("i64_trunc_f64_s"@),
        NumOp::I64TruncF64U => runtime_of_one("i64_trunc_f64_u"@),
        NumOp::I64ReinterpretF64 => counting("to_bits"@, "i64"@),
        NumOp::I64Extend8S => cast("i8 as i64"@),
        NumOp::I64Extend16S => cast("i16 as i64"@),
        NumOp::I64Extend32S => cast("i32 as i64"@),
        NumOp::I64TruncSatF32S => cast("i64"@),
        NumOp::I64TruncSatF32U => cast("u64 as i64"@),
        NumOp::I64TruncSatF64S => cast("i64"@),
        NumOp::I64TruncSatF64U => cast("u64 as i64"@),
        _ => op.written(),
    }
}

proof fn lemma_i64_operations_0(op: NumOp)
    requires
        op == NumOp::I64Eqz || op == NumOp::I64Eq || op == NumOp::I64Ne || op == NumOp::I64LtS || op == NumOp::I64LtU || op == NumOp::I64GtS || op == NumOp::I64GtU || op == NumOp::I64LeS || op == NumOp::I64LeU,
    ensures
        op.written() == i64_operations(op),
{
    reveal_strlit(" ({1} as ");
    reveal_strlit(" {1}) as i32)");
    reveal_strlit("!=");
    reveal_strlit("((({0} as ");
    reveal_strlit("((({0} as u64) < ({1} as u64)) as i32)");
    reveal_strlit("((({0} as u64) <= ({1} as u64)) as i32)");
    reveal_strlit("((({0} as u64) > ({1} as u64)) as i32)");
    reveal_strlit("(({0} ");
    reveal_strlit("(({0} != {1}) as i32)");
    reveal_strlit("(({0} < {1}) as i32)");
    reveal_strlit("(({0} <= {1}) as i32)");
    reveal_strlit("(({0} == 0) as i32)");
    reveal_strlit("(({0} == {1}) as i32)");
    reveal_strlit("(({0} > {1}) as i32)");
    reveal_strlit(") ");
    reveal_strlit(")) as i32)");
    reveal_strlit("<");
    reveal_strlit("<=");
    reveal_strlit("==");
    reveal_strlit(">");
    reveal_strlit("u64");
    if op == NumOp::I64Eqz {
        assert(op.written() =~= against_zero());
    }
    if op == NumOp::I64Eq {
        assert(op.written() =~= compared("=="@));
    }
    if op == NumOp::I64Ne {
        assert(op.written() =~= compared("!="@));
    }
    if op == NumOp::I64LtS {
        assert(op.written() =~= compared("<"@));
    }
    if op == NumOp::I64LtU {
        assert(op.written() =~= compared_as("u64"@, "<"@));
    }
    if op == NumOp::I64GtS {
        assert(op.written() =~= compared(">"@));
    }
    if op == NumOp::I64GtU {
        assert(op.written() =~= compared_as("u64"@, ">"@));
    }
    if op == NumOp::I64LeS {
        assert(op.written() =~= compared("<="@));
    }
    if op == NumOp::I64LeU {
        assert(op.written() =~= compared_as("u64"@, "<="@));
    }
}

proof fn lemma_i64_operations_1(op: NumOp)
    requires
        op == NumOp::I64GeS || op == NumOp::I64GeU || op == NumOp::I64Clz || op == NumOp::I64Ctz || op == NumOp::I64Popcnt || op == NumOp::I64Add || op == NumOp::I64Sub || op == NumOp::I64Mul || op == NumOp::I64DivS,
    ensures
        op.written() == i64_operations(op),
{
    reveal_strlit(" ({1} as ");
    reveal_strlit(" {1}) as i32)");
    reveal_strlit("((({0} as ");
    reveal_strlit("((({0} as u64) >= ({1} as u64)) as i32)");
    reveal_strlit("(({0} ");
    reveal_strlit("(({0} >= {1}) as i32)");
    reveal_strlit("() as ");
    reveal_strlit("({0}, {1})");
    reveal_strlit("({0}.");
    reveal_strlit("({0}.count_ones() as i64)");
    reveal_strlit("({0}.leading_zeros() as i64)");
    reveal_strlit("({0}.trailing_zeros() as i64)");
    reveal_strlit("({1})");
    reveal_strlit(")");
    reveal_strlit(") ");
    reveal_strlit(")) as i32)");
    reveal_strlit(">=");
    reveal_strlit("count_ones");
    reveal_strlit("i64");
    reveal_strlit("i64_div_s");
    reveal_strlit("leading_zeros");
    reveal_strlit("rt::");
    reveal_strlit("rt::i64_div_s({0}, {1})");
    reveal_strlit("trailing_zeros");
    reveal_strlit("u64");
    reveal_strlit("wrapping_add");
    reveal_strlit("wrapping_mul");
    reveal_strlit("wrapping_sub");
    reveal_strlit("{0}.");
    reveal_strlit("{0}.wrapping_add({1})");
    reveal_strlit("{0}.wrapping_mul({1})");
    reveal_strlit("{0}.wrapping_sub({1})");
    if op == NumOp::I64GeS {
        assert(op.written() =~= compared(">="@));
    }
    if op == NumOp::I64GeU {
        assert(op.written() =~= compared_as("u64"@, ">="@));
    }
    if op == NumOp::I64Clz {
        assert(op.written() =~= counting("leading_zeros"@, "i64"@));
    }
    if op == NumOp::I64Ctz {
        assert(op.written() =~= counting("trailing_zeros"@, "i64"@));
    }
    if op == NumOp::I64Popcnt {
        assert(op.written() =~= counting("count_ones"@, "i64"@));
    }
    if op == NumOp::I64Add {
        assert(op.written() =~= method("wrapping_add"@));
    }
    if op == NumOp::I64Sub {
        assert(op.written() =~= method("wrapping_sub"@));
    }
    if op == NumOp::I64Mul {
        assert(op.written() =~= method("wrapping_mul"@));
    }
    if op == NumOp::I64DivS {
        assert(op.written() =~= runtime_of_two("i64_div_s"@));
    }
}

proof fn lemma_i64_operations_2(op: NumOp)
    requires
        op == NumOp::I64DivU || op == NumOp::I64RemS || op == NumOp::I64RemU || op == NumOp::I64And || op == NumOp::I64Or || op == NumOp::I64Xor || op == NumOp::I64Shl || op == NumOp::I64ShrS || op == NumOp::I64ShrU,
    ensures
        op.written() == i64_operations(op),
{
    reveal_strlit(" & ");
    reveal_strlit(" ({1} & ");
    reveal_strlit(" {1})");
    reveal_strlit("&");
    reveal_strlit("((({0} as ");
    reveal_strlit("((({0} as u64) >> ({1} as u64 & 63)) as i64)");
    reveal_strlit("({0} ");
    reveal_strlit("({0} & {1})");
    reveal_strlit("({0} << ({1} & 63))");
    reveal_strlit("({0} >> ({1} & 63))");
    reveal_strlit("({0} ^ {1})");
    reveal_strlit("({0} | {1})");
    reveal_strlit("({0}, {1})");
    reveal_strlit(")");
    reveal_strlit(") >> ({1} as ");
    reveal_strlit("))");
    reveal_strlit(")) as ");
    reveal_strlit("63");
    reveal_strlit("<<");
    reveal_strlit(">>");
    reveal_strlit("^");
    reveal_strlit("i64");
    reveal_strlit("i64_div_u");
    reveal_strlit("i64_rem_s");
    reveal_strlit("i64_rem_u");
    reveal_strlit("rt::");
    reveal_strlit("rt::i64_div_u({0}, {1})");
    reveal_strlit("rt::i64_rem_s({0}, {1})");
    reveal_strlit("rt::i64_rem_u({0}, {1})");
    reveal_strlit("u64");
    reveal_strlit("|");
    if op == NumOp::I64DivU {
        assert(op.written() =~= runtime_of_two("i64_div_u"@));
    }
    if op == NumOp::I64RemS {
        assert(op.written() =~= runtime_of_two("i64_rem_s"@));
    }
    if op == NumOp::I64RemU {
        assert(op.written() =~= runtime_of_two("i64_rem_u"@));
    }
    if op == NumOp::I64And {
        assert(op.written() =~= infix("&"@));
    }
    if op == NumOp::I64Or {
        assert(op.written() =~= infix("|"@));
    }
    if op == NumOp::I64Xor {
        assert(op.written() =~= infix("^"@));
    }
    if op == NumOp::I64Shl {
        assert(op.written() =~= shifted("<<"@, "63"@));
    }
    if op == NumOp::I64ShrS {
        assert(op.written() =~= shifted(">>"@, "63"@));
    }
    if op == NumOp::I64ShrU {
        assert(op.written() =~= shifted_as("u64"@, "63"@, "i64"@));
    }
}

proof fn lemma_i64_operations_3(op: NumOp)
    requires
        op == NumOp::I64Rotl || op == NumOp::I64Rotr || op == NumOp::I64ExtendI32S || op == NumOp::I64ExtendI32U || op == NumOp::I64TruncF32S || op == NumOp::I64TruncF32U || op == NumOp::I64TruncF64S || op == NumOp::I64TruncF64U || op == NumOp::I64ReinterpretF64,
    ensures
        op.written() == i64_operations(op),
{
    reveal_strlit(" & ");
    reveal_strlit("() as ");
    reveal_strlit("({0} as ");
    reveal_strlit("({0} as i64)");
    reveal_strlit("({0} as u32 as i64)");
    reveal_strlit("({0})");
    reveal_strlit("({0}.");
    reveal_strlit("({0}.to_bits() as i64)");
    reveal_strlit("({1} as ");
    reveal_strlit(")");
    reveal_strlit("63");
    reveal_strlit("i64");
    reveal_strlit("i64_trunc_f32_s");
    reveal_strlit("i64_trunc_f32_u");
    reveal_strlit("i64_trunc_f64_s");
    reveal_strlit("i64_trunc_f64_u");
    reveal_strlit("rotate_left");
    reveal_strlit("rotate_right");
    reveal_strlit("rt::");
    reveal_strlit("rt::i64_trunc_f32_s({0})");
    reveal_strlit("rt::i64_trunc_f32_u({0})");
    reveal_strlit("rt::i64_trunc_f64_s({0})");
    reveal_strlit("rt::i64_trunc_f64_u({0})");
    reveal_strlit("to_bits");
    reveal_strlit("u32 as i64");
    reveal_strlit("u64 as u32");
    reveal_strlit("{0}.");
    reveal_strlit("{0}.rotate_left({1} as u64 as u32 & 63)");
    reveal_strlit("{0}.rotate_right({1} as u64 as u32 & 63)");
    if op == NumOp::I64Rotl {
        assert(op.written() =~= rotated("rotate_left"@, "u64 as u32"@, "63"@));
    }
    if op == NumOp::I64Rotr {
        assert(op.written() =~= rotated("rotate_right"@, "u64 as u32"@, "63"@));
    }
    if op == NumOp::I64ExtendI32S {
        assert(op.written() =~= cast("i64"@));
    }
    if op == NumOp::I64ExtendI32U {
        assert(op.written() =~= cast("u32 as i64"@));
    }
    if op == NumOp::I64TruncF32S {
        assert(op.written() =~= runtime_of_one("i64_trunc_f32_s"@));
    }
    if op == NumOp::I64TruncF32U {
        assert(op.written() =~= runtime_of_one("i64_trunc_f32_u"@));
    }
    if op == NumOp::I64TruncF64S {
        assert(op.written() =~= runtime_of_one("i64_trunc_f64_s"@));
    }
    if op == NumOp::I64TruncF64U {
        assert(op.written() =~= runtime_of_one("i64_trunc_f64_u"@));
    }
    if op == NumOp::I64ReinterpretF64 {
        assert(op.written() =~= counting("to_bits"@, "i64"@));
    }
}

proof fn lemma_i64_operations_4(op: NumOp)
    requires
        op == NumOp::I64Extend8S || op == NumOp::I64Extend16S || op == NumOp::I64Extend32S || op == NumOp::I64TruncSatF32S || op == NumOp::I64TruncSatF32U || op == NumOp::I64TruncSatF64S || op == NumOp::I64TruncSatF64U,
    ensures
        op.written() == i64_operations(op),
{
    reveal_strlit("({0} as ");
    reveal_strlit("({0} as i16 as i64)");
    reveal_strlit("({0} as i32 as i64)");
    reveal_strlit("({0} as i64)");
    reveal_strlit("({0} as i8 as i64)");
    reveal_strlit("({0} as u64 as i64)");
    reveal_strlit(")");
    reveal_strlit("i16 as i64");
    reveal_strlit("i32 as i64");
    reveal_strlit("i64");
    reveal_strlit("i8 as i64");
    reveal_strlit("u64 as i64");
    if op == NumOp::I64Extend8S {
        assert(op.written() =~= cast("i8 as i64"@));
    }
    if op == NumOp::I64Extend16S {
        assert(op.written() =~= cast("i16 as i64"@));
    }
    if op == NumOp::I64Extend32S {
        assert(op.written() =~= cast("i32 as i64"@));
    }
    if op == NumOp::I64TruncSatF32S {
        assert(op.written() =~= cast("i64"@));
    }
    if op == NumOp::I64TruncSatF32U {
        assert(op.written() =~= cast("u64 as i64"@));
    }
    if op == NumOp::I64TruncSatF64S {
        assert(op.written() =~= cast("i64"@));
    }
    if op == NumOp::I64TruncSatF64U {
        assert(op.written() =~= cast("u64 as i64"@));
    }
}

/// The same on `i64`, modulo 64 and as `u64`.
pub proof fn i64_operations_are_written_so(op: NumOp)
    ensures
        op.written() == i64_operations(op),
{
    match op {
        NumOp::I64Eqz
        | NumOp::I64Eq
        | NumOp::I64Ne
        | NumOp::I64LtS
        | NumOp::I64LtU
        | NumOp::I64GtS
        | NumOp::I64GtU
        | NumOp::I64LeS
        | NumOp::I64LeU => {
            lemma_i64_operations_0(op);
        },
        NumOp::I64GeS
        | NumOp::I64GeU
        | NumOp::I64Clz
        | NumOp::I64Ctz
        | NumOp::I64Popcnt
        | NumOp::I64Add
        | NumOp::I64Sub
        | NumOp::I64Mul
        | NumOp::I64DivS => {
            lemma_i64_operations_1(op);
        },
        NumOp::I64DivU
        | NumOp::I64RemS
        | NumOp::I64RemU
        | NumOp::I64And
        | NumOp::I64Or
        | NumOp::I64Xor
        | NumOp::I64Shl
        | NumOp::I64ShrS
        | NumOp::I64ShrU => {
            lemma_i64_operations_2(op);
        },
        NumOp::I64Rotl
        | NumOp::I64Rotr
        | NumOp::I64ExtendI32S
        | NumOp::I64ExtendI32U
        | NumOp::I64TruncF32S
        | NumOp::I64TruncF32U
        | NumOp::I64TruncF64S
        | NumOp::I64TruncF64U
        | NumOp::I64ReinterpretF64 => {
            lemma_i64_operations_3(op);
        },
        NumOp::I64Extend8S
        | NumOp::I64Extend16S
        | NumOp::I64Extend32S
        | NumOp::I64TruncSatF32S
        | NumOp::I64TruncSatF32U
        | NumOp::I64TruncSatF64S
        | NumOp::I64TruncSatF64U => {
            lemma_i64_operations_4(op);
        },
        _ => {},
    }
}

/// How each instruction that makes or compares `f32` is written.
pub open spec fn f32_operations(op: NumOp) -> Seq<char> {
    match op {
        NumOp::F32Eq => compared("=="@),
        NumOp::F32Ne => compared("!="@),
        NumOp::F32Lt => compared("<"@),
        NumOp::F32Gt => compared(">"@),
        NumOp::F32Le => compared("<="@),
        NumOp::F32Ge => compared(">="@),
        NumOp::F32Abs => plain_method("abs"@),
        NumOp::F32Neg => negated(),
        NumOp::F32Ceil => plain_method("ceil"@),
        NumOp::F32Floor => plain_method("floor"@),
        NumOp::F32Trunc => plain_method("trunc"@),
        NumOp::F32Nearest => runtime_of_one("f32_nearest"@),
        NumOp::F32Sqrt => plain_method("sqrt"@),
        NumOp::F32Add => infix("+"@),
        NumOp::F32Sub => infix("-"@),
        NumOp::F32Mul => infix("*"@),
        NumOp::F32Div => infix("/"@),
        NumOp::F32Min => runtime_of_two("f32_min"@),
        NumOp::F32Max => runtime_of_two("f32_max"@),
        NumOp::F32Copysign => method("copysign"@),
        NumOp::F32ConvertI32S => cast("f32"@),
        NumOp::F32ConvertI32U => cast("u32 as f32"@),
        NumOp::F32ConvertI64S => cast("f32"@),
        NumOp::F32ConvertI64U => cast("u64 as f32"@),
        NumOp::F32DemoteF64 => cast("f32"@),
        NumOp::F32ReinterpretI32 => from_bits("f32"@, "u32"@),
        _ => op.written(),
    }
}

proof fn lemma_f32_operations_0(op: NumOp)
    requires
        op == NumOp::F32Eq || op == NumOp::F32Ne || op == NumOp::F32Lt || op == NumOp::F32Gt || op == NumOp::F32Le || op == NumOp::F32Ge || op == NumOp::F32Abs || op == NumOp::F32Neg || op == NumOp::F32Ceil,
    ensures
        op.written() == f32_operations(op),
{
    reveal_strlit(" {1}) as i32)");
    reveal_strlit("!=");
    reveal_strlit("(({0} ");
    reveal_strlit("(({0} != {1}) as i32)");
    reveal_strlit("(({0} < {1}) as i32)");
    reveal_strlit("(({0} <= {1}) as i32)");
    reveal_strlit("(({0} == {1}) as i32)");
    reveal_strlit("(({0} > {1}) as i32)");
    reveal_strlit("(({0} >= {1}) as i32)");
    reveal_strlit("()");
    reveal_strlit("(-{0})");
    reveal_strlit("<");
    reveal_strlit("<=");
    reveal_strlit("==");
    reveal_strlit(">");
    reveal_strlit(">=");
    reveal_strlit("abs");
    reveal_strlit("ceil");
    reveal_strlit("{0}.");
    reveal_strlit("{0}.abs()");
    reveal_strlit("{0}.ceil()");
    if op == NumOp::F32Eq {
        assert(op.written() =~= compared("=="@));
    }
    if op == NumOp::F32Ne {
        assert(op.written() =~= compared("!="@));
    }
    if op == NumOp::F32Lt {
        assert(op.written() =~= compared("<"@));
    }
    if op == NumOp::F32Gt {
        assert(op.written() =~= compared(">"@));
    }
    if op == NumOp::F32Le {
        assert(op.written() =~= compared("<="@));
    }
    if op == NumOp::F32Ge {
        assert(op.written() =~= compared(">="@));
    }
    if op == NumOp::F32Abs {
        assert(op.written() =~= plain_method("abs"@));
    }
    if op == NumOp::F32Neg {
        assert(op.written() =~= negated());
    }
    if op == NumOp::F32Ceil {
        assert(op.written() =~= plain_method("ceil"@));
    }
}

proof fn lemma_f32_operations_1(op: NumOp)
    requires
        op == NumOp::F32Floor || op == NumOp::F32Trunc || op == NumOp::F32Nearest || op == NumOp::F32Sqrt || op == NumOp::F32Add || op == NumOp::F32Sub || op == NumOp::F32Mul || op == NumOp::F32Div || op == NumOp::F32Min,
    ensures
        op.written() == f32_operations(op),
{
    reveal_strlit(" {1})");
    reveal_strlit("()");
    reveal_strlit("({0} ");
    reveal_strlit("({0} * {1})");
    reveal_strlit("({0} + {1})");
    reveal_strlit("({0} - {1})");
    reveal_strlit("({0} / {1})");
    reveal_strlit("({0})");
    reveal_strlit("({0}, {1})");
    reveal_strlit("*");
    reveal_strlit("+");
    reveal_strlit("-");
    reveal_strlit("/");
    reveal_strlit("f32_min");
    reveal_strlit("f32_nearest");
    reveal_strlit("floor");
    reveal_strlit("rt::");
    reveal_strlit("rt::f32_min({0}, {1})");
    reveal_strlit("rt::f32_nearest({0})");
    reveal_strlit("sqrt");
    reveal_strlit("trunc");
    reveal_strlit("{0}.");
    reveal_strlit("{0}.floor()");
    reveal_strlit("{0}.sqrt()");
    reveal_strlit("{0}.trunc()");
    if op == NumOp::F32Floor {
        assert(op.written() =~= plain_method("floor"@));
    }
    if op == NumOp::F32Trunc {
        assert(op.written() =~= plain_method("trunc"@));
    }
    if op == NumOp::F32Nearest {
        assert(op.written() =~= runtime_of_one("f32_nearest"@));
    }
    if op == NumOp::F32Sqrt {
        assert(op.written() =~= plain_method("sqrt"@));
    }
    if op == NumOp::F32Add {
        assert(op.written() =~= infix("+"@));
    }
    if op == NumOp::F32Sub {
        assert(op.written() =~= infix("-"@));
    }
    if op == NumOp::F32Mul {
        assert(op.written() =~= infix("*"@));
    }
    if op == NumOp::F32Div {
        assert(op.written() =~= infix("/"@));
    }
    if op == NumOp::F32Min {
        assert(op.written() =~= runtime_of_two("f32_min"@));
    }
}

proof fn lemma_f32_operations_2(op: NumOp)
    requires
        op == NumOp::F32Max || op == NumOp::F32Copysign || op == NumOp::F32ConvertI32S || op == NumOp::F32ConvertI32U || op == NumOp::F32ConvertI64S || op == NumOp::F32ConvertI64U || op == NumOp::F32DemoteF64 || op == NumOp::F32ReinterpretI32,
    ensures
        op.written() == f32_operations(op),
{
    reveal_strlit("({0} as ");
    reveal_strlit("({0} as f32)");
    reveal_strlit("({0} as u32 as f32)");
    reveal_strlit("({0} as u64 as f32)");
    reveal_strlit("({0}, {1})");
    reveal_strlit("({1})");
    reveal_strlit(")");
    reveal_strlit("::from_bits({0} as ");
    reveal_strlit("copysign");
    reveal_strlit("f32");
    reveal_strlit("f32::from_bits({0} as u32)");
    reveal_strlit("f32_max");
    reveal_strlit("rt::");
    reveal_strlit("rt::f32_max({0}, {1})");
    reveal_strlit("u32");
    reveal_strlit("u32 as f32");
    reveal_strlit("u64 as f32");
    reveal_strlit("{0}.");
    reveal_strlit("{0}.copysign({1})");
    if op == NumOp::F32Max {
        assert(op.written() =~= runtime_of_two("f32_max"@));
    }
    if op == NumOp::F32Copysign {
        assert(op.written() =~= method("copysign"@));
    }
    if op == NumOp::F32ConvertI32S {
        assert(op.written() =~= cast("f32"@));
    }
    if op == NumOp::F32ConvertI32U {
        assert(op.written() =~= cast("u32 as f32"@));
    }
    if op == NumOp::F32ConvertI64S {
        assert(op.written() =~= cast("f32"@));
    }
    if op == NumOp::F32ConvertI64U {
        assert(op.written() =~= cast("u64 as f32"@));
    }
    if op == NumOp::F32DemoteF64 {
        assert(op.written() =~= cast("f32"@));
    }
    if op == NumOp::F32ReinterpretI32 {
        assert(op.written() =~= from_bits("f32"@, "u32"@));
    }
}

/// Arithmetic on `f32` is Rust's own, and what Rust rounds or orders otherwise is a function of
/// the runtime.
pub proof fn f32_operations_are_written_so(op: NumOp)
    ensures
        op.written() == f32_operations(op),
{
    match op {
        NumOp::F32Eq
        | NumOp::F32Ne
        | NumOp::F32Lt
        | NumOp::F32Gt
        | NumOp::F32Le
        | NumOp::F32Ge
        | NumOp::F32Abs
        | NumOp::F32Neg
        | NumOp::F32Ceil => {
            lemma_f32_operations_0(op);
        },
        NumOp::F32Floor
        | NumOp::F32Trunc
        | NumOp::F32Nearest
        | NumOp::F32Sqrt
        | NumOp::F32Add
        | NumOp::F32Sub
        | NumOp::F32Mul
        | NumOp::F32Div
        | NumOp::F32Min => {
            lemma_f32_operations_1(op);
        },
        NumOp::F32Max
        | NumOp::F32Copysign
        | NumOp::F32ConvertI32S
        | NumOp::F32ConvertI32U
        | NumOp::F32ConvertI64S
        | NumOp::F32ConvertI64U
        | NumOp::F32DemoteF64
        | NumOp::F32ReinterpretI32 => {
            lemma_f32_operations_2(op);
        },
        _ => {},
    }
}

/// How each instruction that makes or compares `f64` is written.
pub open spec fn f64_operations(op: NumOp) -> Seq<char> {
    match op {
        NumOp::F64Eq => compared("=="@),
        NumOp::F64Ne => compared("!="@),
        NumOp::F64Lt => compared("<"@),
        NumOp::F64Gt => compared(">"@),
        NumOp::F64Le => compared("<="@),
        NumOp::F64Ge => compared(">="@),
        NumOp::F64Abs => plain_method("abs"@),
        NumOp::F64Neg => negated(),
        NumOp::F64Ceil => plain_method("ceil"@),
        NumOp::F64Floor => plain_method("floor"@),
        NumOp::F64Trunc => plain_method("trunc"@),
        NumOp::F64Nearest => runtime_of_one("f64_nearest"@),
        NumOp::F64Sqrt => plain_method("sqrt"@),
        NumOp::F64Add => infix("+"@),
        NumOp::F64Sub => infix("-"@),
        NumOp::F64Mul => infix("*"@),
        NumOp::F64Div => infix("/"@),
        NumOp::F64Min => runtime_of_two("f64_min"@),
        NumOp::F64Max => runtime_of_two("f64_max"@),
        NumOp::F64Copysign => method("copysign"@),
        NumOp::F64ConvertI32S => cast("f64"@),
        NumOp::F64ConvertI32U => cast("u32 as f64"@),
        NumOp::F64ConvertI64S => cast("f64"@),
        NumOp::F64ConvertI64U => cast("u64 as f64"@),
        NumOp::F64PromoteF32 => cast("f64"@),
        NumOp::F64ReinterpretI64 => from_bits("f64"@, "u64"@),
        _ => op.written(),
    }
}

proof fn lemma_f64_operations_0(op: NumOp)
    requires
        op == NumOp::F64Eq || op == NumOp::F64Ne || op == NumOp::F64Lt || op == NumOp::F64Gt || op == NumOp::F64Le || op == NumOp::F64Ge || op == NumOp::F64Abs || op == NumOp::F64Neg || op == NumOp::F64Ceil,
    ensures
        op.written() == f64_operations(op),
{
    reveal_strlit(" {1}) as i32)");
    reveal_strlit("!=");
    reveal_strlit("(({0} ");
    reveal_strlit("(({0} != {1}) as i32)");
    reveal_strlit("(({0} < {1}) as i32)");
    reveal_strlit("(({0} <= {1}) as i32)");
    reveal_strlit("(({0} == {1}) as i32)");
    reveal_strlit("(({0} > {1}) as i32)");
    reveal_strlit("(({0} >= {1}) as i32)");
    reveal_strlit("()");
    reveal_strlit("(-{0})");
    reveal_strlit("<");
    reveal_strlit("<=");
    reveal_strlit("==");
    reveal_strlit(">");
    reveal_strlit(">=");
    reveal_strlit("abs");
    reveal_strlit("ceil");
    reveal_strlit("{0}.");
    reveal_strlit("{0}.abs()");
    reveal_strlit("{0}.ceil()");
    if op == NumOp::F64Eq {
        assert(op.written() =~= compared("=="@));
    }
    if op == NumOp::F64Ne {
        assert(op.written() =~= compared("!="@));
    }
    if op == NumOp::F64Lt {
        assert(op.written() =~= compared("<"@));
    }
    if op == NumOp::F64Gt {
        assert(op.written() =~= compared(">"@));
    }
    if op == NumOp::F64Le {
        assert(op.written() =~= compared("<="@));
    }
    if op == NumOp::F64Ge {
        assert(op.written() =~= compared(">="@));
    }
    if op == NumOp::F64Abs {
        assert(op.written() =~= plain_method("abs"@));
    }
    if op == NumOp::F64Neg {
        assert(op.written() =~= negated());
    }
    if op == NumOp::F64Ceil {
        assert(op.written() =~= plain_method("ceil"@));
    }
}

proof fn lemma_f64_operations_1(op: NumOp)
    requires
        op == NumOp::F64Floor || op == NumOp::F64Trunc || op == NumOp::F64Nearest || op == NumOp::F64Sqrt || op == NumOp::F64Add || op == NumOp::F64Sub || op == NumOp::F64Mul || op == NumOp::F64Div || op == NumOp::F64Min,
    ensures
        op.written() == f64_operations(op),
{
    reveal_strlit(" {1})");
    reveal_strlit("()");
    reveal_strlit("({0} ");
    reveal_strlit("({0} * {1})");
    reveal_strlit("({0} + {1})");
    reveal_strlit("({0} - {1})");
    reveal_strlit("({0} / {1})");
    reveal_strlit("({0})");
    reveal_strlit("({0}, {1})");
    reveal_strlit("*");
    reveal_strlit("+");
    reveal_strlit("-");
    reveal_strlit("/");
    reveal_strlit("f64_min");
    reveal_strlit("f64_nearest");
    reveal_strlit("floor");
    reveal_strlit("rt::");
    reveal_strlit("rt::f64_min({0}, {1})");
    reveal_strlit("rt::f64_nearest({0})");
    reveal_strlit("sqrt");
    reveal_strlit("trunc");
    reveal_strlit("{0}.");
    reveal_strlit("{0}.floor()");
    reveal_strlit("{0}.sqrt()");
    reveal_strlit("{0}.trunc()");
    if op == NumOp::F64Floor {
        assert(op.written() =~= plain_method("floor"@));
    }
    if op == NumOp::F64Trunc {
        assert(op.written() =~= plain_method("trunc"@));
    }
    if op == NumOp::F64Nearest {
        assert(op.written() =~= runtime_of_one("f64_nearest"@));
    }
    if op == NumOp::F64Sqrt {
        assert(op.written() =~= plain_method("sqrt"@));
    }
    if op == NumOp::F64Add {
        assert(op.written() =~= infix("+"@));
    }
    if op == NumOp::F64Sub {
        assert(op.written() =~= infix("-"@));
    }
    if op == NumOp::F64Mul {
        assert(op.written() =~= infix("*"@));
    }
    if op == NumOp::F64Div {
        assert(op.written() =~= infix("/"@));
    }
    if op == NumOp::F64Min {
        assert(op.written() =~= runtime_of_two("f64_min"@));
    }
}

proof fn lemma_f64_operations_2(op: NumOp)
    requires
        op == NumOp::F64Max || op == NumOp::F64Copysign || op == NumOp::F64ConvertI32S || op == NumOp::F64ConvertI32U || op == NumOp::F64ConvertI64S || op == NumOp::F64ConvertI64U || op == NumOp::F64PromoteF32 || op == NumOp::F64ReinterpretI64,
    ensures
        op.written() == f64_operations(op),
{
    reveal_strlit("({0} as ");
    reveal_strlit("({0} as f64)");
    reveal_strlit("({0} as u32 as f64)");
    reveal_strlit("({0} as u64 as f64)");
    reveal_strlit("({0}, {1})");
    reveal_strlit("({1})");
    reveal_strlit(")");
    reveal_strlit("::from_bits({0} as ");
    reveal_strlit("copysign");
    reveal_strlit("f64");
    reveal_strlit("f64::from_bits({0} as u64)");
    reveal_strlit("f64_max");
    reveal_strlit("rt::");
    reveal_strlit("rt::f64_max({0}, {1})");
    reveal_strlit("u32 as f64");
    reveal_strlit("u64");
    reveal_strlit("u64 as f64");
    reveal_strlit("{0}.");
    reveal_strlit("{0}.copysign({1})");
    if op == NumOp::F64Max {
        assert(op.written() =~= runtime_of_two("f64_max"@));
    }
    if op == NumOp::F64Copysign {
        assert(op.written() =~= method("copysign"@));
    }
    if op == NumOp::F64ConvertI32S {
        assert(op.written() =~= cast("f64"@));
    }
    if op == NumOp::F64ConvertI32U {
        assert(op.written() =~= cast("u32 as f64"@));
    }
    if op == NumOp::F64ConvertI64S {
        assert(op.written() =~= cast("f64"@));
    }
    if op == NumOp::F64ConvertI64U {
        assert(op.written() =~= cast("u64 as f64"@));
    }
    if op == NumOp::F64PromoteF32 {
        assert(op.written() =~= cast("f64"@));
    }
    if op == NumOp::F64ReinterpretI64 {
        assert(op.written() =~= from_bits("f64"@, "u64"@));
    }
}

/// The same on `f64`.
pub proof fn f64_operations_are_written_so(op: NumOp)
    ensures
        op.written() == f64_operations(op),
{
    match op {
        NumOp::F64Eq
        | NumOp::F64Ne
        | NumOp::F64Lt
        | NumOp::F64Gt
        | NumOp::F64Le
        | NumOp::F64Ge
        | NumOp::F64Abs
        | NumOp::F64Neg
        | NumOp::F64Ceil => {
            lemma_f64_operations_0(op);
        },
        NumOp::F64Floor
        | NumOp::F64Trunc
        | NumOp::F64Nearest
        | NumOp::F64Sqrt
        | NumOp::F64Add
        | NumOp::F64Sub
        | NumOp::F64Mul
        | NumOp::F64Div
        | NumOp::F64Min => {
            lemma_f64_operations_1(op);
        },
        NumOp::F64Max
        | NumOp::F64Copysign
        | NumOp::F64ConvertI32S
        | NumOp::F64ConvertI32U
        | NumOp::F64ConvertI64S
        | NumOp::F64ConvertI64U
        | NumOp::F64PromoteF32
        | NumOp::F64ReinterpretI64 => {
            lemma_f64_operations_2(op);
        },
        _ => {},
    }
}

} // verus!
