//! Every numeric instruction: what it does to the stack, and how it is written
//! in Rust.
//!
//! The templates are where wasm and Rust genuinely disagree, and each
//! disagreement is deliberate:
//!
//! - arithmetic wraps (`wrapping_add`), because Rust's `+` panics in debug;
//! - shift counts are masked (`& 31`), because Rust's `<<` panics past the
//!   width while wasm defines it modulo the width;
//! - unsigned comparisons and shifts cast through `u32`/`u64`, because the
//!   value type carries no sign in wasm and the operator does;
//! - anything that can trap goes through the runtime, not through an operator.

use vstd::prelude::*;
use crate::module::operator::Operator;
use crate::module::types::ValType;
use crate::text::pieces::same_as;

verus! {

/// A numeric instruction: everything that only reads and writes the
/// operand stack, with no control flow and no memory of its own.
#[derive(Debug, Clone, Copy, PartialEq, Eq, Hash, Structural)]
#[allow(missing_docs)]
pub enum NumOp {
    I32Eqz,
    I32Eq,
    I32Ne,
    I32LtS,
    I32LtU,
    I32GtS,
    I32GtU,
    I32LeS,
    I32LeU,
    I32GeS,
    I32GeU,
    I32Clz,
    I32Ctz,
    I32Popcnt,
    I32Add,
    I32Sub,
    I32Mul,
    I32DivS,
    I32DivU,
    I32RemS,
    I32RemU,
    I32And,
    I32Or,
    I32Xor,
    I32Shl,
    I32ShrS,
    I32ShrU,
    I32Rotl,
    I32Rotr,
    I64Eqz,
    I64Eq,
    I64Ne,
    I64LtS,
    I64LtU,
    I64GtS,
    I64GtU,
    I64LeS,
    I64LeU,
    I64GeS,
    I64GeU,
    I64Clz,
    I64Ctz,
    I64Popcnt,
    I64Add,
    I64Sub,
    I64Mul,
    I64DivS,
    I64DivU,
    I64RemS,
    I64RemU,
    I64And,
    I64Or,
    I64Xor,
    I64Shl,
    I64ShrS,
    I64ShrU,
    I64Rotl,
    I64Rotr,
    F32Eq,
    F32Ne,
    F32Lt,
    F32Gt,
    F32Le,
    F32Ge,
    F32Abs,
    F32Neg,
    F32Ceil,
    F32Floor,
    F32Trunc,
    F32Nearest,
    F32Sqrt,
    F32Add,
    F32Sub,
    F32Mul,
    F32Div,
    F32Min,
    F32Max,
    F32Copysign,
    F64Eq,
    F64Ne,
    F64Lt,
    F64Gt,
    F64Le,
    F64Ge,
    F64Abs,
    F64Neg,
    F64Ceil,
    F64Floor,
    F64Trunc,
    F64Nearest,
    F64Sqrt,
    F64Add,
    F64Sub,
    F64Mul,
    F64Div,
    F64Min,
    F64Max,
    F64Copysign,
    I32WrapI64,
    I32TruncF32S,
    I32TruncF32U,
    I32TruncF64S,
    I32TruncF64U,
    I64ExtendI32S,
    I64ExtendI32U,
    I64TruncF32S,
    I64TruncF32U,
    I64TruncF64S,
    I64TruncF64U,
    F32ConvertI32S,
    F32ConvertI32U,
    F32ConvertI64S,
    F32ConvertI64U,
    F32DemoteF64,
    F64ConvertI32S,
    F64ConvertI32U,
    F64ConvertI64S,
    F64ConvertI64U,
    F64PromoteF32,
    I32ReinterpretF32,
    I64ReinterpretF64,
    F32ReinterpretI32,
    F64ReinterpretI64,
    I32Extend8S,
    I32Extend16S,
    I64Extend8S,
    I64Extend16S,
    I64Extend32S,
    I32TruncSatF32S,
    I32TruncSatF32U,
    I32TruncSatF64S,
    I32TruncSatF64U,
    I64TruncSatF32S,
    I64TruncSatF32U,
    I64TruncSatF64S,
    I64TruncSatF64U,
}

impl NumOp {
    /// Its name.
    pub open spec fn called(self) -> Seq<char> {
        match self {
            NumOp::I32Eqz => "I32Eqz"@,
            NumOp::I32Eq => "I32Eq"@,
            NumOp::I32Ne => "I32Ne"@,
            NumOp::I32LtS => "I32LtS"@,
            NumOp::I32LtU => "I32LtU"@,
            NumOp::I32GtS => "I32GtS"@,
            NumOp::I32GtU => "I32GtU"@,
            NumOp::I32LeS => "I32LeS"@,
            NumOp::I32LeU => "I32LeU"@,
            NumOp::I32GeS => "I32GeS"@,
            NumOp::I32GeU => "I32GeU"@,
            NumOp::I32Clz => "I32Clz"@,
            NumOp::I32Ctz => "I32Ctz"@,
            NumOp::I32Popcnt => "I32Popcnt"@,
            NumOp::I32Add => "I32Add"@,
            NumOp::I32Sub => "I32Sub"@,
            NumOp::I32Mul => "I32Mul"@,
            NumOp::I32DivS => "I32DivS"@,
            NumOp::I32DivU => "I32DivU"@,
            NumOp::I32RemS => "I32RemS"@,
            NumOp::I32RemU => "I32RemU"@,
            NumOp::I32And => "I32And"@,
            NumOp::I32Or => "I32Or"@,
            NumOp::I32Xor => "I32Xor"@,
            NumOp::I32Shl => "I32Shl"@,
            NumOp::I32ShrS => "I32ShrS"@,
            NumOp::I32ShrU => "I32ShrU"@,
            NumOp::I32Rotl => "I32Rotl"@,
            NumOp::I32Rotr => "I32Rotr"@,
            NumOp::I64Eqz => "I64Eqz"@,
            NumOp::I64Eq => "I64Eq"@,
            NumOp::I64Ne => "I64Ne"@,
            NumOp::I64LtS => "I64LtS"@,
            NumOp::I64LtU => "I64LtU"@,
            NumOp::I64GtS => "I64GtS"@,
            NumOp::I64GtU => "I64GtU"@,
            NumOp::I64LeS => "I64LeS"@,
            NumOp::I64LeU => "I64LeU"@,
            NumOp::I64GeS => "I64GeS"@,
            NumOp::I64GeU => "I64GeU"@,
            NumOp::I64Clz => "I64Clz"@,
            NumOp::I64Ctz => "I64Ctz"@,
            NumOp::I64Popcnt => "I64Popcnt"@,
            NumOp::I64Add => "I64Add"@,
            NumOp::I64Sub => "I64Sub"@,
            NumOp::I64Mul => "I64Mul"@,
            NumOp::I64DivS => "I64DivS"@,
            NumOp::I64DivU => "I64DivU"@,
            NumOp::I64RemS => "I64RemS"@,
            NumOp::I64RemU => "I64RemU"@,
            NumOp::I64And => "I64And"@,
            NumOp::I64Or => "I64Or"@,
            NumOp::I64Xor => "I64Xor"@,
            NumOp::I64Shl => "I64Shl"@,
            NumOp::I64ShrS => "I64ShrS"@,
            NumOp::I64ShrU => "I64ShrU"@,
            NumOp::I64Rotl => "I64Rotl"@,
            NumOp::I64Rotr => "I64Rotr"@,
            NumOp::F32Eq => "F32Eq"@,
            NumOp::F32Ne => "F32Ne"@,
            NumOp::F32Lt => "F32Lt"@,
            NumOp::F32Gt => "F32Gt"@,
            NumOp::F32Le => "F32Le"@,
            NumOp::F32Ge => "F32Ge"@,
            NumOp::F32Abs => "F32Abs"@,
            NumOp::F32Neg => "F32Neg"@,
            NumOp::F32Ceil => "F32Ceil"@,
            NumOp::F32Floor => "F32Floor"@,
            NumOp::F32Trunc => "F32Trunc"@,
            NumOp::F32Nearest => "F32Nearest"@,
            NumOp::F32Sqrt => "F32Sqrt"@,
            NumOp::F32Add => "F32Add"@,
            NumOp::F32Sub => "F32Sub"@,
            NumOp::F32Mul => "F32Mul"@,
            NumOp::F32Div => "F32Div"@,
            NumOp::F32Min => "F32Min"@,
            NumOp::F32Max => "F32Max"@,
            NumOp::F32Copysign => "F32Copysign"@,
            NumOp::F64Eq => "F64Eq"@,
            NumOp::F64Ne => "F64Ne"@,
            NumOp::F64Lt => "F64Lt"@,
            NumOp::F64Gt => "F64Gt"@,
            NumOp::F64Le => "F64Le"@,
            NumOp::F64Ge => "F64Ge"@,
            NumOp::F64Abs => "F64Abs"@,
            NumOp::F64Neg => "F64Neg"@,
            NumOp::F64Ceil => "F64Ceil"@,
            NumOp::F64Floor => "F64Floor"@,
            NumOp::F64Trunc => "F64Trunc"@,
            NumOp::F64Nearest => "F64Nearest"@,
            NumOp::F64Sqrt => "F64Sqrt"@,
            NumOp::F64Add => "F64Add"@,
            NumOp::F64Sub => "F64Sub"@,
            NumOp::F64Mul => "F64Mul"@,
            NumOp::F64Div => "F64Div"@,
            NumOp::F64Min => "F64Min"@,
            NumOp::F64Max => "F64Max"@,
            NumOp::F64Copysign => "F64Copysign"@,
            NumOp::I32WrapI64 => "I32WrapI64"@,
            NumOp::I32TruncF32S => "I32TruncF32S"@,
            NumOp::I32TruncF32U => "I32TruncF32U"@,
            NumOp::I32TruncF64S => "I32TruncF64S"@,
            NumOp::I32TruncF64U => "I32TruncF64U"@,
            NumOp::I64ExtendI32S => "I64ExtendI32S"@,
            NumOp::I64ExtendI32U => "I64ExtendI32U"@,
            NumOp::I64TruncF32S => "I64TruncF32S"@,
            NumOp::I64TruncF32U => "I64TruncF32U"@,
            NumOp::I64TruncF64S => "I64TruncF64S"@,
            NumOp::I64TruncF64U => "I64TruncF64U"@,
            NumOp::F32ConvertI32S => "F32ConvertI32S"@,
            NumOp::F32ConvertI32U => "F32ConvertI32U"@,
            NumOp::F32ConvertI64S => "F32ConvertI64S"@,
            NumOp::F32ConvertI64U => "F32ConvertI64U"@,
            NumOp::F32DemoteF64 => "F32DemoteF64"@,
            NumOp::F64ConvertI32S => "F64ConvertI32S"@,
            NumOp::F64ConvertI32U => "F64ConvertI32U"@,
            NumOp::F64ConvertI64S => "F64ConvertI64S"@,
            NumOp::F64ConvertI64U => "F64ConvertI64U"@,
            NumOp::F64PromoteF32 => "F64PromoteF32"@,
            NumOp::I32ReinterpretF32 => "I32ReinterpretF32"@,
            NumOp::I64ReinterpretF64 => "I64ReinterpretF64"@,
            NumOp::F32ReinterpretI32 => "F32ReinterpretI32"@,
            NumOp::F64ReinterpretI64 => "F64ReinterpretI64"@,
            NumOp::I32Extend8S => "I32Extend8S"@,
            NumOp::I32Extend16S => "I32Extend16S"@,
            NumOp::I64Extend8S => "I64Extend8S"@,
            NumOp::I64Extend16S => "I64Extend16S"@,
            NumOp::I64Extend32S => "I64Extend32S"@,
            NumOp::I32TruncSatF32S => "I32TruncSatF32S"@,
            NumOp::I32TruncSatF32U => "I32TruncSatF32U"@,
            NumOp::I32TruncSatF64S => "I32TruncSatF64S"@,
            NumOp::I32TruncSatF64U => "I32TruncSatF64U"@,
            NumOp::I64TruncSatF32S => "I64TruncSatF32S"@,
            NumOp::I64TruncSatF32U => "I64TruncSatF32U"@,
            NumOp::I64TruncSatF64S => "I64TruncSatF64S"@,
            NumOp::I64TruncSatF64U => "I64TruncSatF64U"@,
        }
    }

    /// The types it pops, deepest operand first.
    pub open spec fn pops(self) -> Seq<ValType> {
        match self {
            NumOp::I32Eqz
            | NumOp::I32Clz
            | NumOp::I32Ctz
            | NumOp::I32Popcnt
            | NumOp::I64ExtendI32S
            | NumOp::I64ExtendI32U
            | NumOp::F32ConvertI32S
            | NumOp::F32ConvertI32U
            | NumOp::F64ConvertI32S
            | NumOp::F64ConvertI32U
            | NumOp::F32ReinterpretI32
            | NumOp::I32Extend8S
            | NumOp::I32Extend16S => seq![ValType::I32],
            NumOp::I32Eq
            | NumOp::I32Ne
            | NumOp::I32LtS
            | NumOp::I32LtU
            | NumOp::I32GtS
            | NumOp::I32GtU
            | NumOp::I32LeS
            | NumOp::I32LeU
            | NumOp::I32GeS
            | NumOp::I32GeU
            | NumOp::I32Add
            | NumOp::I32Sub
            | NumOp::I32Mul
            | NumOp::I32DivS
            | NumOp::I32DivU
            | NumOp::I32RemS
            | NumOp::I32RemU
            | NumOp::I32And
            | NumOp::I32Or
            | NumOp::I32Xor
            | NumOp::I32Shl
            | NumOp::I32ShrS
            | NumOp::I32ShrU
            | NumOp::I32Rotl
            | NumOp::I32Rotr => seq![ValType::I32, ValType::I32],
            NumOp::I64Eqz
            | NumOp::I64Clz
            | NumOp::I64Ctz
            | NumOp::I64Popcnt
            | NumOp::I32WrapI64
            | NumOp::F32ConvertI64S
            | NumOp::F32ConvertI64U
            | NumOp::F64ConvertI64S
            | NumOp::F64ConvertI64U
            | NumOp::F64ReinterpretI64
            | NumOp::I64Extend8S
            | NumOp::I64Extend16S
            | NumOp::I64Extend32S => seq![ValType::I64],
            NumOp::I64Eq
            | NumOp::I64Ne
            | NumOp::I64LtS
            | NumOp::I64LtU
            | NumOp::I64GtS
            | NumOp::I64GtU
            | NumOp::I64LeS
            | NumOp::I64LeU
            | NumOp::I64GeS
            | NumOp::I64GeU
            | NumOp::I64Add
            | NumOp::I64Sub
            | NumOp::I64Mul
            | NumOp::I64DivS
            | NumOp::I64DivU
            | NumOp::I64RemS
            | NumOp::I64RemU
            | NumOp::I64And
            | NumOp::I64Or
            | NumOp::I64Xor
            | NumOp::I64Shl
            | NumOp::I64ShrS
            | NumOp::I64ShrU
            | NumOp::I64Rotl
            | NumOp::I64Rotr => seq![ValType::I64, ValType::I64],
            NumOp::F32Eq
            | NumOp::F32Ne
            | NumOp::F32Lt
            | NumOp::F32Gt
            | NumOp::F32Le
            | NumOp::F32Ge
            | NumOp::F32Add
            | NumOp::F32Sub
            | NumOp::F32Mul
            | NumOp::F32Div
            | NumOp::F32Min
            | NumOp::F32Max
            | NumOp::F32Copysign => seq![ValType::F32, ValType::F32],
            NumOp::F32Abs
            | NumOp::F32Neg
            | NumOp::F32Ceil
            | NumOp::F32Floor
            | NumOp::F32Trunc
            | NumOp::F32Nearest
            | NumOp::F32Sqrt
            | NumOp::I32TruncF32S
            | NumOp::I32TruncF32U
            | NumOp::I64TruncF32S
            | NumOp::I64TruncF32U
            | NumOp::F64PromoteF32
            | NumOp::I32ReinterpretF32
            | NumOp::I32TruncSatF32S
            | NumOp::I32TruncSatF32U
            | NumOp::I64TruncSatF32S
            | NumOp::I64TruncSatF32U => seq![ValType::F32],
            NumOp::F64Eq
            | NumOp::F64Ne
            | NumOp::F64Lt
            | NumOp::F64Gt
            | NumOp::F64Le
            | NumOp::F64Ge
            | NumOp::F64Add
            | NumOp::F64Sub
            | NumOp::F64Mul
            | NumOp::F64Div
            | NumOp::F64Min
            | NumOp::F64Max
            | NumOp::F64Copysign => seq![ValType::F64, ValType::F64],
            NumOp::F64Abs
            | NumOp::F64Neg
            | NumOp::F64Ceil
            | NumOp::F64Floor
            | NumOp::F64Trunc
            | NumOp::F64Nearest
            | NumOp::F64Sqrt
            | NumOp::I32TruncF64S
            | NumOp::I32TruncF64U
            | NumOp::I64TruncF64S
            | NumOp::I64TruncF64U
            | NumOp::F32DemoteF64
            | NumOp::I64ReinterpretF64
            | NumOp::I32TruncSatF64S
            | NumOp::I32TruncSatF64U
            | NumOp::I64TruncSatF64S
            | NumOp::I64TruncSatF64U => seq![ValType::F64],
        }
    }

    /// The type it pushes.
    pub open spec fn pushes(self) -> ValType {
        match self {
            NumOp::I32Eqz
            | NumOp::I32Eq
            | NumOp::I32Ne
            | NumOp::I32LtS
            | NumOp::I32LtU
            | NumOp::I32GtS
            | NumOp::I32GtU
            | NumOp::I32LeS
            | NumOp::I32LeU
            | NumOp::I32GeS
            | NumOp::I32GeU
            | NumOp::I32Clz
            | NumOp::I32Ctz
            | NumOp::I32Popcnt
            | NumOp::I32Add
            | NumOp::I32Sub
            | NumOp::I32Mul
            | NumOp::I32DivS
            | NumOp::I32DivU
            | NumOp::I32RemS
            | NumOp::I32RemU
            | NumOp::I32And
            | NumOp::I32Or
            | NumOp::I32Xor
            | NumOp::I32Shl
            | NumOp::I32ShrS
            | NumOp::I32ShrU
            | NumOp::I32Rotl
            | NumOp::I32Rotr
            | NumOp::I64Eqz
            | NumOp::I64Eq
            | NumOp::I64Ne
            | NumOp::I64LtS
            | NumOp::I64LtU
            | NumOp::I64GtS
            | NumOp::I64GtU
            | NumOp::I64LeS
            | NumOp::I64LeU
            | NumOp::I64GeS
            | NumOp::I64GeU
            | NumOp::F32Eq
            | NumOp::F32Ne
            | NumOp::F32Lt
            | NumOp::F32Gt
            | NumOp::F32Le
            | NumOp::F32Ge
            | NumOp::F64Eq
            | NumOp::F64Ne
            | NumOp::F64Lt
            | NumOp::F64Gt
            | NumOp::F64Le
            | NumOp::F64Ge
            | NumOp::I32WrapI64
            | NumOp::I32TruncF32S
            | NumOp::I32TruncF32U
            | NumOp::I32TruncF64S
            | NumOp::I32TruncF64U
            | NumOp::I32ReinterpretF32
            | NumOp::I32Extend8S
            | NumOp::I32Extend16S
            | NumOp::I32TruncSatF32S
            | NumOp::I32TruncSatF32U
            | NumOp::I32TruncSatF64S
            | NumOp::I32TruncSatF64U => ValType::I32,
            NumOp::I64Clz
            | NumOp::I64Ctz
            | NumOp::I64Popcnt
            | NumOp::I64Add
            | NumOp::I64Sub
            | NumOp::I64Mul
            | NumOp::I64DivS
            | NumOp::I64DivU
            | NumOp::I64RemS
            | NumOp::I64RemU
            | NumOp::I64And
            | NumOp::I64Or
            | NumOp::I64Xor
            | NumOp::I64Shl
            | NumOp::I64ShrS
            | NumOp::I64ShrU
            | NumOp::I64Rotl
            | NumOp::I64Rotr
            | NumOp::I64ExtendI32S
            | NumOp::I64ExtendI32U
            | NumOp::I64TruncF32S
            | NumOp::I64TruncF32U
            | NumOp::I64TruncF64S
            | NumOp::I64TruncF64U
            | NumOp::I64ReinterpretF64
            | NumOp::I64Extend8S
            | NumOp::I64Extend16S
            | NumOp::I64Extend32S
            | NumOp::I64TruncSatF32S
            | NumOp::I64TruncSatF32U
            | NumOp::I64TruncSatF64S
            | NumOp::I64TruncSatF64U => ValType::I64,
            NumOp::F32Abs
            | NumOp::F32Neg
            | NumOp::F32Ceil
            | NumOp::F32Floor
            | NumOp::F32Trunc
            | NumOp::F32Nearest
            | NumOp::F32Sqrt
            | NumOp::F32Add
            | NumOp::F32Sub
            | NumOp::F32Mul
            | NumOp::F32Div
            | NumOp::F32Min
            | NumOp::F32Max
            | NumOp::F32Copysign
            | NumOp::F32ConvertI32S
            | NumOp::F32ConvertI32U
            | NumOp::F32ConvertI64S
            | NumOp::F32ConvertI64U
            | NumOp::F32DemoteF64
            | NumOp::F32ReinterpretI32 => ValType::F32,
            NumOp::F64Abs
            | NumOp::F64Neg
            | NumOp::F64Ceil
            | NumOp::F64Floor
            | NumOp::F64Trunc
            | NumOp::F64Nearest
            | NumOp::F64Sqrt
            | NumOp::F64Add
            | NumOp::F64Sub
            | NumOp::F64Mul
            | NumOp::F64Div
            | NumOp::F64Min
            | NumOp::F64Max
            | NumOp::F64Copysign
            | NumOp::F64ConvertI32S
            | NumOp::F64ConvertI32U
            | NumOp::F64ConvertI64S
            | NumOp::F64ConvertI64U
            | NumOp::F64PromoteF32
            | NumOp::F64ReinterpretI64 => ValType::F64,
        }
    }

    /// How it is written, with `{n}` standing for operand `n`.
    pub open spec fn written(self) -> Seq<char> {
        match self {
            NumOp::I32Eqz => "(({0} == 0) as i32)"@,
            NumOp::I32Eq => "(({0} == {1}) as i32)"@,
            NumOp::I32Ne => "(({0} != {1}) as i32)"@,
            NumOp::I32LtS => "(({0} < {1}) as i32)"@,
            NumOp::I32LtU => "((({0} as u32) < ({1} as u32)) as i32)"@,
            NumOp::I32GtS => "(({0} > {1}) as i32)"@,
            NumOp::I32GtU => "((({0} as u32) > ({1} as u32)) as i32)"@,
            NumOp::I32LeS => "(({0} <= {1}) as i32)"@,
            NumOp::I32LeU => "((({0} as u32) <= ({1} as u32)) as i32)"@,
            NumOp::I32GeS => "(({0} >= {1}) as i32)"@,
            NumOp::I32GeU => "((({0} as u32) >= ({1} as u32)) as i32)"@,
            NumOp::I32Clz => "({0}.leading_zeros() as i32)"@,
            NumOp::I32Ctz => "({0}.trailing_zeros() as i32)"@,
            NumOp::I32Popcnt => "({0}.count_ones() as i32)"@,
            NumOp::I32Add => "{0}.wrapping_add({1})"@,
            NumOp::I32Sub => "{0}.wrapping_sub({1})"@,
            NumOp::I32Mul => "{0}.wrapping_mul({1})"@,
            NumOp::I32DivS => "rt::i32_div_s({0}, {1})"@,
            NumOp::I32DivU => "rt::i32_div_u({0}, {1})"@,
            NumOp::I32RemS => "rt::i32_rem_s({0}, {1})"@,
            NumOp::I32RemU => "rt::i32_rem_u({0}, {1})"@,
            NumOp::I32And => "({0} & {1})"@,
            NumOp::I32Or => "({0} | {1})"@,
            NumOp::I32Xor => "({0} ^ {1})"@,
            NumOp::I32Shl => "({0} << ({1} & 31))"@,
            NumOp::I32ShrS => "({0} >> ({1} & 31))"@,
            NumOp::I32ShrU => "((({0} as u32) >> ({1} as u32 & 31)) as i32)"@,
            NumOp::I32Rotl => "{0}.rotate_left({1} as u32 & 31)"@,
            NumOp::I32Rotr => "{0}.rotate_right({1} as u32 & 31)"@,
            NumOp::I64Eqz => "(({0} == 0) as i32)"@,
            NumOp::I64Eq => "(({0} == {1}) as i32)"@,
            NumOp::I64Ne => "(({0} != {1}) as i32)"@,
            NumOp::I64LtS => "(({0} < {1}) as i32)"@,
            NumOp::I64LtU => "((({0} as u64) < ({1} as u64)) as i32)"@,
            NumOp::I64GtS => "(({0} > {1}) as i32)"@,
            NumOp::I64GtU => "((({0} as u64) > ({1} as u64)) as i32)"@,
            NumOp::I64LeS => "(({0} <= {1}) as i32)"@,
            NumOp::I64LeU => "((({0} as u64) <= ({1} as u64)) as i32)"@,
            NumOp::I64GeS => "(({0} >= {1}) as i32)"@,
            NumOp::I64GeU => "((({0} as u64) >= ({1} as u64)) as i32)"@,
            NumOp::I64Clz => "({0}.leading_zeros() as i64)"@,
            NumOp::I64Ctz => "({0}.trailing_zeros() as i64)"@,
            NumOp::I64Popcnt => "({0}.count_ones() as i64)"@,
            NumOp::I64Add => "{0}.wrapping_add({1})"@,
            NumOp::I64Sub => "{0}.wrapping_sub({1})"@,
            NumOp::I64Mul => "{0}.wrapping_mul({1})"@,
            NumOp::I64DivS => "rt::i64_div_s({0}, {1})"@,
            NumOp::I64DivU => "rt::i64_div_u({0}, {1})"@,
            NumOp::I64RemS => "rt::i64_rem_s({0}, {1})"@,
            NumOp::I64RemU => "rt::i64_rem_u({0}, {1})"@,
            NumOp::I64And => "({0} & {1})"@,
            NumOp::I64Or => "({0} | {1})"@,
            NumOp::I64Xor => "({0} ^ {1})"@,
            NumOp::I64Shl => "({0} << ({1} & 63))"@,
            NumOp::I64ShrS => "({0} >> ({1} & 63))"@,
            NumOp::I64ShrU => "((({0} as u64) >> ({1} as u64 & 63)) as i64)"@,
            NumOp::I64Rotl => "{0}.rotate_left({1} as u64 as u32 & 63)"@,
            NumOp::I64Rotr => "{0}.rotate_right({1} as u64 as u32 & 63)"@,
            NumOp::F32Eq => "(({0} == {1}) as i32)"@,
            NumOp::F32Ne => "(({0} != {1}) as i32)"@,
            NumOp::F32Lt => "(({0} < {1}) as i32)"@,
            NumOp::F32Gt => "(({0} > {1}) as i32)"@,
            NumOp::F32Le => "(({0} <= {1}) as i32)"@,
            NumOp::F32Ge => "(({0} >= {1}) as i32)"@,
            NumOp::F32Abs => "{0}.abs()"@,
            NumOp::F32Neg => "(-{0})"@,
            NumOp::F32Ceil => "{0}.ceil()"@,
            NumOp::F32Floor => "{0}.floor()"@,
            NumOp::F32Trunc => "{0}.trunc()"@,
            NumOp::F32Nearest => "rt::f32_nearest({0})"@,
            NumOp::F32Sqrt => "{0}.sqrt()"@,
            NumOp::F32Add => "({0} + {1})"@,
            NumOp::F32Sub => "({0} - {1})"@,
            NumOp::F32Mul => "({0} * {1})"@,
            NumOp::F32Div => "({0} / {1})"@,
            NumOp::F32Min => "rt::f32_min({0}, {1})"@,
            NumOp::F32Max => "rt::f32_max({0}, {1})"@,
            NumOp::F32Copysign => "{0}.copysign({1})"@,
            NumOp::F64Eq => "(({0} == {1}) as i32)"@,
            NumOp::F64Ne => "(({0} != {1}) as i32)"@,
            NumOp::F64Lt => "(({0} < {1}) as i32)"@,
            NumOp::F64Gt => "(({0} > {1}) as i32)"@,
            NumOp::F64Le => "(({0} <= {1}) as i32)"@,
            NumOp::F64Ge => "(({0} >= {1}) as i32)"@,
            NumOp::F64Abs => "{0}.abs()"@,
            NumOp::F64Neg => "(-{0})"@,
            NumOp::F64Ceil => "{0}.ceil()"@,
            NumOp::F64Floor => "{0}.floor()"@,
            NumOp::F64Trunc => "{0}.trunc()"@,
            NumOp::F64Nearest => "rt::f64_nearest({0})"@,
            NumOp::F64Sqrt => "{0}.sqrt()"@,
            NumOp::F64Add => "({0} + {1})"@,
            NumOp::F64Sub => "({0} - {1})"@,
            NumOp::F64Mul => "({0} * {1})"@,
            NumOp::F64Div => "({0} / {1})"@,
            NumOp::F64Min => "rt::f64_min({0}, {1})"@,
            NumOp::F64Max => "rt::f64_max({0}, {1})"@,
            NumOp::F64Copysign => "{0}.copysign({1})"@,
            NumOp::I32WrapI64 => "({0} as i32)"@,
            NumOp::I32TruncF32S => "rt::i32_trunc_f32_s({0})"@,
            NumOp::I32TruncF32U => "rt::i32_trunc_f32_u({0})"@,
            NumOp::I32TruncF64S => "rt::i32_trunc_f64_s({0})"@,
            NumOp::I32TruncF64U => "rt::i32_trunc_f64_u({0})"@,
            NumOp::I64ExtendI32S => "({0} as i64)"@,
            NumOp::I64ExtendI32U => "({0} as u32 as i64)"@,
            NumOp::I64TruncF32S => "rt::i64_trunc_f32_s({0})"@,
            NumOp::I64TruncF32U => "rt::i64_trunc_f32_u({0})"@,
            NumOp::I64TruncF64S => "rt::i64_trunc_f64_s({0})"@,
            NumOp::I64TruncF64U => "rt::i64_trunc_f64_u({0})"@,
            NumOp::F32ConvertI32S => "({0} as f32)"@,
            NumOp::F32ConvertI32U => "({0} as u32 as f32)"@,
            NumOp::F32ConvertI64S => "({0} as f32)"@,
            NumOp::F32ConvertI64U => "({0} as u64 as f32)"@,
            NumOp::F32DemoteF64 => "({0} as f32)"@,
            NumOp::F64ConvertI32S => "({0} as f64)"@,
            NumOp::F64ConvertI32U => "({0} as u32 as f64)"@,
            NumOp::F64ConvertI64S => "({0} as f64)"@,
            NumOp::F64ConvertI64U => "({0} as u64 as f64)"@,
            NumOp::F64PromoteF32 => "({0} as f64)"@,
            NumOp::I32ReinterpretF32 => "({0}.to_bits() as i32)"@,
            NumOp::I64ReinterpretF64 => "({0}.to_bits() as i64)"@,
            NumOp::F32ReinterpretI32 => "f32::from_bits({0} as u32)"@,
            NumOp::F64ReinterpretI64 => "f64::from_bits({0} as u64)"@,
            NumOp::I32Extend8S => "({0} as i8 as i32)"@,
            NumOp::I32Extend16S => "({0} as i16 as i32)"@,
            NumOp::I64Extend8S => "({0} as i8 as i64)"@,
            NumOp::I64Extend16S => "({0} as i16 as i64)"@,
            NumOp::I64Extend32S => "({0} as i32 as i64)"@,
            NumOp::I32TruncSatF32S => "({0} as i32)"@,
            NumOp::I32TruncSatF32U => "({0} as u32 as i32)"@,
            NumOp::I32TruncSatF64S => "({0} as i32)"@,
            NumOp::I32TruncSatF64U => "({0} as u32 as i32)"@,
            NumOp::I64TruncSatF32S => "({0} as i64)"@,
            NumOp::I64TruncSatF32U => "({0} as u64 as i64)"@,
            NumOp::I64TruncSatF64S => "({0} as i64)"@,
            NumOp::I64TruncSatF64U => "({0} as u64 as i64)"@,
        }
    }

    /// The wasm name, as it appears in the text format.
    pub fn name(self) -> (name: &'static str)
        ensures
            name@ == self.called(),
    {
        match self {
            NumOp::I32Eqz => "I32Eqz",
            NumOp::I32Eq => "I32Eq",
            NumOp::I32Ne => "I32Ne",
            NumOp::I32LtS => "I32LtS",
            NumOp::I32LtU => "I32LtU",
            NumOp::I32GtS => "I32GtS",
            NumOp::I32GtU => "I32GtU",
            NumOp::I32LeS => "I32LeS",
            NumOp::I32LeU => "I32LeU",
            NumOp::I32GeS => "I32GeS",
            NumOp::I32GeU => "I32GeU",
            NumOp::I32Clz => "I32Clz",
            NumOp::I32Ctz => "I32Ctz",
            NumOp::I32Popcnt => "I32Popcnt",
            NumOp::I32Add => "I32Add",
            NumOp::I32Sub => "I32Sub",
            NumOp::I32Mul => "I32Mul",
            NumOp::I32DivS => "I32DivS",
            NumOp::I32DivU => "I32DivU",
            NumOp::I32RemS => "I32RemS",
            NumOp::I32RemU => "I32RemU",
            NumOp::I32And => "I32And",
            NumOp::I32Or => "I32Or",
            NumOp::I32Xor => "I32Xor",
            NumOp::I32Shl => "I32Shl",
            NumOp::I32ShrS => "I32ShrS",
            NumOp::I32ShrU => "I32ShrU",
            NumOp::I32Rotl => "I32Rotl",
            NumOp::I32Rotr => "I32Rotr",
            NumOp::I64Eqz => "I64Eqz",
            NumOp::I64Eq => "I64Eq",
            NumOp::I64Ne => "I64Ne",
            NumOp::I64LtS => "I64LtS",
            NumOp::I64LtU => "I64LtU",
            NumOp::I64GtS => "I64GtS",
            NumOp::I64GtU => "I64GtU",
            NumOp::I64LeS => "I64LeS",
            NumOp::I64LeU => "I64LeU",
            NumOp::I64GeS => "I64GeS",
            NumOp::I64GeU => "I64GeU",
            NumOp::I64Clz => "I64Clz",
            NumOp::I64Ctz => "I64Ctz",
            NumOp::I64Popcnt => "I64Popcnt",
            NumOp::I64Add => "I64Add",
            NumOp::I64Sub => "I64Sub",
            NumOp::I64Mul => "I64Mul",
            NumOp::I64DivS => "I64DivS",
            NumOp::I64DivU => "I64DivU",
            NumOp::I64RemS => "I64RemS",
            NumOp::I64RemU => "I64RemU",
            NumOp::I64And => "I64And",
            NumOp::I64Or => "I64Or",
            NumOp::I64Xor => "I64Xor",
            NumOp::I64Shl => "I64Shl",
            NumOp::I64ShrS => "I64ShrS",
            NumOp::I64ShrU => "I64ShrU",
            NumOp::I64Rotl => "I64Rotl",
            NumOp::I64Rotr => "I64Rotr",
            NumOp::F32Eq => "F32Eq",
            NumOp::F32Ne => "F32Ne",
            NumOp::F32Lt => "F32Lt",
            NumOp::F32Gt => "F32Gt",
            NumOp::F32Le => "F32Le",
            NumOp::F32Ge => "F32Ge",
            NumOp::F32Abs => "F32Abs",
            NumOp::F32Neg => "F32Neg",
            NumOp::F32Ceil => "F32Ceil",
            NumOp::F32Floor => "F32Floor",
            NumOp::F32Trunc => "F32Trunc",
            NumOp::F32Nearest => "F32Nearest",
            NumOp::F32Sqrt => "F32Sqrt",
            NumOp::F32Add => "F32Add",
            NumOp::F32Sub => "F32Sub",
            NumOp::F32Mul => "F32Mul",
            NumOp::F32Div => "F32Div",
            NumOp::F32Min => "F32Min",
            NumOp::F32Max => "F32Max",
            NumOp::F32Copysign => "F32Copysign",
            NumOp::F64Eq => "F64Eq",
            NumOp::F64Ne => "F64Ne",
            NumOp::F64Lt => "F64Lt",
            NumOp::F64Gt => "F64Gt",
            NumOp::F64Le => "F64Le",
            NumOp::F64Ge => "F64Ge",
            NumOp::F64Abs => "F64Abs",
            NumOp::F64Neg => "F64Neg",
            NumOp::F64Ceil => "F64Ceil",
            NumOp::F64Floor => "F64Floor",
            NumOp::F64Trunc => "F64Trunc",
            NumOp::F64Nearest => "F64Nearest",
            NumOp::F64Sqrt => "F64Sqrt",
            NumOp::F64Add => "F64Add",
            NumOp::F64Sub => "F64Sub",
            NumOp::F64Mul => "F64Mul",
            NumOp::F64Div => "F64Div",
            NumOp::F64Min => "F64Min",
            NumOp::F64Max => "F64Max",
            NumOp::F64Copysign => "F64Copysign",
            NumOp::I32WrapI64 => "I32WrapI64",
            NumOp::I32TruncF32S => "I32TruncF32S",
            NumOp::I32TruncF32U => "I32TruncF32U",
            NumOp::I32TruncF64S => "I32TruncF64S",
            NumOp::I32TruncF64U => "I32TruncF64U",
            NumOp::I64ExtendI32S => "I64ExtendI32S",
            NumOp::I64ExtendI32U => "I64ExtendI32U",
            NumOp::I64TruncF32S => "I64TruncF32S",
            NumOp::I64TruncF32U => "I64TruncF32U",
            NumOp::I64TruncF64S => "I64TruncF64S",
            NumOp::I64TruncF64U => "I64TruncF64U",
            NumOp::F32ConvertI32S => "F32ConvertI32S",
            NumOp::F32ConvertI32U => "F32ConvertI32U",
            NumOp::F32ConvertI64S => "F32ConvertI64S",
            NumOp::F32ConvertI64U => "F32ConvertI64U",
            NumOp::F32DemoteF64 => "F32DemoteF64",
            NumOp::F64ConvertI32S => "F64ConvertI32S",
            NumOp::F64ConvertI32U => "F64ConvertI32U",
            NumOp::F64ConvertI64S => "F64ConvertI64S",
            NumOp::F64ConvertI64U => "F64ConvertI64U",
            NumOp::F64PromoteF32 => "F64PromoteF32",
            NumOp::I32ReinterpretF32 => "I32ReinterpretF32",
            NumOp::I64ReinterpretF64 => "I64ReinterpretF64",
            NumOp::F32ReinterpretI32 => "F32ReinterpretI32",
            NumOp::F64ReinterpretI64 => "F64ReinterpretI64",
            NumOp::I32Extend8S => "I32Extend8S",
            NumOp::I32Extend16S => "I32Extend16S",
            NumOp::I64Extend8S => "I64Extend8S",
            NumOp::I64Extend16S => "I64Extend16S",
            NumOp::I64Extend32S => "I64Extend32S",
            NumOp::I32TruncSatF32S => "I32TruncSatF32S",
            NumOp::I32TruncSatF32U => "I32TruncSatF32U",
            NumOp::I32TruncSatF64S => "I32TruncSatF64S",
            NumOp::I32TruncSatF64U => "I32TruncSatF64U",
            NumOp::I64TruncSatF32S => "I64TruncSatF32S",
            NumOp::I64TruncSatF32U => "I64TruncSatF32U",
            NumOp::I64TruncSatF64S => "I64TruncSatF64S",
            NumOp::I64TruncSatF64U => "I64TruncSatF64U",
        }
    }

    /// What it pops, deepest operand first.
    pub fn operands(self) -> (types: Vec<ValType>)
        ensures
            types@ == self.pops(),
    {
        let mut types: Vec<ValType> = Vec::new();
        match self {
            NumOp::I32Eqz
            | NumOp::I32Clz
            | NumOp::I32Ctz
            | NumOp::I32Popcnt
            | NumOp::I64ExtendI32S
            | NumOp::I64ExtendI32U
            | NumOp::F32ConvertI32S
            | NumOp::F32ConvertI32U
            | NumOp::F64ConvertI32S
            | NumOp::F64ConvertI32U
            | NumOp::F32ReinterpretI32
            | NumOp::I32Extend8S
            | NumOp::I32Extend16S => {
                types.push(ValType::I32);
            },
            NumOp::I32Eq
            | NumOp::I32Ne
            | NumOp::I32LtS
            | NumOp::I32LtU
            | NumOp::I32GtS
            | NumOp::I32GtU
            | NumOp::I32LeS
            | NumOp::I32LeU
            | NumOp::I32GeS
            | NumOp::I32GeU
            | NumOp::I32Add
            | NumOp::I32Sub
            | NumOp::I32Mul
            | NumOp::I32DivS
            | NumOp::I32DivU
            | NumOp::I32RemS
            | NumOp::I32RemU
            | NumOp::I32And
            | NumOp::I32Or
            | NumOp::I32Xor
            | NumOp::I32Shl
            | NumOp::I32ShrS
            | NumOp::I32ShrU
            | NumOp::I32Rotl
            | NumOp::I32Rotr => {
                types.push(ValType::I32);
                types.push(ValType::I32);
            },
            NumOp::I64Eqz
            | NumOp::I64Clz
            | NumOp::I64Ctz
            | NumOp::I64Popcnt
            | NumOp::I32WrapI64
            | NumOp::F32ConvertI64S
            | NumOp::F32ConvertI64U
            | NumOp::F64ConvertI64S
            | NumOp::F64ConvertI64U
            | NumOp::F64ReinterpretI64
            | NumOp::I64Extend8S
            | NumOp::I64Extend16S
            | NumOp::I64Extend32S => {
                types.push(ValType::I64);
            },
            NumOp::I64Eq
            | NumOp::I64Ne
            | NumOp::I64LtS
            | NumOp::I64LtU
            | NumOp::I64GtS
            | NumOp::I64GtU
            | NumOp::I64LeS
            | NumOp::I64LeU
            | NumOp::I64GeS
            | NumOp::I64GeU
            | NumOp::I64Add
            | NumOp::I64Sub
            | NumOp::I64Mul
            | NumOp::I64DivS
            | NumOp::I64DivU
            | NumOp::I64RemS
            | NumOp::I64RemU
            | NumOp::I64And
            | NumOp::I64Or
            | NumOp::I64Xor
            | NumOp::I64Shl
            | NumOp::I64ShrS
            | NumOp::I64ShrU
            | NumOp::I64Rotl
            | NumOp::I64Rotr => {
                types.push(ValType::I64);
                types.push(ValType::I64);
            },
            NumOp::F32Eq
            | NumOp::F32Ne
            | NumOp::F32Lt
            | NumOp::F32Gt
            | NumOp::F32Le
            | NumOp::F32Ge
            | NumOp::F32Add
            | NumOp::F32Sub
            | NumOp::F32Mul
            | NumOp::F32Div
            | NumOp::F32Min
            | NumOp::F32Max
            | NumOp::F32Copysign => {
                types.push(ValType::F32);
                types.push(ValType::F32);
            },
            NumOp::F32Abs
            | NumOp::F32Neg
            | NumOp::F32Ceil
            | NumOp::F32Floor
            | NumOp::F32Trunc
            | NumOp::F32Nearest
            | NumOp::F32Sqrt
            | NumOp::I32TruncF32S
            | NumOp::I32TruncF32U
            | NumOp::I64TruncF32S
            | NumOp::I64TruncF32U
            | NumOp::F64PromoteF32
            | NumOp::I32ReinterpretF32
            | NumOp::I32TruncSatF32S
            | NumOp::I32TruncSatF32U
            | NumOp::I64TruncSatF32S
            | NumOp::I64TruncSatF32U => {
                types.push(ValType::F32);
            },
            NumOp::F64Eq
            | NumOp::F64Ne
            | NumOp::F64Lt
            | NumOp::F64Gt
            | NumOp::F64Le
            | NumOp::F64Ge
            | NumOp::F64Add
            | NumOp::F64Sub
            | NumOp::F64Mul
            | NumOp::F64Div
            | NumOp::F64Min
            | NumOp::F64Max
            | NumOp::F64Copysign => {
                types.push(ValType::F64);
                types.push(ValType::F64);
            },
            NumOp::F64Abs
            | NumOp::F64Neg
            | NumOp::F64Ceil
            | NumOp::F64Floor
            | NumOp::F64Trunc
            | NumOp::F64Nearest
            | NumOp::F64Sqrt
            | NumOp::I32TruncF64S
            | NumOp::I32TruncF64U
            | NumOp::I64TruncF64S
            | NumOp::I64TruncF64U
            | NumOp::F32DemoteF64
            | NumOp::I64ReinterpretF64
            | NumOp::I32TruncSatF64S
            | NumOp::I32TruncSatF64U
            | NumOp::I64TruncSatF64S
            | NumOp::I64TruncSatF64U => {
                types.push(ValType::F64);
            },
        }
        assert(types@ =~= self.pops());
        types
    }

    /// What it pushes. Every numeric op pushes exactly one value.
    pub fn result(self) -> (ty: ValType)
        ensures
            ty == self.pushes(),
    {
        match self {
            NumOp::I32Eqz
            | NumOp::I32Eq
            | NumOp::I32Ne
            | NumOp::I32LtS
            | NumOp::I32LtU
            | NumOp::I32GtS
            | NumOp::I32GtU
            | NumOp::I32LeS
            | NumOp::I32LeU
            | NumOp::I32GeS
            | NumOp::I32GeU
            | NumOp::I32Clz
            | NumOp::I32Ctz
            | NumOp::I32Popcnt
            | NumOp::I32Add
            | NumOp::I32Sub
            | NumOp::I32Mul
            | NumOp::I32DivS
            | NumOp::I32DivU
            | NumOp::I32RemS
            | NumOp::I32RemU
            | NumOp::I32And
            | NumOp::I32Or
            | NumOp::I32Xor
            | NumOp::I32Shl
            | NumOp::I32ShrS
            | NumOp::I32ShrU
            | NumOp::I32Rotl
            | NumOp::I32Rotr
            | NumOp::I64Eqz
            | NumOp::I64Eq
            | NumOp::I64Ne
            | NumOp::I64LtS
            | NumOp::I64LtU
            | NumOp::I64GtS
            | NumOp::I64GtU
            | NumOp::I64LeS
            | NumOp::I64LeU
            | NumOp::I64GeS
            | NumOp::I64GeU
            | NumOp::F32Eq
            | NumOp::F32Ne
            | NumOp::F32Lt
            | NumOp::F32Gt
            | NumOp::F32Le
            | NumOp::F32Ge
            | NumOp::F64Eq
            | NumOp::F64Ne
            | NumOp::F64Lt
            | NumOp::F64Gt
            | NumOp::F64Le
            | NumOp::F64Ge
            | NumOp::I32WrapI64
            | NumOp::I32TruncF32S
            | NumOp::I32TruncF32U
            | NumOp::I32TruncF64S
            | NumOp::I32TruncF64U
            | NumOp::I32ReinterpretF32
            | NumOp::I32Extend8S
            | NumOp::I32Extend16S
            | NumOp::I32TruncSatF32S
            | NumOp::I32TruncSatF32U
            | NumOp::I32TruncSatF64S
            | NumOp::I32TruncSatF64U => ValType::I32,
            NumOp::I64Clz
            | NumOp::I64Ctz
            | NumOp::I64Popcnt
            | NumOp::I64Add
            | NumOp::I64Sub
            | NumOp::I64Mul
            | NumOp::I64DivS
            | NumOp::I64DivU
            | NumOp::I64RemS
            | NumOp::I64RemU
            | NumOp::I64And
            | NumOp::I64Or
            | NumOp::I64Xor
            | NumOp::I64Shl
            | NumOp::I64ShrS
            | NumOp::I64ShrU
            | NumOp::I64Rotl
            | NumOp::I64Rotr
            | NumOp::I64ExtendI32S
            | NumOp::I64ExtendI32U
            | NumOp::I64TruncF32S
            | NumOp::I64TruncF32U
            | NumOp::I64TruncF64S
            | NumOp::I64TruncF64U
            | NumOp::I64ReinterpretF64
            | NumOp::I64Extend8S
            | NumOp::I64Extend16S
            | NumOp::I64Extend32S
            | NumOp::I64TruncSatF32S
            | NumOp::I64TruncSatF32U
            | NumOp::I64TruncSatF64S
            | NumOp::I64TruncSatF64U => ValType::I64,
            NumOp::F32Abs
            | NumOp::F32Neg
            | NumOp::F32Ceil
            | NumOp::F32Floor
            | NumOp::F32Trunc
            | NumOp::F32Nearest
            | NumOp::F32Sqrt
            | NumOp::F32Add
            | NumOp::F32Sub
            | NumOp::F32Mul
            | NumOp::F32Div
            | NumOp::F32Min
            | NumOp::F32Max
            | NumOp::F32Copysign
            | NumOp::F32ConvertI32S
            | NumOp::F32ConvertI32U
            | NumOp::F32ConvertI64S
            | NumOp::F32ConvertI64U
            | NumOp::F32DemoteF64
            | NumOp::F32ReinterpretI32 => ValType::F32,
            NumOp::F64Abs
            | NumOp::F64Neg
            | NumOp::F64Ceil
            | NumOp::F64Floor
            | NumOp::F64Trunc
            | NumOp::F64Nearest
            | NumOp::F64Sqrt
            | NumOp::F64Add
            | NumOp::F64Sub
            | NumOp::F64Mul
            | NumOp::F64Div
            | NumOp::F64Min
            | NumOp::F64Max
            | NumOp::F64Copysign
            | NumOp::F64ConvertI32S
            | NumOp::F64ConvertI32U
            | NumOp::F64ConvertI64S
            | NumOp::F64ConvertI64U
            | NumOp::F64PromoteF32
            | NumOp::F64ReinterpretI64 => ValType::F64,
        }
    }

    /// The Rust expression, with `{n}` standing for operand `n`.
    pub fn template(self) -> (template: &'static str)
        ensures
            template@ == self.written(),
    {
        match self {
            NumOp::I32Eqz => "(({0} == 0) as i32)",
            NumOp::I32Eq => "(({0} == {1}) as i32)",
            NumOp::I32Ne => "(({0} != {1}) as i32)",
            NumOp::I32LtS => "(({0} < {1}) as i32)",
            NumOp::I32LtU => "((({0} as u32) < ({1} as u32)) as i32)",
            NumOp::I32GtS => "(({0} > {1}) as i32)",
            NumOp::I32GtU => "((({0} as u32) > ({1} as u32)) as i32)",
            NumOp::I32LeS => "(({0} <= {1}) as i32)",
            NumOp::I32LeU => "((({0} as u32) <= ({1} as u32)) as i32)",
            NumOp::I32GeS => "(({0} >= {1}) as i32)",
            NumOp::I32GeU => "((({0} as u32) >= ({1} as u32)) as i32)",
            NumOp::I32Clz => "({0}.leading_zeros() as i32)",
            NumOp::I32Ctz => "({0}.trailing_zeros() as i32)",
            NumOp::I32Popcnt => "({0}.count_ones() as i32)",
            NumOp::I32Add => "{0}.wrapping_add({1})",
            NumOp::I32Sub => "{0}.wrapping_sub({1})",
            NumOp::I32Mul => "{0}.wrapping_mul({1})",
            NumOp::I32DivS => "rt::i32_div_s({0}, {1})",
            NumOp::I32DivU => "rt::i32_div_u({0}, {1})",
            NumOp::I32RemS => "rt::i32_rem_s({0}, {1})",
            NumOp::I32RemU => "rt::i32_rem_u({0}, {1})",
            NumOp::I32And => "({0} & {1})",
            NumOp::I32Or => "({0} | {1})",
            NumOp::I32Xor => "({0} ^ {1})",
            NumOp::I32Shl => "({0} << ({1} & 31))",
            NumOp::I32ShrS => "({0} >> ({1} & 31))",
            NumOp::I32ShrU => "((({0} as u32) >> ({1} as u32 & 31)) as i32)",
            NumOp::I32Rotl => "{0}.rotate_left({1} as u32 & 31)",
            NumOp::I32Rotr => "{0}.rotate_right({1} as u32 & 31)",
            NumOp::I64Eqz => "(({0} == 0) as i32)",
            NumOp::I64Eq => "(({0} == {1}) as i32)",
            NumOp::I64Ne => "(({0} != {1}) as i32)",
            NumOp::I64LtS => "(({0} < {1}) as i32)",
            NumOp::I64LtU => "((({0} as u64) < ({1} as u64)) as i32)",
            NumOp::I64GtS => "(({0} > {1}) as i32)",
            NumOp::I64GtU => "((({0} as u64) > ({1} as u64)) as i32)",
            NumOp::I64LeS => "(({0} <= {1}) as i32)",
            NumOp::I64LeU => "((({0} as u64) <= ({1} as u64)) as i32)",
            NumOp::I64GeS => "(({0} >= {1}) as i32)",
            NumOp::I64GeU => "((({0} as u64) >= ({1} as u64)) as i32)",
            NumOp::I64Clz => "({0}.leading_zeros() as i64)",
            NumOp::I64Ctz => "({0}.trailing_zeros() as i64)",
            NumOp::I64Popcnt => "({0}.count_ones() as i64)",
            NumOp::I64Add => "{0}.wrapping_add({1})",
            NumOp::I64Sub => "{0}.wrapping_sub({1})",
            NumOp::I64Mul => "{0}.wrapping_mul({1})",
            NumOp::I64DivS => "rt::i64_div_s({0}, {1})",
            NumOp::I64DivU => "rt::i64_div_u({0}, {1})",
            NumOp::I64RemS => "rt::i64_rem_s({0}, {1})",
            NumOp::I64RemU => "rt::i64_rem_u({0}, {1})",
            NumOp::I64And => "({0} & {1})",
            NumOp::I64Or => "({0} | {1})",
            NumOp::I64Xor => "({0} ^ {1})",
            NumOp::I64Shl => "({0} << ({1} & 63))",
            NumOp::I64ShrS => "({0} >> ({1} & 63))",
            NumOp::I64ShrU => "((({0} as u64) >> ({1} as u64 & 63)) as i64)",
            NumOp::I64Rotl => "{0}.rotate_left({1} as u64 as u32 & 63)",
            NumOp::I64Rotr => "{0}.rotate_right({1} as u64 as u32 & 63)",
            NumOp::F32Eq => "(({0} == {1}) as i32)",
            NumOp::F32Ne => "(({0} != {1}) as i32)",
            NumOp::F32Lt => "(({0} < {1}) as i32)",
            NumOp::F32Gt => "(({0} > {1}) as i32)",
            NumOp::F32Le => "(({0} <= {1}) as i32)",
            NumOp::F32Ge => "(({0} >= {1}) as i32)",
            NumOp::F32Abs => "{0}.abs()",
            NumOp::F32Neg => "(-{0})",
            NumOp::F32Ceil => "{0}.ceil()",
            NumOp::F32Floor => "{0}.floor()",
            NumOp::F32Trunc => "{0}.trunc()",
            NumOp::F32Nearest => "rt::f32_nearest({0})",
            NumOp::F32Sqrt => "{0}.sqrt()",
            NumOp::F32Add => "({0} + {1})",
            NumOp::F32Sub => "({0} - {1})",
            NumOp::F32Mul => "({0} * {1})",
            NumOp::F32Div => "({0} / {1})",
            NumOp::F32Min => "rt::f32_min({0}, {1})",
            NumOp::F32Max => "rt::f32_max({0}, {1})",
            NumOp::F32Copysign => "{0}.copysign({1})",
            NumOp::F64Eq => "(({0} == {1}) as i32)",
            NumOp::F64Ne => "(({0} != {1}) as i32)",
            NumOp::F64Lt => "(({0} < {1}) as i32)",
            NumOp::F64Gt => "(({0} > {1}) as i32)",
            NumOp::F64Le => "(({0} <= {1}) as i32)",
            NumOp::F64Ge => "(({0} >= {1}) as i32)",
            NumOp::F64Abs => "{0}.abs()",
            NumOp::F64Neg => "(-{0})",
            NumOp::F64Ceil => "{0}.ceil()",
            NumOp::F64Floor => "{0}.floor()",
            NumOp::F64Trunc => "{0}.trunc()",
            NumOp::F64Nearest => "rt::f64_nearest({0})",
            NumOp::F64Sqrt => "{0}.sqrt()",
            NumOp::F64Add => "({0} + {1})",
            NumOp::F64Sub => "({0} - {1})",
            NumOp::F64Mul => "({0} * {1})",
            NumOp::F64Div => "({0} / {1})",
            NumOp::F64Min => "rt::f64_min({0}, {1})",
            NumOp::F64Max => "rt::f64_max({0}, {1})",
            NumOp::F64Copysign => "{0}.copysign({1})",
            NumOp::I32WrapI64 => "({0} as i32)",
            NumOp::I32TruncF32S => "rt::i32_trunc_f32_s({0})",
            NumOp::I32TruncF32U => "rt::i32_trunc_f32_u({0})",
            NumOp::I32TruncF64S => "rt::i32_trunc_f64_s({0})",
            NumOp::I32TruncF64U => "rt::i32_trunc_f64_u({0})",
            NumOp::I64ExtendI32S => "({0} as i64)",
            NumOp::I64ExtendI32U => "({0} as u32 as i64)",
            NumOp::I64TruncF32S => "rt::i64_trunc_f32_s({0})",
            NumOp::I64TruncF32U => "rt::i64_trunc_f32_u({0})",
            NumOp::I64TruncF64S => "rt::i64_trunc_f64_s({0})",
            NumOp::I64TruncF64U => "rt::i64_trunc_f64_u({0})",
            NumOp::F32ConvertI32S => "({0} as f32)",
            NumOp::F32ConvertI32U => "({0} as u32 as f32)",
            NumOp::F32ConvertI64S => "({0} as f32)",
            NumOp::F32ConvertI64U => "({0} as u64 as f32)",
            NumOp::F32DemoteF64 => "({0} as f32)",
            NumOp::F64ConvertI32S => "({0} as f64)",
            NumOp::F64ConvertI32U => "({0} as u32 as f64)",
            NumOp::F64ConvertI64S => "({0} as f64)",
            NumOp::F64ConvertI64U => "({0} as u64 as f64)",
            NumOp::F64PromoteF32 => "({0} as f64)",
            NumOp::I32ReinterpretF32 => "({0}.to_bits() as i32)",
            NumOp::I64ReinterpretF64 => "({0}.to_bits() as i64)",
            NumOp::F32ReinterpretI32 => "f32::from_bits({0} as u32)",
            NumOp::F64ReinterpretI64 => "f64::from_bits({0} as u64)",
            NumOp::I32Extend8S => "({0} as i8 as i32)",
            NumOp::I32Extend16S => "({0} as i16 as i32)",
            NumOp::I64Extend8S => "({0} as i8 as i64)",
            NumOp::I64Extend16S => "({0} as i16 as i64)",
            NumOp::I64Extend32S => "({0} as i32 as i64)",
            NumOp::I32TruncSatF32S => "({0} as i32)",
            NumOp::I32TruncSatF32U => "({0} as u32 as i32)",
            NumOp::I32TruncSatF64S => "({0} as i32)",
            NumOp::I32TruncSatF64U => "({0} as u32 as i32)",
            NumOp::I64TruncSatF32S => "({0} as i64)",
            NumOp::I64TruncSatF32U => "({0} as u64 as i64)",
            NumOp::I64TruncSatF64S => "({0} as i64)",
            NumOp::I64TruncSatF64U => "({0} as u64 as i64)",
        }
    }

    /// Every op.
    pub open spec fn every() -> Seq<NumOp> {
        Self::i32_comparisons()
            + Self::i32_arithmetic()
            + Self::i64_comparisons()
            + Self::i64_arithmetic()
            + Self::f32_operations()
            + Self::f64_operations()
            + Self::conversions()
            + Self::sign_extensions()
            + Self::saturating_truncations()
    }


    /// i32 comparison. The result is 0 or 1, typed i32.
    pub open spec fn i32_comparisons() -> Seq<NumOp> {
        seq![
            NumOp::I32Eqz,
            NumOp::I32Eq,
            NumOp::I32Ne,
            NumOp::I32LtS,
            NumOp::I32LtU,
            NumOp::I32GtS,
            NumOp::I32GtU,
            NumOp::I32LeS,
            NumOp::I32LeU,
            NumOp::I32GeS,
            NumOp::I32GeU,
        ]
    }

    fn list_i32_comparisons() -> (ops: Vec<NumOp>)
        ensures
            ops@ == Self::i32_comparisons(),
    {
        let mut ops: Vec<NumOp> = Vec::new();
        ops.push(NumOp::I32Eqz);
        ops.push(NumOp::I32Eq);
        ops.push(NumOp::I32Ne);
        ops.push(NumOp::I32LtS);
        ops.push(NumOp::I32LtU);
        ops.push(NumOp::I32GtS);
        ops.push(NumOp::I32GtU);
        ops.push(NumOp::I32LeS);
        ops.push(NumOp::I32LeU);
        ops.push(NumOp::I32GeS);
        ops.push(NumOp::I32GeU);
        assert(ops@ =~= Self::i32_comparisons());
        ops
    }

    /// i32 arithmetic.
    pub open spec fn i32_arithmetic() -> Seq<NumOp> {
        seq![
            NumOp::I32Clz,
            NumOp::I32Ctz,
            NumOp::I32Popcnt,
            NumOp::I32Add,
            NumOp::I32Sub,
            NumOp::I32Mul,
            NumOp::I32DivS,
            NumOp::I32DivU,
            NumOp::I32RemS,
            NumOp::I32RemU,
            NumOp::I32And,
            NumOp::I32Or,
            NumOp::I32Xor,
            NumOp::I32Shl,
            NumOp::I32ShrS,
            NumOp::I32ShrU,
            NumOp::I32Rotl,
            NumOp::I32Rotr,
        ]
    }

    fn list_i32_arithmetic() -> (ops: Vec<NumOp>)
        ensures
            ops@ == Self::i32_arithmetic(),
    {
        let mut ops: Vec<NumOp> = Vec::new();
        ops.push(NumOp::I32Clz);
        ops.push(NumOp::I32Ctz);
        ops.push(NumOp::I32Popcnt);
        ops.push(NumOp::I32Add);
        ops.push(NumOp::I32Sub);
        ops.push(NumOp::I32Mul);
        ops.push(NumOp::I32DivS);
        ops.push(NumOp::I32DivU);
        ops.push(NumOp::I32RemS);
        ops.push(NumOp::I32RemU);
        ops.push(NumOp::I32And);
        ops.push(NumOp::I32Or);
        ops.push(NumOp::I32Xor);
        ops.push(NumOp::I32Shl);
        ops.push(NumOp::I32ShrS);
        ops.push(NumOp::I32ShrU);
        ops.push(NumOp::I32Rotl);
        ops.push(NumOp::I32Rotr);
        assert(ops@ =~= Self::i32_arithmetic());
        ops
    }

    /// i64 comparison.
    pub open spec fn i64_comparisons() -> Seq<NumOp> {
        seq![
            NumOp::I64Eqz,
            NumOp::I64Eq,
            NumOp::I64Ne,
            NumOp::I64LtS,
            NumOp::I64LtU,
            NumOp::I64GtS,
            NumOp::I64GtU,
            NumOp::I64LeS,
            NumOp::I64LeU,
            NumOp::I64GeS,
            NumOp::I64GeU,
        ]
    }

    fn list_i64_comparisons() -> (ops: Vec<NumOp>)
        ensures
            ops@ == Self::i64_comparisons(),
    {
        let mut ops: Vec<NumOp> = Vec::new();
        ops.push(NumOp::I64Eqz);
        ops.push(NumOp::I64Eq);
        ops.push(NumOp::I64Ne);
        ops.push(NumOp::I64LtS);
        ops.push(NumOp::I64LtU);
        ops.push(NumOp::I64GtS);
        ops.push(NumOp::I64GtU);
        ops.push(NumOp::I64LeS);
        ops.push(NumOp::I64LeU);
        ops.push(NumOp::I64GeS);
        ops.push(NumOp::I64GeU);
        assert(ops@ =~= Self::i64_comparisons());
        ops
    }

    /// i64 arithmetic.
    pub open spec fn i64_arithmetic() -> Seq<NumOp> {
        seq![
            NumOp::I64Clz,
            NumOp::I64Ctz,
            NumOp::I64Popcnt,
            NumOp::I64Add,
            NumOp::I64Sub,
            NumOp::I64Mul,
            NumOp::I64DivS,
            NumOp::I64DivU,
            NumOp::I64RemS,
            NumOp::I64RemU,
            NumOp::I64And,
            NumOp::I64Or,
            NumOp::I64Xor,
            NumOp::I64Shl,
            NumOp::I64ShrS,
            NumOp::I64ShrU,
            NumOp::I64Rotl,
            NumOp::I64Rotr,
        ]
    }

    fn list_i64_arithmetic() -> (ops: Vec<NumOp>)
        ensures
            ops@ == Self::i64_arithmetic(),
    {
        let mut ops: Vec<NumOp> = Vec::new();
        ops.push(NumOp::I64Clz);
        ops.push(NumOp::I64Ctz);
        ops.push(NumOp::I64Popcnt);
        ops.push(NumOp::I64Add);
        ops.push(NumOp::I64Sub);
        ops.push(NumOp::I64Mul);
        ops.push(NumOp::I64DivS);
        ops.push(NumOp::I64DivU);
        ops.push(NumOp::I64RemS);
        ops.push(NumOp::I64RemU);
        ops.push(NumOp::I64And);
        ops.push(NumOp::I64Or);
        ops.push(NumOp::I64Xor);
        ops.push(NumOp::I64Shl);
        ops.push(NumOp::I64ShrS);
        ops.push(NumOp::I64ShrU);
        ops.push(NumOp::I64Rotl);
        ops.push(NumOp::I64Rotr);
        assert(ops@ =~= Self::i64_arithmetic());
        ops
    }

    /// The f32 operations.
    pub open spec fn f32_operations() -> Seq<NumOp> {
        seq![
            NumOp::F32Eq,
            NumOp::F32Ne,
            NumOp::F32Lt,
            NumOp::F32Gt,
            NumOp::F32Le,
            NumOp::F32Ge,
            NumOp::F32Abs,
            NumOp::F32Neg,
            NumOp::F32Ceil,
            NumOp::F32Floor,
            NumOp::F32Trunc,
            NumOp::F32Nearest,
            NumOp::F32Sqrt,
            NumOp::F32Add,
            NumOp::F32Sub,
            NumOp::F32Mul,
            NumOp::F32Div,
            NumOp::F32Min,
            NumOp::F32Max,
            NumOp::F32Copysign,
        ]
    }

    fn list_f32_operations() -> (ops: Vec<NumOp>)
        ensures
            ops@ == Self::f32_operations(),
    {
        let mut ops: Vec<NumOp> = Vec::new();
        ops.push(NumOp::F32Eq);
        ops.push(NumOp::F32Ne);
        ops.push(NumOp::F32Lt);
        ops.push(NumOp::F32Gt);
        ops.push(NumOp::F32Le);
        ops.push(NumOp::F32Ge);
        ops.push(NumOp::F32Abs);
        ops.push(NumOp::F32Neg);
        ops.push(NumOp::F32Ceil);
        ops.push(NumOp::F32Floor);
        ops.push(NumOp::F32Trunc);
        ops.push(NumOp::F32Nearest);
        ops.push(NumOp::F32Sqrt);
        ops.push(NumOp::F32Add);
        ops.push(NumOp::F32Sub);
        ops.push(NumOp::F32Mul);
        ops.push(NumOp::F32Div);
        ops.push(NumOp::F32Min);
        ops.push(NumOp::F32Max);
        ops.push(NumOp::F32Copysign);
        assert(ops@ =~= Self::f32_operations());
        ops
    }

    /// The f64 operations.
    pub open spec fn f64_operations() -> Seq<NumOp> {
        seq![
            NumOp::F64Eq,
            NumOp::F64Ne,
            NumOp::F64Lt,
            NumOp::F64Gt,
            NumOp::F64Le,
            NumOp::F64Ge,
            NumOp::F64Abs,
            NumOp::F64Neg,
            NumOp::F64Ceil,
            NumOp::F64Floor,
            NumOp::F64Trunc,
            NumOp::F64Nearest,
            NumOp::F64Sqrt,
            NumOp::F64Add,
            NumOp::F64Sub,
            NumOp::F64Mul,
            NumOp::F64Div,
            NumOp::F64Min,
            NumOp::F64Max,
            NumOp::F64Copysign,
        ]
    }

    fn list_f64_operations() -> (ops: Vec<NumOp>)
        ensures
            ops@ == Self::f64_operations(),
    {
        let mut ops: Vec<NumOp> = Vec::new();
        ops.push(NumOp::F64Eq);
        ops.push(NumOp::F64Ne);
        ops.push(NumOp::F64Lt);
        ops.push(NumOp::F64Gt);
        ops.push(NumOp::F64Le);
        ops.push(NumOp::F64Ge);
        ops.push(NumOp::F64Abs);
        ops.push(NumOp::F64Neg);
        ops.push(NumOp::F64Ceil);
        ops.push(NumOp::F64Floor);
        ops.push(NumOp::F64Trunc);
        ops.push(NumOp::F64Nearest);
        ops.push(NumOp::F64Sqrt);
        ops.push(NumOp::F64Add);
        ops.push(NumOp::F64Sub);
        ops.push(NumOp::F64Mul);
        ops.push(NumOp::F64Div);
        ops.push(NumOp::F64Min);
        ops.push(NumOp::F64Max);
        ops.push(NumOp::F64Copysign);
        assert(ops@ =~= Self::f64_operations());
        ops
    }

    /// Conversions.
    pub open spec fn conversions() -> Seq<NumOp> {
        seq![
            NumOp::I32WrapI64,
            NumOp::I32TruncF32S,
            NumOp::I32TruncF32U,
            NumOp::I32TruncF64S,
            NumOp::I32TruncF64U,
            NumOp::I64ExtendI32S,
            NumOp::I64ExtendI32U,
            NumOp::I64TruncF32S,
            NumOp::I64TruncF32U,
            NumOp::I64TruncF64S,
            NumOp::I64TruncF64U,
            NumOp::F32ConvertI32S,
            NumOp::F32ConvertI32U,
            NumOp::F32ConvertI64S,
            NumOp::F32ConvertI64U,
            NumOp::F32DemoteF64,
            NumOp::F64ConvertI32S,
            NumOp::F64ConvertI32U,
            NumOp::F64ConvertI64S,
            NumOp::F64ConvertI64U,
            NumOp::F64PromoteF32,
            NumOp::I32ReinterpretF32,
            NumOp::I64ReinterpretF64,
            NumOp::F32ReinterpretI32,
            NumOp::F64ReinterpretI64,
        ]
    }

    fn list_conversions() -> (ops: Vec<NumOp>)
        ensures
            ops@ == Self::conversions(),
    {
        let mut ops: Vec<NumOp> = Vec::new();
        ops.push(NumOp::I32WrapI64);
        ops.push(NumOp::I32TruncF32S);
        ops.push(NumOp::I32TruncF32U);
        ops.push(NumOp::I32TruncF64S);
        ops.push(NumOp::I32TruncF64U);
        ops.push(NumOp::I64ExtendI32S);
        ops.push(NumOp::I64ExtendI32U);
        ops.push(NumOp::I64TruncF32S);
        ops.push(NumOp::I64TruncF32U);
        ops.push(NumOp::I64TruncF64S);
        ops.push(NumOp::I64TruncF64U);
        ops.push(NumOp::F32ConvertI32S);
        ops.push(NumOp::F32ConvertI32U);
        ops.push(NumOp::F32ConvertI64S);
        ops.push(NumOp::F32ConvertI64U);
        ops.push(NumOp::F32DemoteF64);
        ops.push(NumOp::F64ConvertI32S);
        ops.push(NumOp::F64ConvertI32U);
        ops.push(NumOp::F64ConvertI64S);
        ops.push(NumOp::F64ConvertI64U);
        ops.push(NumOp::F64PromoteF32);
        ops.push(NumOp::I32ReinterpretF32);
        ops.push(NumOp::I64ReinterpretF64);
        ops.push(NumOp::F32ReinterpretI32);
        ops.push(NumOp::F64ReinterpretI64);
        assert(ops@ =~= Self::conversions());
        ops
    }

    /// Sign extension.
    pub open spec fn sign_extensions() -> Seq<NumOp> {
        seq![
            NumOp::I32Extend8S,
            NumOp::I32Extend16S,
            NumOp::I64Extend8S,
            NumOp::I64Extend16S,
            NumOp::I64Extend32S,
        ]
    }

    fn list_sign_extensions() -> (ops: Vec<NumOp>)
        ensures
            ops@ == Self::sign_extensions(),
    {
        let mut ops: Vec<NumOp> = Vec::new();
        ops.push(NumOp::I32Extend8S);
        ops.push(NumOp::I32Extend16S);
        ops.push(NumOp::I64Extend8S);
        ops.push(NumOp::I64Extend16S);
        ops.push(NumOp::I64Extend32S);
        assert(ops@ =~= Self::sign_extensions());
        ops
    }

    /// Saturating truncation.
    pub open spec fn saturating_truncations() -> Seq<NumOp> {
        seq![
            NumOp::I32TruncSatF32S,
            NumOp::I32TruncSatF32U,
            NumOp::I32TruncSatF64S,
            NumOp::I32TruncSatF64U,
            NumOp::I64TruncSatF32S,
            NumOp::I64TruncSatF32U,
            NumOp::I64TruncSatF64S,
            NumOp::I64TruncSatF64U,
        ]
    }

    fn list_saturating_truncations() -> (ops: Vec<NumOp>)
        ensures
            ops@ == Self::saturating_truncations(),
    {
        let mut ops: Vec<NumOp> = Vec::new();
        ops.push(NumOp::I32TruncSatF32S);
        ops.push(NumOp::I32TruncSatF32U);
        ops.push(NumOp::I32TruncSatF64S);
        ops.push(NumOp::I32TruncSatF64U);
        ops.push(NumOp::I64TruncSatF32S);
        ops.push(NumOp::I64TruncSatF32U);
        ops.push(NumOp::I64TruncSatF64S);
        ops.push(NumOp::I64TruncSatF64U);
        assert(ops@ =~= Self::saturating_truncations());
        ops
    }

    /// Every op, for whoever must not miss one.
    pub fn all() -> (ops: Vec<NumOp>)
        ensures
            ops@ == Self::every(),
    {
        let mut ops: Vec<NumOp> = Self::list_i32_comparisons();
        let mut more: Vec<NumOp> = Self::list_i32_arithmetic();
        ops.append(&mut more);
        let mut more: Vec<NumOp> = Self::list_i64_comparisons();
        ops.append(&mut more);
        let mut more: Vec<NumOp> = Self::list_i64_arithmetic();
        ops.append(&mut more);
        let mut more: Vec<NumOp> = Self::list_f32_operations();
        ops.append(&mut more);
        let mut more: Vec<NumOp> = Self::list_f64_operations();
        ops.append(&mut more);
        let mut more: Vec<NumOp> = Self::list_conversions();
        ops.append(&mut more);
        let mut more: Vec<NumOp> = Self::list_sign_extensions();
        ops.append(&mut more);
        let mut more: Vec<NumOp> = Self::list_saturating_truncations();
        ops.append(&mut more);
        ops
    }

    /// No op is missing from the list of all of them.
    pub proof fn every_op_is_listed(op: NumOp)
        ensures
            Self::every().contains(op),
    {
        let at = match op {
            NumOp::I32Eqz => 0int,
            NumOp::I32Eq => 1int,
            NumOp::I32Ne => 2int,
            NumOp::I32LtS => 3int,
            NumOp::I32LtU => 4int,
            NumOp::I32GtS => 5int,
            NumOp::I32GtU => 6int,
            NumOp::I32LeS => 7int,
            NumOp::I32LeU => 8int,
            NumOp::I32GeS => 9int,
            NumOp::I32GeU => 10int,
            NumOp::I32Clz => 11int,
            NumOp::I32Ctz => 12int,
            NumOp::I32Popcnt => 13int,
            NumOp::I32Add => 14int,
            NumOp::I32Sub => 15int,
            NumOp::I32Mul => 16int,
            NumOp::I32DivS => 17int,
            NumOp::I32DivU => 18int,
            NumOp::I32RemS => 19int,
            NumOp::I32RemU => 20int,
            NumOp::I32And => 21int,
            NumOp::I32Or => 22int,
            NumOp::I32Xor => 23int,
            NumOp::I32Shl => 24int,
            NumOp::I32ShrS => 25int,
            NumOp::I32ShrU => 26int,
            NumOp::I32Rotl => 27int,
            NumOp::I32Rotr => 28int,
            NumOp::I64Eqz => 29int,
            NumOp::I64Eq => 30int,
            NumOp::I64Ne => 31int,
            NumOp::I64LtS => 32int,
            NumOp::I64LtU => 33int,
            NumOp::I64GtS => 34int,
            NumOp::I64GtU => 35int,
            NumOp::I64LeS => 36int,
            NumOp::I64LeU => 37int,
            NumOp::I64GeS => 38int,
            NumOp::I64GeU => 39int,
            NumOp::I64Clz => 40int,
            NumOp::I64Ctz => 41int,
            NumOp::I64Popcnt => 42int,
            NumOp::I64Add => 43int,
            NumOp::I64Sub => 44int,
            NumOp::I64Mul => 45int,
            NumOp::I64DivS => 46int,
            NumOp::I64DivU => 47int,
            NumOp::I64RemS => 48int,
            NumOp::I64RemU => 49int,
            NumOp::I64And => 50int,
            NumOp::I64Or => 51int,
            NumOp::I64Xor => 52int,
            NumOp::I64Shl => 53int,
            NumOp::I64ShrS => 54int,
            NumOp::I64ShrU => 55int,
            NumOp::I64Rotl => 56int,
            NumOp::I64Rotr => 57int,
            NumOp::F32Eq => 58int,
            NumOp::F32Ne => 59int,
            NumOp::F32Lt => 60int,
            NumOp::F32Gt => 61int,
            NumOp::F32Le => 62int,
            NumOp::F32Ge => 63int,
            NumOp::F32Abs => 64int,
            NumOp::F32Neg => 65int,
            NumOp::F32Ceil => 66int,
            NumOp::F32Floor => 67int,
            NumOp::F32Trunc => 68int,
            NumOp::F32Nearest => 69int,
            NumOp::F32Sqrt => 70int,
            NumOp::F32Add => 71int,
            NumOp::F32Sub => 72int,
            NumOp::F32Mul => 73int,
            NumOp::F32Div => 74int,
            NumOp::F32Min => 75int,
            NumOp::F32Max => 76int,
            NumOp::F32Copysign => 77int,
            NumOp::F64Eq => 78int,
            NumOp::F64Ne => 79int,
            NumOp::F64Lt => 80int,
            NumOp::F64Gt => 81int,
            NumOp::F64Le => 82int,
            NumOp::F64Ge => 83int,
            NumOp::F64Abs => 84int,
            NumOp::F64Neg => 85int,
            NumOp::F64Ceil => 86int,
            NumOp::F64Floor => 87int,
            NumOp::F64Trunc => 88int,
            NumOp::F64Nearest => 89int,
            NumOp::F64Sqrt => 90int,
            NumOp::F64Add => 91int,
            NumOp::F64Sub => 92int,
            NumOp::F64Mul => 93int,
            NumOp::F64Div => 94int,
            NumOp::F64Min => 95int,
            NumOp::F64Max => 96int,
            NumOp::F64Copysign => 97int,
            NumOp::I32WrapI64 => 98int,
            NumOp::I32TruncF32S => 99int,
            NumOp::I32TruncF32U => 100int,
            NumOp::I32TruncF64S => 101int,
            NumOp::I32TruncF64U => 102int,
            NumOp::I64ExtendI32S => 103int,
            NumOp::I64ExtendI32U => 104int,
            NumOp::I64TruncF32S => 105int,
            NumOp::I64TruncF32U => 106int,
            NumOp::I64TruncF64S => 107int,
            NumOp::I64TruncF64U => 108int,
            NumOp::F32ConvertI32S => 109int,
            NumOp::F32ConvertI32U => 110int,
            NumOp::F32ConvertI64S => 111int,
            NumOp::F32ConvertI64U => 112int,
            NumOp::F32DemoteF64 => 113int,
            NumOp::F64ConvertI32S => 114int,
            NumOp::F64ConvertI32U => 115int,
            NumOp::F64ConvertI64S => 116int,
            NumOp::F64ConvertI64U => 117int,
            NumOp::F64PromoteF32 => 118int,
            NumOp::I32ReinterpretF32 => 119int,
            NumOp::I64ReinterpretF64 => 120int,
            NumOp::F32ReinterpretI32 => 121int,
            NumOp::F64ReinterpretI64 => 122int,
            NumOp::I32Extend8S => 123int,
            NumOp::I32Extend16S => 124int,
            NumOp::I64Extend8S => 125int,
            NumOp::I64Extend16S => 126int,
            NumOp::I64Extend32S => 127int,
            NumOp::I32TruncSatF32S => 128int,
            NumOp::I32TruncSatF32U => 129int,
            NumOp::I32TruncSatF64S => 130int,
            NumOp::I32TruncSatF64U => 131int,
            NumOp::I64TruncSatF32S => 132int,
            NumOp::I64TruncSatF32U => 133int,
            NumOp::I64TruncSatF64S => 134int,
            NumOp::I64TruncSatF64U => 135int,
        };
        assert(Self::every()[at] == op);
    }
}

/// The op an operator's name stands for.
pub open spec fn num_op(name: Seq<char>) -> Option<NumOp> {
    if name == "I32Eqz"@ {
        Some(NumOp::I32Eqz)
    } else if name == "I32Eq"@ {
        Some(NumOp::I32Eq)
    } else if name == "I32Ne"@ {
        Some(NumOp::I32Ne)
    } else if name == "I32LtS"@ {
        Some(NumOp::I32LtS)
    } else if name == "I32LtU"@ {
        Some(NumOp::I32LtU)
    } else if name == "I32GtS"@ {
        Some(NumOp::I32GtS)
    } else if name == "I32GtU"@ {
        Some(NumOp::I32GtU)
    } else if name == "I32LeS"@ {
        Some(NumOp::I32LeS)
    } else if name == "I32LeU"@ {
        Some(NumOp::I32LeU)
    } else if name == "I32GeS"@ {
        Some(NumOp::I32GeS)
    } else if name == "I32GeU"@ {
        Some(NumOp::I32GeU)
    } else if name == "I32Clz"@ {
        Some(NumOp::I32Clz)
    } else if name == "I32Ctz"@ {
        Some(NumOp::I32Ctz)
    } else if name == "I32Popcnt"@ {
        Some(NumOp::I32Popcnt)
    } else if name == "I32Add"@ {
        Some(NumOp::I32Add)
    } else if name == "I32Sub"@ {
        Some(NumOp::I32Sub)
    } else if name == "I32Mul"@ {
        Some(NumOp::I32Mul)
    } else if name == "I32DivS"@ {
        Some(NumOp::I32DivS)
    } else if name == "I32DivU"@ {
        Some(NumOp::I32DivU)
    } else if name == "I32RemS"@ {
        Some(NumOp::I32RemS)
    } else if name == "I32RemU"@ {
        Some(NumOp::I32RemU)
    } else if name == "I32And"@ {
        Some(NumOp::I32And)
    } else if name == "I32Or"@ {
        Some(NumOp::I32Or)
    } else if name == "I32Xor"@ {
        Some(NumOp::I32Xor)
    } else if name == "I32Shl"@ {
        Some(NumOp::I32Shl)
    } else if name == "I32ShrS"@ {
        Some(NumOp::I32ShrS)
    } else if name == "I32ShrU"@ {
        Some(NumOp::I32ShrU)
    } else if name == "I32Rotl"@ {
        Some(NumOp::I32Rotl)
    } else if name == "I32Rotr"@ {
        Some(NumOp::I32Rotr)
    } else if name == "I64Eqz"@ {
        Some(NumOp::I64Eqz)
    } else if name == "I64Eq"@ {
        Some(NumOp::I64Eq)
    } else if name == "I64Ne"@ {
        Some(NumOp::I64Ne)
    } else if name == "I64LtS"@ {
        Some(NumOp::I64LtS)
    } else if name == "I64LtU"@ {
        Some(NumOp::I64LtU)
    } else if name == "I64GtS"@ {
        Some(NumOp::I64GtS)
    } else if name == "I64GtU"@ {
        Some(NumOp::I64GtU)
    } else if name == "I64LeS"@ {
        Some(NumOp::I64LeS)
    } else if name == "I64LeU"@ {
        Some(NumOp::I64LeU)
    } else if name == "I64GeS"@ {
        Some(NumOp::I64GeS)
    } else if name == "I64GeU"@ {
        Some(NumOp::I64GeU)
    } else if name == "I64Clz"@ {
        Some(NumOp::I64Clz)
    } else if name == "I64Ctz"@ {
        Some(NumOp::I64Ctz)
    } else if name == "I64Popcnt"@ {
        Some(NumOp::I64Popcnt)
    } else if name == "I64Add"@ {
        Some(NumOp::I64Add)
    } else if name == "I64Sub"@ {
        Some(NumOp::I64Sub)
    } else if name == "I64Mul"@ {
        Some(NumOp::I64Mul)
    } else if name == "I64DivS"@ {
        Some(NumOp::I64DivS)
    } else if name == "I64DivU"@ {
        Some(NumOp::I64DivU)
    } else if name == "I64RemS"@ {
        Some(NumOp::I64RemS)
    } else if name == "I64RemU"@ {
        Some(NumOp::I64RemU)
    } else if name == "I64And"@ {
        Some(NumOp::I64And)
    } else if name == "I64Or"@ {
        Some(NumOp::I64Or)
    } else if name == "I64Xor"@ {
        Some(NumOp::I64Xor)
    } else if name == "I64Shl"@ {
        Some(NumOp::I64Shl)
    } else if name == "I64ShrS"@ {
        Some(NumOp::I64ShrS)
    } else if name == "I64ShrU"@ {
        Some(NumOp::I64ShrU)
    } else if name == "I64Rotl"@ {
        Some(NumOp::I64Rotl)
    } else if name == "I64Rotr"@ {
        Some(NumOp::I64Rotr)
    } else if name == "F32Eq"@ {
        Some(NumOp::F32Eq)
    } else if name == "F32Ne"@ {
        Some(NumOp::F32Ne)
    } else if name == "F32Lt"@ {
        Some(NumOp::F32Lt)
    } else if name == "F32Gt"@ {
        Some(NumOp::F32Gt)
    } else if name == "F32Le"@ {
        Some(NumOp::F32Le)
    } else if name == "F32Ge"@ {
        Some(NumOp::F32Ge)
    } else if name == "F32Abs"@ {
        Some(NumOp::F32Abs)
    } else if name == "F32Neg"@ {
        Some(NumOp::F32Neg)
    } else if name == "F32Ceil"@ {
        Some(NumOp::F32Ceil)
    } else if name == "F32Floor"@ {
        Some(NumOp::F32Floor)
    } else if name == "F32Trunc"@ {
        Some(NumOp::F32Trunc)
    } else if name == "F32Nearest"@ {
        Some(NumOp::F32Nearest)
    } else if name == "F32Sqrt"@ {
        Some(NumOp::F32Sqrt)
    } else if name == "F32Add"@ {
        Some(NumOp::F32Add)
    } else if name == "F32Sub"@ {
        Some(NumOp::F32Sub)
    } else if name == "F32Mul"@ {
        Some(NumOp::F32Mul)
    } else if name == "F32Div"@ {
        Some(NumOp::F32Div)
    } else if name == "F32Min"@ {
        Some(NumOp::F32Min)
    } else if name == "F32Max"@ {
        Some(NumOp::F32Max)
    } else if name == "F32Copysign"@ {
        Some(NumOp::F32Copysign)
    } else if name == "F64Eq"@ {
        Some(NumOp::F64Eq)
    } else if name == "F64Ne"@ {
        Some(NumOp::F64Ne)
    } else if name == "F64Lt"@ {
        Some(NumOp::F64Lt)
    } else if name == "F64Gt"@ {
        Some(NumOp::F64Gt)
    } else if name == "F64Le"@ {
        Some(NumOp::F64Le)
    } else if name == "F64Ge"@ {
        Some(NumOp::F64Ge)
    } else if name == "F64Abs"@ {
        Some(NumOp::F64Abs)
    } else if name == "F64Neg"@ {
        Some(NumOp::F64Neg)
    } else if name == "F64Ceil"@ {
        Some(NumOp::F64Ceil)
    } else if name == "F64Floor"@ {
        Some(NumOp::F64Floor)
    } else if name == "F64Trunc"@ {
        Some(NumOp::F64Trunc)
    } else if name == "F64Nearest"@ {
        Some(NumOp::F64Nearest)
    } else if name == "F64Sqrt"@ {
        Some(NumOp::F64Sqrt)
    } else if name == "F64Add"@ {
        Some(NumOp::F64Add)
    } else if name == "F64Sub"@ {
        Some(NumOp::F64Sub)
    } else if name == "F64Mul"@ {
        Some(NumOp::F64Mul)
    } else if name == "F64Div"@ {
        Some(NumOp::F64Div)
    } else if name == "F64Min"@ {
        Some(NumOp::F64Min)
    } else if name == "F64Max"@ {
        Some(NumOp::F64Max)
    } else if name == "F64Copysign"@ {
        Some(NumOp::F64Copysign)
    } else if name == "I32WrapI64"@ {
        Some(NumOp::I32WrapI64)
    } else if name == "I32TruncF32S"@ {
        Some(NumOp::I32TruncF32S)
    } else if name == "I32TruncF32U"@ {
        Some(NumOp::I32TruncF32U)
    } else if name == "I32TruncF64S"@ {
        Some(NumOp::I32TruncF64S)
    } else if name == "I32TruncF64U"@ {
        Some(NumOp::I32TruncF64U)
    } else if name == "I64ExtendI32S"@ {
        Some(NumOp::I64ExtendI32S)
    } else if name == "I64ExtendI32U"@ {
        Some(NumOp::I64ExtendI32U)
    } else if name == "I64TruncF32S"@ {
        Some(NumOp::I64TruncF32S)
    } else if name == "I64TruncF32U"@ {
        Some(NumOp::I64TruncF32U)
    } else if name == "I64TruncF64S"@ {
        Some(NumOp::I64TruncF64S)
    } else if name == "I64TruncF64U"@ {
        Some(NumOp::I64TruncF64U)
    } else if name == "F32ConvertI32S"@ {
        Some(NumOp::F32ConvertI32S)
    } else if name == "F32ConvertI32U"@ {
        Some(NumOp::F32ConvertI32U)
    } else if name == "F32ConvertI64S"@ {
        Some(NumOp::F32ConvertI64S)
    } else if name == "F32ConvertI64U"@ {
        Some(NumOp::F32ConvertI64U)
    } else if name == "F32DemoteF64"@ {
        Some(NumOp::F32DemoteF64)
    } else if name == "F64ConvertI32S"@ {
        Some(NumOp::F64ConvertI32S)
    } else if name == "F64ConvertI32U"@ {
        Some(NumOp::F64ConvertI32U)
    } else if name == "F64ConvertI64S"@ {
        Some(NumOp::F64ConvertI64S)
    } else if name == "F64ConvertI64U"@ {
        Some(NumOp::F64ConvertI64U)
    } else if name == "F64PromoteF32"@ {
        Some(NumOp::F64PromoteF32)
    } else if name == "I32ReinterpretF32"@ {
        Some(NumOp::I32ReinterpretF32)
    } else if name == "I64ReinterpretF64"@ {
        Some(NumOp::I64ReinterpretF64)
    } else if name == "F32ReinterpretI32"@ {
        Some(NumOp::F32ReinterpretI32)
    } else if name == "F64ReinterpretI64"@ {
        Some(NumOp::F64ReinterpretI64)
    } else if name == "I32Extend8S"@ {
        Some(NumOp::I32Extend8S)
    } else if name == "I32Extend16S"@ {
        Some(NumOp::I32Extend16S)
    } else if name == "I64Extend8S"@ {
        Some(NumOp::I64Extend8S)
    } else if name == "I64Extend16S"@ {
        Some(NumOp::I64Extend16S)
    } else if name == "I64Extend32S"@ {
        Some(NumOp::I64Extend32S)
    } else if name == "I32TruncSatF32S"@ {
        Some(NumOp::I32TruncSatF32S)
    } else if name == "I32TruncSatF32U"@ {
        Some(NumOp::I32TruncSatF32U)
    } else if name == "I32TruncSatF64S"@ {
        Some(NumOp::I32TruncSatF64S)
    } else if name == "I32TruncSatF64U"@ {
        Some(NumOp::I32TruncSatF64U)
    } else if name == "I64TruncSatF32S"@ {
        Some(NumOp::I64TruncSatF32S)
    } else if name == "I64TruncSatF32U"@ {
        Some(NumOp::I64TruncSatF32U)
    } else if name == "I64TruncSatF64S"@ {
        Some(NumOp::I64TruncSatF64S)
    } else if name == "I64TruncSatF64U"@ {
        Some(NumOp::I64TruncSatF64U)
    } else {
        None
    }
}

/// The op of that name.
pub fn op_named(name: &Vec<char>) -> (op: Option<NumOp>)
    ensures
        op == num_op(name@),
{
    if same_as(name, "I32Eqz") {
        Some(NumOp::I32Eqz)
    } else if same_as(name, "I32Eq") {
        Some(NumOp::I32Eq)
    } else if same_as(name, "I32Ne") {
        Some(NumOp::I32Ne)
    } else if same_as(name, "I32LtS") {
        Some(NumOp::I32LtS)
    } else if same_as(name, "I32LtU") {
        Some(NumOp::I32LtU)
    } else if same_as(name, "I32GtS") {
        Some(NumOp::I32GtS)
    } else if same_as(name, "I32GtU") {
        Some(NumOp::I32GtU)
    } else if same_as(name, "I32LeS") {
        Some(NumOp::I32LeS)
    } else if same_as(name, "I32LeU") {
        Some(NumOp::I32LeU)
    } else if same_as(name, "I32GeS") {
        Some(NumOp::I32GeS)
    } else if same_as(name, "I32GeU") {
        Some(NumOp::I32GeU)
    } else if same_as(name, "I32Clz") {
        Some(NumOp::I32Clz)
    } else if same_as(name, "I32Ctz") {
        Some(NumOp::I32Ctz)
    } else if same_as(name, "I32Popcnt") {
        Some(NumOp::I32Popcnt)
    } else if same_as(name, "I32Add") {
        Some(NumOp::I32Add)
    } else if same_as(name, "I32Sub") {
        Some(NumOp::I32Sub)
    } else if same_as(name, "I32Mul") {
        Some(NumOp::I32Mul)
    } else if same_as(name, "I32DivS") {
        Some(NumOp::I32DivS)
    } else if same_as(name, "I32DivU") {
        Some(NumOp::I32DivU)
    } else if same_as(name, "I32RemS") {
        Some(NumOp::I32RemS)
    } else if same_as(name, "I32RemU") {
        Some(NumOp::I32RemU)
    } else if same_as(name, "I32And") {
        Some(NumOp::I32And)
    } else if same_as(name, "I32Or") {
        Some(NumOp::I32Or)
    } else if same_as(name, "I32Xor") {
        Some(NumOp::I32Xor)
    } else if same_as(name, "I32Shl") {
        Some(NumOp::I32Shl)
    } else if same_as(name, "I32ShrS") {
        Some(NumOp::I32ShrS)
    } else if same_as(name, "I32ShrU") {
        Some(NumOp::I32ShrU)
    } else if same_as(name, "I32Rotl") {
        Some(NumOp::I32Rotl)
    } else if same_as(name, "I32Rotr") {
        Some(NumOp::I32Rotr)
    } else if same_as(name, "I64Eqz") {
        Some(NumOp::I64Eqz)
    } else if same_as(name, "I64Eq") {
        Some(NumOp::I64Eq)
    } else if same_as(name, "I64Ne") {
        Some(NumOp::I64Ne)
    } else if same_as(name, "I64LtS") {
        Some(NumOp::I64LtS)
    } else if same_as(name, "I64LtU") {
        Some(NumOp::I64LtU)
    } else if same_as(name, "I64GtS") {
        Some(NumOp::I64GtS)
    } else if same_as(name, "I64GtU") {
        Some(NumOp::I64GtU)
    } else if same_as(name, "I64LeS") {
        Some(NumOp::I64LeS)
    } else if same_as(name, "I64LeU") {
        Some(NumOp::I64LeU)
    } else if same_as(name, "I64GeS") {
        Some(NumOp::I64GeS)
    } else if same_as(name, "I64GeU") {
        Some(NumOp::I64GeU)
    } else if same_as(name, "I64Clz") {
        Some(NumOp::I64Clz)
    } else if same_as(name, "I64Ctz") {
        Some(NumOp::I64Ctz)
    } else if same_as(name, "I64Popcnt") {
        Some(NumOp::I64Popcnt)
    } else if same_as(name, "I64Add") {
        Some(NumOp::I64Add)
    } else if same_as(name, "I64Sub") {
        Some(NumOp::I64Sub)
    } else if same_as(name, "I64Mul") {
        Some(NumOp::I64Mul)
    } else if same_as(name, "I64DivS") {
        Some(NumOp::I64DivS)
    } else if same_as(name, "I64DivU") {
        Some(NumOp::I64DivU)
    } else if same_as(name, "I64RemS") {
        Some(NumOp::I64RemS)
    } else if same_as(name, "I64RemU") {
        Some(NumOp::I64RemU)
    } else if same_as(name, "I64And") {
        Some(NumOp::I64And)
    } else if same_as(name, "I64Or") {
        Some(NumOp::I64Or)
    } else if same_as(name, "I64Xor") {
        Some(NumOp::I64Xor)
    } else if same_as(name, "I64Shl") {
        Some(NumOp::I64Shl)
    } else if same_as(name, "I64ShrS") {
        Some(NumOp::I64ShrS)
    } else if same_as(name, "I64ShrU") {
        Some(NumOp::I64ShrU)
    } else if same_as(name, "I64Rotl") {
        Some(NumOp::I64Rotl)
    } else if same_as(name, "I64Rotr") {
        Some(NumOp::I64Rotr)
    } else if same_as(name, "F32Eq") {
        Some(NumOp::F32Eq)
    } else if same_as(name, "F32Ne") {
        Some(NumOp::F32Ne)
    } else if same_as(name, "F32Lt") {
        Some(NumOp::F32Lt)
    } else if same_as(name, "F32Gt") {
        Some(NumOp::F32Gt)
    } else if same_as(name, "F32Le") {
        Some(NumOp::F32Le)
    } else if same_as(name, "F32Ge") {
        Some(NumOp::F32Ge)
    } else if same_as(name, "F32Abs") {
        Some(NumOp::F32Abs)
    } else if same_as(name, "F32Neg") {
        Some(NumOp::F32Neg)
    } else if same_as(name, "F32Ceil") {
        Some(NumOp::F32Ceil)
    } else if same_as(name, "F32Floor") {
        Some(NumOp::F32Floor)
    } else if same_as(name, "F32Trunc") {
        Some(NumOp::F32Trunc)
    } else if same_as(name, "F32Nearest") {
        Some(NumOp::F32Nearest)
    } else if same_as(name, "F32Sqrt") {
        Some(NumOp::F32Sqrt)
    } else if same_as(name, "F32Add") {
        Some(NumOp::F32Add)
    } else if same_as(name, "F32Sub") {
        Some(NumOp::F32Sub)
    } else if same_as(name, "F32Mul") {
        Some(NumOp::F32Mul)
    } else if same_as(name, "F32Div") {
        Some(NumOp::F32Div)
    } else if same_as(name, "F32Min") {
        Some(NumOp::F32Min)
    } else if same_as(name, "F32Max") {
        Some(NumOp::F32Max)
    } else if same_as(name, "F32Copysign") {
        Some(NumOp::F32Copysign)
    } else if same_as(name, "F64Eq") {
        Some(NumOp::F64Eq)
    } else if same_as(name, "F64Ne") {
        Some(NumOp::F64Ne)
    } else if same_as(name, "F64Lt") {
        Some(NumOp::F64Lt)
    } else if same_as(name, "F64Gt") {
        Some(NumOp::F64Gt)
    } else if same_as(name, "F64Le") {
        Some(NumOp::F64Le)
    } else if same_as(name, "F64Ge") {
        Some(NumOp::F64Ge)
    } else if same_as(name, "F64Abs") {
        Some(NumOp::F64Abs)
    } else if same_as(name, "F64Neg") {
        Some(NumOp::F64Neg)
    } else if same_as(name, "F64Ceil") {
        Some(NumOp::F64Ceil)
    } else if same_as(name, "F64Floor") {
        Some(NumOp::F64Floor)
    } else if same_as(name, "F64Trunc") {
        Some(NumOp::F64Trunc)
    } else if same_as(name, "F64Nearest") {
        Some(NumOp::F64Nearest)
    } else if same_as(name, "F64Sqrt") {
        Some(NumOp::F64Sqrt)
    } else if same_as(name, "F64Add") {
        Some(NumOp::F64Add)
    } else if same_as(name, "F64Sub") {
        Some(NumOp::F64Sub)
    } else if same_as(name, "F64Mul") {
        Some(NumOp::F64Mul)
    } else if same_as(name, "F64Div") {
        Some(NumOp::F64Div)
    } else if same_as(name, "F64Min") {
        Some(NumOp::F64Min)
    } else if same_as(name, "F64Max") {
        Some(NumOp::F64Max)
    } else if same_as(name, "F64Copysign") {
        Some(NumOp::F64Copysign)
    } else if same_as(name, "I32WrapI64") {
        Some(NumOp::I32WrapI64)
    } else if same_as(name, "I32TruncF32S") {
        Some(NumOp::I32TruncF32S)
    } else if same_as(name, "I32TruncF32U") {
        Some(NumOp::I32TruncF32U)
    } else if same_as(name, "I32TruncF64S") {
        Some(NumOp::I32TruncF64S)
    } else if same_as(name, "I32TruncF64U") {
        Some(NumOp::I32TruncF64U)
    } else if same_as(name, "I64ExtendI32S") {
        Some(NumOp::I64ExtendI32S)
    } else if same_as(name, "I64ExtendI32U") {
        Some(NumOp::I64ExtendI32U)
    } else if same_as(name, "I64TruncF32S") {
        Some(NumOp::I64TruncF32S)
    } else if same_as(name, "I64TruncF32U") {
        Some(NumOp::I64TruncF32U)
    } else if same_as(name, "I64TruncF64S") {
        Some(NumOp::I64TruncF64S)
    } else if same_as(name, "I64TruncF64U") {
        Some(NumOp::I64TruncF64U)
    } else if same_as(name, "F32ConvertI32S") {
        Some(NumOp::F32ConvertI32S)
    } else if same_as(name, "F32ConvertI32U") {
        Some(NumOp::F32ConvertI32U)
    } else if same_as(name, "F32ConvertI64S") {
        Some(NumOp::F32ConvertI64S)
    } else if same_as(name, "F32ConvertI64U") {
        Some(NumOp::F32ConvertI64U)
    } else if same_as(name, "F32DemoteF64") {
        Some(NumOp::F32DemoteF64)
    } else if same_as(name, "F64ConvertI32S") {
        Some(NumOp::F64ConvertI32S)
    } else if same_as(name, "F64ConvertI32U") {
        Some(NumOp::F64ConvertI32U)
    } else if same_as(name, "F64ConvertI64S") {
        Some(NumOp::F64ConvertI64S)
    } else if same_as(name, "F64ConvertI64U") {
        Some(NumOp::F64ConvertI64U)
    } else if same_as(name, "F64PromoteF32") {
        Some(NumOp::F64PromoteF32)
    } else if same_as(name, "I32ReinterpretF32") {
        Some(NumOp::I32ReinterpretF32)
    } else if same_as(name, "I64ReinterpretF64") {
        Some(NumOp::I64ReinterpretF64)
    } else if same_as(name, "F32ReinterpretI32") {
        Some(NumOp::F32ReinterpretI32)
    } else if same_as(name, "F64ReinterpretI64") {
        Some(NumOp::F64ReinterpretI64)
    } else if same_as(name, "I32Extend8S") {
        Some(NumOp::I32Extend8S)
    } else if same_as(name, "I32Extend16S") {
        Some(NumOp::I32Extend16S)
    } else if same_as(name, "I64Extend8S") {
        Some(NumOp::I64Extend8S)
    } else if same_as(name, "I64Extend16S") {
        Some(NumOp::I64Extend16S)
    } else if same_as(name, "I64Extend32S") {
        Some(NumOp::I64Extend32S)
    } else if same_as(name, "I32TruncSatF32S") {
        Some(NumOp::I32TruncSatF32S)
    } else if same_as(name, "I32TruncSatF32U") {
        Some(NumOp::I32TruncSatF32U)
    } else if same_as(name, "I32TruncSatF64S") {
        Some(NumOp::I32TruncSatF64S)
    } else if same_as(name, "I32TruncSatF64U") {
        Some(NumOp::I32TruncSatF64U)
    } else if same_as(name, "I64TruncSatF32S") {
        Some(NumOp::I64TruncSatF32S)
    } else if same_as(name, "I64TruncSatF32U") {
        Some(NumOp::I64TruncSatF32U)
    } else if same_as(name, "I64TruncSatF64S") {
        Some(NumOp::I64TruncSatF64S)
    } else if same_as(name, "I64TruncSatF64U") {
        Some(NumOp::I64TruncSatF64U)
    } else {
        None
    }
}

/// Recognises the numeric operators. Returns `None` for everything
/// else, which the caller reports as unsupported rather than skipping.
pub fn lower(operator: &Operator) -> (op: Option<NumOp>)
    ensures
        op == num_op(operator.name()),
{
    op_named(&operator.name_chars())
}

} // verus!
