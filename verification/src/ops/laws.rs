//! What holds of every numeric instruction.

use vstd::prelude::*;
use crate::ops::table::{num_op, NumOp};

verus! {

/// An operator is lowered to the op of the same name, so no two ops share a name.
#[verifier::rlimit(100)]
pub proof fn lowering_goes_by_the_name(op: NumOp)
    ensures
        num_op(op.called()) == Some(op),
{
    reveal_strlit("I32Eqz");
    assert("I32Eqz"@.len() == 6 && "I32Eqz"@[1] == '3' && "I32Eqz"@[3] == 'E');
    reveal_strlit("I32Eq");
    assert("I32Eq"@.len() == 5 && "I32Eq"@[0] == 'I' && "I32Eq"@[1] == '3' && "I32Eq"@[3] == 'E');
    reveal_strlit("I32Ne");
    assert("I32Ne"@.len() == 5 && "I32Ne"@[0] == 'I' && "I32Ne"@[1] == '3' && "I32Ne"@[3] == 'N');
    reveal_strlit("I32LtS");
    assert("I32LtS"@.len() == 6 && "I32LtS"@[1] == '3' && "I32LtS"@[3] == 'L' && "I32LtS"@[4] == 't' && "I32LtS"@[5] == 'S');
    reveal_strlit("I32LtU");
    assert("I32LtU"@.len() == 6 && "I32LtU"@[1] == '3' && "I32LtU"@[3] == 'L' && "I32LtU"@[4] == 't' && "I32LtU"@[5] == 'U');
    reveal_strlit("I32GtS");
    assert("I32GtS"@.len() == 6 && "I32GtS"@[1] == '3' && "I32GtS"@[3] == 'G' && "I32GtS"@[4] == 't' && "I32GtS"@[5] == 'S');
    reveal_strlit("I32GtU");
    assert("I32GtU"@.len() == 6 && "I32GtU"@[1] == '3' && "I32GtU"@[3] == 'G' && "I32GtU"@[4] == 't' && "I32GtU"@[5] == 'U');
    reveal_strlit("I32LeS");
    assert("I32LeS"@.len() == 6 && "I32LeS"@[1] == '3' && "I32LeS"@[3] == 'L' && "I32LeS"@[4] == 'e' && "I32LeS"@[5] == 'S');
    reveal_strlit("I32LeU");
    assert("I32LeU"@.len() == 6 && "I32LeU"@[1] == '3' && "I32LeU"@[3] == 'L' && "I32LeU"@[4] == 'e' && "I32LeU"@[5] == 'U');
    reveal_strlit("I32GeS");
    assert("I32GeS"@.len() == 6 && "I32GeS"@[1] == '3' && "I32GeS"@[3] == 'G' && "I32GeS"@[4] == 'e' && "I32GeS"@[5] == 'S');
    reveal_strlit("I32GeU");
    assert("I32GeU"@.len() == 6 && "I32GeU"@[1] == '3' && "I32GeU"@[3] == 'G' && "I32GeU"@[4] == 'e' && "I32GeU"@[5] == 'U');
    reveal_strlit("I32Clz");
    assert("I32Clz"@.len() == 6 && "I32Clz"@[1] == '3' && "I32Clz"@[3] == 'C' && "I32Clz"@[4] == 'l');
    reveal_strlit("I32Ctz");
    assert("I32Ctz"@.len() == 6 && "I32Ctz"@[1] == '3' && "I32Ctz"@[3] == 'C' && "I32Ctz"@[4] == 't');
    reveal_strlit("I32Popcnt");
    assert("I32Popcnt"@.len() == 9 && "I32Popcnt"@[1] == '3');
    reveal_strlit("I32Add");
    assert("I32Add"@.len() == 6 && "I32Add"@[0] == 'I' && "I32Add"@[1] == '3' && "I32Add"@[3] == 'A' && "I32Add"@[4] == 'd');
    reveal_strlit("I32Sub");
    assert("I32Sub"@.len() == 6 && "I32Sub"@[0] == 'I' && "I32Sub"@[1] == '3' && "I32Sub"@[3] == 'S' && "I32Sub"@[4] == 'u');
    reveal_strlit("I32Mul");
    assert("I32Mul"@.len() == 6 && "I32Mul"@[0] == 'I' && "I32Mul"@[1] == '3' && "I32Mul"@[3] == 'M');
    reveal_strlit("I32DivS");
    assert("I32DivS"@.len() == 7 && "I32DivS"@[1] == '3' && "I32DivS"@[3] == 'D' && "I32DivS"@[6] == 'S');
    reveal_strlit("I32DivU");
    assert("I32DivU"@.len() == 7 && "I32DivU"@[1] == '3' && "I32DivU"@[3] == 'D' && "I32DivU"@[6] == 'U');
    reveal_strlit("I32RemS");
    assert("I32RemS"@.len() == 7 && "I32RemS"@[1] == '3' && "I32RemS"@[3] == 'R' && "I32RemS"@[6] == 'S');
    reveal_strlit("I32RemU");
    assert("I32RemU"@.len() == 7 && "I32RemU"@[1] == '3' && "I32RemU"@[3] == 'R' && "I32RemU"@[6] == 'U');
    reveal_strlit("I32And");
    assert("I32And"@.len() == 6 && "I32And"@[0] == 'I' && "I32And"@[1] == '3' && "I32And"@[3] == 'A' && "I32And"@[4] == 'n');
    reveal_strlit("I32Or");
    assert("I32Or"@.len() == 5 && "I32Or"@[0] == 'I' && "I32Or"@[1] == '3' && "I32Or"@[3] == 'O');
    reveal_strlit("I32Xor");
    assert("I32Xor"@.len() == 6 && "I32Xor"@[1] == '3' && "I32Xor"@[3] == 'X');
    reveal_strlit("I32Shl");
    assert("I32Shl"@.len() == 6 && "I32Shl"@[0] == 'I' && "I32Shl"@[1] == '3' && "I32Shl"@[3] == 'S' && "I32Shl"@[4] == 'h');
    reveal_strlit("I32ShrS");
    assert("I32ShrS"@.len() == 7 && "I32ShrS"@[1] == '3' && "I32ShrS"@[3] == 'S' && "I32ShrS"@[6] == 'S');
    reveal_strlit("I32ShrU");
    assert("I32ShrU"@.len() == 7 && "I32ShrU"@[1] == '3' && "I32ShrU"@[3] == 'S' && "I32ShrU"@[6] == 'U');
    reveal_strlit("I32Rotl");
    assert("I32Rotl"@.len() == 7 && "I32Rotl"@[1] == '3' && "I32Rotl"@[3] == 'R' && "I32Rotl"@[6] == 'l');
    reveal_strlit("I32Rotr");
    assert("I32Rotr"@.len() == 7 && "I32Rotr"@[1] == '3' && "I32Rotr"@[3] == 'R' && "I32Rotr"@[6] == 'r');
    reveal_strlit("I64Eqz");
    assert("I64Eqz"@.len() == 6 && "I64Eqz"@[1] == '6' && "I64Eqz"@[3] == 'E');
    reveal_strlit("I64Eq");
    assert("I64Eq"@.len() == 5 && "I64Eq"@[0] == 'I' && "I64Eq"@[1] == '6' && "I64Eq"@[3] == 'E');
    reveal_strlit("I64Ne");
    assert("I64Ne"@.len() == 5 && "I64Ne"@[0] == 'I' && "I64Ne"@[1] == '6' && "I64Ne"@[3] == 'N');
    reveal_strlit("I64LtS");
    assert("I64LtS"@.len() == 6 && "I64LtS"@[1] == '6' && "I64LtS"@[3] == 'L' && "I64LtS"@[4] == 't' && "I64LtS"@[5] == 'S');
    reveal_strlit("I64LtU");
    assert("I64LtU"@.len() == 6 && "I64LtU"@[1] == '6' && "I64LtU"@[3] == 'L' && "I64LtU"@[4] == 't' && "I64LtU"@[5] == 'U');
    reveal_strlit("I64GtS");
    assert("I64GtS"@.len() == 6 && "I64GtS"@[1] == '6' && "I64GtS"@[3] == 'G' && "I64GtS"@[4] == 't' && "I64GtS"@[5] == 'S');
    reveal_strlit("I64GtU");
    assert("I64GtU"@.len() == 6 && "I64GtU"@[1] == '6' && "I64GtU"@[3] == 'G' && "I64GtU"@[4] == 't' && "I64GtU"@[5] == 'U');
    reveal_strlit("I64LeS");
    assert("I64LeS"@.len() == 6 && "I64LeS"@[1] == '6' && "I64LeS"@[3] == 'L' && "I64LeS"@[4] == 'e' && "I64LeS"@[5] == 'S');
    reveal_strlit("I64LeU");
    assert("I64LeU"@.len() == 6 && "I64LeU"@[1] == '6' && "I64LeU"@[3] == 'L' && "I64LeU"@[4] == 'e' && "I64LeU"@[5] == 'U');
    reveal_strlit("I64GeS");
    assert("I64GeS"@.len() == 6 && "I64GeS"@[1] == '6' && "I64GeS"@[3] == 'G' && "I64GeS"@[4] == 'e' && "I64GeS"@[5] == 'S');
    reveal_strlit("I64GeU");
    assert("I64GeU"@.len() == 6 && "I64GeU"@[1] == '6' && "I64GeU"@[3] == 'G' && "I64GeU"@[4] == 'e' && "I64GeU"@[5] == 'U');
    reveal_strlit("I64Clz");
    assert("I64Clz"@.len() == 6 && "I64Clz"@[1] == '6' && "I64Clz"@[3] == 'C' && "I64Clz"@[4] == 'l');
    reveal_strlit("I64Ctz");
    assert("I64Ctz"@.len() == 6 && "I64Ctz"@[1] == '6' && "I64Ctz"@[3] == 'C' && "I64Ctz"@[4] == 't');
    reveal_strlit("I64Popcnt");
    assert("I64Popcnt"@.len() == 9 && "I64Popcnt"@[1] == '6');
    reveal_strlit("I64Add");
    assert("I64Add"@.len() == 6 && "I64Add"@[0] == 'I' && "I64Add"@[1] == '6' && "I64Add"@[3] == 'A' && "I64Add"@[4] == 'd');
    reveal_strlit("I64Sub");
    assert("I64Sub"@.len() == 6 && "I64Sub"@[0] == 'I' && "I64Sub"@[1] == '6' && "I64Sub"@[3] == 'S' && "I64Sub"@[4] == 'u');
    reveal_strlit("I64Mul");
    assert("I64Mul"@.len() == 6 && "I64Mul"@[0] == 'I' && "I64Mul"@[1] == '6' && "I64Mul"@[3] == 'M');
    reveal_strlit("I64DivS");
    assert("I64DivS"@.len() == 7 && "I64DivS"@[1] == '6' && "I64DivS"@[3] == 'D' && "I64DivS"@[6] == 'S');
    reveal_strlit("I64DivU");
    assert("I64DivU"@.len() == 7 && "I64DivU"@[1] == '6' && "I64DivU"@[3] == 'D' && "I64DivU"@[6] == 'U');
    reveal_strlit("I64RemS");
    assert("I64RemS"@.len() == 7 && "I64RemS"@[1] == '6' && "I64RemS"@[3] == 'R' && "I64RemS"@[6] == 'S');
    reveal_strlit("I64RemU");
    assert("I64RemU"@.len() == 7 && "I64RemU"@[1] == '6' && "I64RemU"@[3] == 'R' && "I64RemU"@[6] == 'U');
    reveal_strlit("I64And");
    assert("I64And"@.len() == 6 && "I64And"@[0] == 'I' && "I64And"@[1] == '6' && "I64And"@[3] == 'A' && "I64And"@[4] == 'n');
    reveal_strlit("I64Or");
    assert("I64Or"@.len() == 5 && "I64Or"@[0] == 'I' && "I64Or"@[1] == '6' && "I64Or"@[3] == 'O');
    reveal_strlit("I64Xor");
    assert("I64Xor"@.len() == 6 && "I64Xor"@[1] == '6' && "I64Xor"@[3] == 'X');
    reveal_strlit("I64Shl");
    assert("I64Shl"@.len() == 6 && "I64Shl"@[0] == 'I' && "I64Shl"@[1] == '6' && "I64Shl"@[3] == 'S' && "I64Shl"@[4] == 'h');
    reveal_strlit("I64ShrS");
    assert("I64ShrS"@.len() == 7 && "I64ShrS"@[1] == '6' && "I64ShrS"@[3] == 'S' && "I64ShrS"@[6] == 'S');
    reveal_strlit("I64ShrU");
    assert("I64ShrU"@.len() == 7 && "I64ShrU"@[1] == '6' && "I64ShrU"@[3] == 'S' && "I64ShrU"@[6] == 'U');
    reveal_strlit("I64Rotl");
    assert("I64Rotl"@.len() == 7 && "I64Rotl"@[1] == '6' && "I64Rotl"@[3] == 'R' && "I64Rotl"@[6] == 'l');
    reveal_strlit("I64Rotr");
    assert("I64Rotr"@.len() == 7 && "I64Rotr"@[1] == '6' && "I64Rotr"@[3] == 'R' && "I64Rotr"@[6] == 'r');
    reveal_strlit("F32Eq");
    assert("F32Eq"@.len() == 5 && "F32Eq"@[0] == 'F' && "F32Eq"@[1] == '3' && "F32Eq"@[3] == 'E');
    reveal_strlit("F32Ne");
    assert("F32Ne"@.len() == 5 && "F32Ne"@[0] == 'F' && "F32Ne"@[1] == '3' && "F32Ne"@[3] == 'N');
    reveal_strlit("F32Lt");
    assert("F32Lt"@.len() == 5 && "F32Lt"@[0] == 'F' && "F32Lt"@[1] == '3' && "F32Lt"@[3] == 'L' && "F32Lt"@[4] == 't');
    reveal_strlit("F32Gt");
    assert("F32Gt"@.len() == 5 && "F32Gt"@[0] == 'F' && "F32Gt"@[1] == '3' && "F32Gt"@[3] == 'G' && "F32Gt"@[4] == 't');
    reveal_strlit("F32Le");
    assert("F32Le"@.len() == 5 && "F32Le"@[0] == 'F' && "F32Le"@[1] == '3' && "F32Le"@[3] == 'L' && "F32Le"@[4] == 'e');
    reveal_strlit("F32Ge");
    assert("F32Ge"@.len() == 5 && "F32Ge"@[0] == 'F' && "F32Ge"@[1] == '3' && "F32Ge"@[3] == 'G' && "F32Ge"@[4] == 'e');
    reveal_strlit("F32Abs");
    assert("F32Abs"@.len() == 6 && "F32Abs"@[1] == '3' && "F32Abs"@[3] == 'A' && "F32Abs"@[4] == 'b');
    reveal_strlit("F32Neg");
    assert("F32Neg"@.len() == 6 && "F32Neg"@[1] == '3' && "F32Neg"@[3] == 'N');
    reveal_strlit("F32Ceil");
    assert("F32Ceil"@.len() == 7 && "F32Ceil"@[1] == '3' && "F32Ceil"@[3] == 'C');
    reveal_strlit("F32Floor");
    assert("F32Floor"@.len() == 8 && "F32Floor"@[1] == '3' && "F32Floor"@[3] == 'F');
    reveal_strlit("F32Trunc");
    assert("F32Trunc"@.len() == 8 && "F32Trunc"@[1] == '3' && "F32Trunc"@[3] == 'T');
    reveal_strlit("F32Nearest");
    assert("F32Nearest"@.len() == 10 && "F32Nearest"@[0] == 'F' && "F32Nearest"@[1] == '3');
    reveal_strlit("F32Sqrt");
    assert("F32Sqrt"@.len() == 7 && "F32Sqrt"@[1] == '3' && "F32Sqrt"@[3] == 'S' && "F32Sqrt"@[6] == 't');
    reveal_strlit("F32Add");
    assert("F32Add"@.len() == 6 && "F32Add"@[0] == 'F' && "F32Add"@[1] == '3' && "F32Add"@[3] == 'A' && "F32Add"@[4] == 'd');
    reveal_strlit("F32Sub");
    assert("F32Sub"@.len() == 6 && "F32Sub"@[0] == 'F' && "F32Sub"@[1] == '3' && "F32Sub"@[3] == 'S');
    reveal_strlit("F32Mul");
    assert("F32Mul"@.len() == 6 && "F32Mul"@[0] == 'F' && "F32Mul"@[1] == '3' && "F32Mul"@[3] == 'M' && "F32Mul"@[4] == 'u');
    reveal_strlit("F32Div");
    assert("F32Div"@.len() == 6 && "F32Div"@[1] == '3' && "F32Div"@[3] == 'D');
    reveal_strlit("F32Min");
    assert("F32Min"@.len() == 6 && "F32Min"@[0] == 'F' && "F32Min"@[1] == '3' && "F32Min"@[3] == 'M' && "F32Min"@[4] == 'i');
    reveal_strlit("F32Max");
    assert("F32Max"@.len() == 6 && "F32Max"@[0] == 'F' && "F32Max"@[1] == '3' && "F32Max"@[3] == 'M' && "F32Max"@[4] == 'a');
    reveal_strlit("F32Copysign");
    assert("F32Copysign"@.len() == 11 && "F32Copysign"@[0] == 'F' && "F32Copysign"@[1] == '3');
    reveal_strlit("F64Eq");
    assert("F64Eq"@.len() == 5 && "F64Eq"@[0] == 'F' && "F64Eq"@[1] == '6' && "F64Eq"@[3] == 'E');
    reveal_strlit("F64Ne");
    assert("F64Ne"@.len() == 5 && "F64Ne"@[0] == 'F' && "F64Ne"@[1] == '6' && "F64Ne"@[3] == 'N');
    reveal_strlit("F64Lt");
    assert("F64Lt"@.len() == 5 && "F64Lt"@[0] == 'F' && "F64Lt"@[1] == '6' && "F64Lt"@[3] == 'L' && "F64Lt"@[4] == 't');
    reveal_strlit("F64Gt");
    assert("F64Gt"@.len() == 5 && "F64Gt"@[0] == 'F' && "F64Gt"@[1] == '6' && "F64Gt"@[3] == 'G' && "F64Gt"@[4] == 't');
    reveal_strlit("F64Le");
    assert("F64Le"@.len() == 5 && "F64Le"@[0] == 'F' && "F64Le"@[1] == '6' && "F64Le"@[3] == 'L' && "F64Le"@[4] == 'e');
    reveal_strlit("F64Ge");
    assert("F64Ge"@.len() == 5 && "F64Ge"@[0] == 'F' && "F64Ge"@[1] == '6' && "F64Ge"@[3] == 'G' && "F64Ge"@[4] == 'e');
    reveal_strlit("F64Abs");
    assert("F64Abs"@.len() == 6 && "F64Abs"@[0] == 'F' && "F64Abs"@[1] == '6' && "F64Abs"@[3] == 'A' && "F64Abs"@[4] == 'b');
    reveal_strlit("F64Neg");
    assert("F64Neg"@.len() == 6 && "F64Neg"@[1] == '6' && "F64Neg"@[3] == 'N');
    reveal_strlit("F64Ceil");
    assert("F64Ceil"@.len() == 7 && "F64Ceil"@[1] == '6' && "F64Ceil"@[3] == 'C');
    reveal_strlit("F64Floor");
    assert("F64Floor"@.len() == 8 && "F64Floor"@[1] == '6' && "F64Floor"@[3] == 'F');
    reveal_strlit("F64Trunc");
    assert("F64Trunc"@.len() == 8 && "F64Trunc"@[1] == '6' && "F64Trunc"@[3] == 'T');
    reveal_strlit("F64Nearest");
    assert("F64Nearest"@.len() == 10 && "F64Nearest"@[0] == 'F' && "F64Nearest"@[1] == '6');
    reveal_strlit("F64Sqrt");
    assert("F64Sqrt"@.len() == 7 && "F64Sqrt"@[1] == '6' && "F64Sqrt"@[3] == 'S' && "F64Sqrt"@[6] == 't');
    reveal_strlit("F64Add");
    assert("F64Add"@.len() == 6 && "F64Add"@[0] == 'F' && "F64Add"@[1] == '6' && "F64Add"@[3] == 'A' && "F64Add"@[4] == 'd');
    reveal_strlit("F64Sub");
    assert("F64Sub"@.len() == 6 && "F64Sub"@[0] == 'F' && "F64Sub"@[1] == '6' && "F64Sub"@[3] == 'S');
    reveal_strlit("F64Mul");
    assert("F64Mul"@.len() == 6 && "F64Mul"@[0] == 'F' && "F64Mul"@[1] == '6' && "F64Mul"@[3] == 'M' && "F64Mul"@[4] == 'u');
    reveal_strlit("F64Div");
    assert("F64Div"@.len() == 6 && "F64Div"@[1] == '6' && "F64Div"@[3] == 'D');
    reveal_strlit("F64Min");
    assert("F64Min"@.len() == 6 && "F64Min"@[0] == 'F' && "F64Min"@[1] == '6' && "F64Min"@[3] == 'M' && "F64Min"@[4] == 'i');
    reveal_strlit("F64Max");
    assert("F64Max"@.len() == 6 && "F64Max"@[0] == 'F' && "F64Max"@[1] == '6' && "F64Max"@[3] == 'M' && "F64Max"@[4] == 'a');
    reveal_strlit("F64Copysign");
    assert("F64Copysign"@.len() == 11 && "F64Copysign"@[0] == 'F' && "F64Copysign"@[1] == '6');
    reveal_strlit("I32WrapI64");
    assert("I32WrapI64"@.len() == 10 && "I32WrapI64"@[0] == 'I');
    reveal_strlit("I32TruncF32S");
    assert("I32TruncF32S"@.len() == 12 && "I32TruncF32S"@[1] == '3' && "I32TruncF32S"@[9] == '3' && "I32TruncF32S"@[11] == 'S');
    reveal_strlit("I32TruncF32U");
    assert("I32TruncF32U"@.len() == 12 && "I32TruncF32U"@[1] == '3' && "I32TruncF32U"@[9] == '3' && "I32TruncF32U"@[11] == 'U');
    reveal_strlit("I32TruncF64S");
    assert("I32TruncF64S"@.len() == 12 && "I32TruncF64S"@[1] == '3' && "I32TruncF64S"@[9] == '6' && "I32TruncF64S"@[11] == 'S');
    reveal_strlit("I32TruncF64U");
    assert("I32TruncF64U"@.len() == 12 && "I32TruncF64U"@[1] == '3' && "I32TruncF64U"@[9] == '6' && "I32TruncF64U"@[11] == 'U');
    reveal_strlit("I64ExtendI32S");
    assert("I64ExtendI32S"@.len() == 13 && "I64ExtendI32S"@[12] == 'S');
    reveal_strlit("I64ExtendI32U");
    assert("I64ExtendI32U"@.len() == 13 && "I64ExtendI32U"@[12] == 'U');
    reveal_strlit("I64TruncF32S");
    assert("I64TruncF32S"@.len() == 12 && "I64TruncF32S"@[1] == '6' && "I64TruncF32S"@[3] == 'T' && "I64TruncF32S"@[9] == '3' && "I64TruncF32S"@[11] == 'S');
    reveal_strlit("I64TruncF32U");
    assert("I64TruncF32U"@.len() == 12 && "I64TruncF32U"@[1] == '6' && "I64TruncF32U"@[3] == 'T' && "I64TruncF32U"@[9] == '3' && "I64TruncF32U"@[11] == 'U');
    reveal_strlit("I64TruncF64S");
    assert("I64TruncF64S"@.len() == 12 && "I64TruncF64S"@[1] == '6' && "I64TruncF64S"@[3] == 'T' && "I64TruncF64S"@[9] == '6' && "I64TruncF64S"@[11] == 'S');
    reveal_strlit("I64TruncF64U");
    assert("I64TruncF64U"@.len() == 12 && "I64TruncF64U"@[1] == '6' && "I64TruncF64U"@[3] == 'T' && "I64TruncF64U"@[9] == '6' && "I64TruncF64U"@[11] == 'U');
    reveal_strlit("F32ConvertI32S");
    assert("F32ConvertI32S"@.len() == 14 && "F32ConvertI32S"@[1] == '3' && "F32ConvertI32S"@[11] == '3' && "F32ConvertI32S"@[13] == 'S');
    reveal_strlit("F32ConvertI32U");
    assert("F32ConvertI32U"@.len() == 14 && "F32ConvertI32U"@[1] == '3' && "F32ConvertI32U"@[11] == '3' && "F32ConvertI32U"@[13] == 'U');
    reveal_strlit("F32ConvertI64S");
    assert("F32ConvertI64S"@.len() == 14 && "F32ConvertI64S"@[1] == '3' && "F32ConvertI64S"@[11] == '6' && "F32ConvertI64S"@[13] == 'S');
    reveal_strlit("F32ConvertI64U");
    assert("F32ConvertI64U"@.len() == 14 && "F32ConvertI64U"@[1] == '3' && "F32ConvertI64U"@[11] == '6' && "F32ConvertI64U"@[13] == 'U');
    reveal_strlit("F32DemoteF64");
    assert("F32DemoteF64"@.len() == 12 && "F32DemoteF64"@[1] == '3' && "F32DemoteF64"@[9] == 'F');
    reveal_strlit("F64ConvertI32S");
    assert("F64ConvertI32S"@.len() == 14 && "F64ConvertI32S"@[1] == '6' && "F64ConvertI32S"@[11] == '3' && "F64ConvertI32S"@[13] == 'S');
    reveal_strlit("F64ConvertI32U");
    assert("F64ConvertI32U"@.len() == 14 && "F64ConvertI32U"@[1] == '6' && "F64ConvertI32U"@[11] == '3' && "F64ConvertI32U"@[13] == 'U');
    reveal_strlit("F64ConvertI64S");
    assert("F64ConvertI64S"@.len() == 14 && "F64ConvertI64S"@[1] == '6' && "F64ConvertI64S"@[11] == '6' && "F64ConvertI64S"@[13] == 'S');
    reveal_strlit("F64ConvertI64U");
    assert("F64ConvertI64U"@.len() == 14 && "F64ConvertI64U"@[1] == '6' && "F64ConvertI64U"@[11] == '6' && "F64ConvertI64U"@[13] == 'U');
    reveal_strlit("F64PromoteF32");
    assert("F64PromoteF32"@.len() == 13 && "F64PromoteF32"@[12] == '2');
    reveal_strlit("I32ReinterpretF32");
    assert("I32ReinterpretF32"@.len() == 17 && "I32ReinterpretF32"@[0] == 'I' && "I32ReinterpretF32"@[1] == '3');
    reveal_strlit("I64ReinterpretF64");
    assert("I64ReinterpretF64"@.len() == 17 && "I64ReinterpretF64"@[0] == 'I' && "I64ReinterpretF64"@[1] == '6');
    reveal_strlit("F32ReinterpretI32");
    assert("F32ReinterpretI32"@.len() == 17 && "F32ReinterpretI32"@[0] == 'F' && "F32ReinterpretI32"@[1] == '3');
    reveal_strlit("F64ReinterpretI64");
    assert("F64ReinterpretI64"@.len() == 17 && "F64ReinterpretI64"@[0] == 'F' && "F64ReinterpretI64"@[1] == '6');
    reveal_strlit("I32Extend8S");
    assert("I32Extend8S"@.len() == 11 && "I32Extend8S"@[0] == 'I' && "I32Extend8S"@[1] == '3');
    reveal_strlit("I32Extend16S");
    assert("I32Extend16S"@.len() == 12 && "I32Extend16S"@[1] == '3' && "I32Extend16S"@[9] == '1');
    reveal_strlit("I64Extend8S");
    assert("I64Extend8S"@.len() == 11 && "I64Extend8S"@[0] == 'I' && "I64Extend8S"@[1] == '6');
    reveal_strlit("I64Extend16S");
    assert("I64Extend16S"@.len() == 12 && "I64Extend16S"@[1] == '6' && "I64Extend16S"@[9] == '1');
    reveal_strlit("I64Extend32S");
    assert("I64Extend32S"@.len() == 12 && "I64Extend32S"@[1] == '6' && "I64Extend32S"@[3] == 'E' && "I64Extend32S"@[9] == '3');
    reveal_strlit("I32TruncSatF32S");
    assert("I32TruncSatF32S"@.len() == 15 && "I32TruncSatF32S"@[1] == '3' && "I32TruncSatF32S"@[12] == '3' && "I32TruncSatF32S"@[14] == 'S');
    reveal_strlit("I32TruncSatF32U");
    assert("I32TruncSatF32U"@.len() == 15 && "I32TruncSatF32U"@[1] == '3' && "I32TruncSatF32U"@[12] == '3' && "I32TruncSatF32U"@[14] == 'U');
    reveal_strlit("I32TruncSatF64S");
    assert("I32TruncSatF64S"@.len() == 15 && "I32TruncSatF64S"@[1] == '3' && "I32TruncSatF64S"@[12] == '6' && "I32TruncSatF64S"@[14] == 'S');
    reveal_strlit("I32TruncSatF64U");
    assert("I32TruncSatF64U"@.len() == 15 && "I32TruncSatF64U"@[1] == '3' && "I32TruncSatF64U"@[12] == '6' && "I32TruncSatF64U"@[14] == 'U');
    reveal_strlit("I64TruncSatF32S");
    assert("I64TruncSatF32S"@.len() == 15 && "I64TruncSatF32S"@[1] == '6' && "I64TruncSatF32S"@[12] == '3' && "I64TruncSatF32S"@[14] == 'S');
    reveal_strlit("I64TruncSatF32U");
    assert("I64TruncSatF32U"@.len() == 15 && "I64TruncSatF32U"@[1] == '6' && "I64TruncSatF32U"@[12] == '3' && "I64TruncSatF32U"@[14] == 'U');
    reveal_strlit("I64TruncSatF64S");
    assert("I64TruncSatF64S"@.len() == 15 && "I64TruncSatF64S"@[1] == '6' && "I64TruncSatF64S"@[12] == '6' && "I64TruncSatF64S"@[14] == 'S');
    reveal_strlit("I64TruncSatF64U");
    assert("I64TruncSatF64U"@.len() == 15 && "I64TruncSatF64U"@[1] == '6' && "I64TruncSatF64U"@[12] == '6' && "I64TruncSatF64U"@[14] == 'U');
}

/// Whatever an operator is lowered to has its name.
pub proof fn what_is_lowered_keeps_its_name(name: Seq<char>)
    ensures
        match num_op(name) {
            Some(op) => op.called() == name,
            None => true,
        },
{
}

/// No two ops share a name.
pub proof fn names_are_unique(one: NumOp, other: NumOp)
    requires
        one.called() == other.called(),
    ensures
        one == other,
{
    lowering_goes_by_the_name(one);
    lowering_goes_by_the_name(other);
}

/// A numeric op takes one operand or two, and makes one.
pub proof fn every_op_takes_one_or_two(op: NumOp)
    ensures
        1 <= op.pops().len() <= 2,
{
}

} // verus!
