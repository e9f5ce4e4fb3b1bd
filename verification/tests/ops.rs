//! The numeric instructions.

use unwasm_core::module::operator::Operator;
use unwasm_core::ops::{lower, render, NumOp};

fn operator(op: &wasmparser::Operator<'_>) -> Operator {
    Operator { text: format!("{op:?}") }
}

#[test]
fn render_substitutes_operands_in_order() {
    assert_eq!(
        render("rt::i32_div_s({0}, {1})", &["a".into(), "b".into()]),
        "rt::i32_div_s(a, b)"
    );
    assert_eq!(render("{0}.abs()", &["x".into()]), "x.abs()");
    // A template may use an operand more than once, and none at all.
    assert_eq!(render("({0} + {0})", &["y".into()]), "(y + y)");
    assert_eq!(render("0", &[]), "0");
}

#[test]
fn lowering_maps_the_operator_of_the_same_name() {
    assert_eq!(lower(&operator(&wasmparser::Operator::I32Add)), Some(NumOp::I32Add));
    assert_eq!(
        lower(&operator(&wasmparser::Operator::F64Copysign)),
        Some(NumOp::F64Copysign)
    );
    // Control flow is not a numeric op, and must not be silently accepted.
    assert_eq!(lower(&operator(&wasmparser::Operator::Return)), None);
    assert_eq!(lower(&operator(&wasmparser::Operator::Nop)), None);
}

#[test]
fn every_op_has_a_template_matching_its_arity() {
    for op in NumOp::all() {
        let arity = op.operands().len();
        assert!(
            (1..=2).contains(&arity),
            "{} has arity {arity}, which no numeric op has",
            op.name()
        );
        for index in 0..arity {
            assert!(
                op.template().contains(&format!("{{{index}}}")),
                "{} never uses operand {index}",
                op.name()
            );
        }
        // A placeholder past the arity would render out of bounds.
        assert!(
            !op.template().contains(&format!("{{{arity}}}")),
            "{} uses an operand it does not pop",
            op.name()
        );
    }
}

#[test]
fn names_are_unique() {
    let mut names: Vec<&str> = NumOp::all().iter().map(|op| op.name()).collect();
    let total = names.len();
    names.sort_unstable();
    names.dedup();
    assert_eq!(names.len(), total, "two ops share a name");
}

#[test]
fn unsigned_operations_cast_before_they_compute() {
    // The bug this guards is emitting a signed shift or comparison for an
    // unsigned opcode: it agrees with wasm on small numbers and disagrees
    // on every value with the high bit set.
    for op in NumOp::all() {
        if !op.name().ends_with('U') || op.name().contains("Trunc") {
            continue;
        }
        let template = op.template();
        assert!(
            template.contains("as u32")
                || template.contains("as u64")
                // `i32.div_u` and friends cast inside the runtime, which is
                // where the trap check has to live anyway.
                || template.starts_with("rt::"),
            "{} is unsigned but neither casts nor delegates",
            op.name()
        );
    }
}

#[test]
fn shifts_mask_their_count() {
    for op in NumOp::all() {
        let name = op.name();
        if name.contains("Shl") || name.contains("Shr") || name.contains("Rot") {
            let width = if name.starts_with("I32") { "31" } else { "63" };
            assert!(
                op.template().contains(width),
                "{name} does not mask its shift count"
            );
        }
    }
}

#[test]
fn anything_that_can_trap_goes_through_the_runtime() {
    for op in NumOp::all() {
        let name = op.name();
        // A float→int truncation traps on NaN and out of range. `f32.trunc`
        // also contains "Trunc" and traps at nothing: it rounds a float to a
        // float. The distinction is which type it produces.
        let float_to_int = (name.starts_with("I32Trunc") || name.starts_with("I64Trunc"))
            && !name.contains("Sat");
        // Integer division traps on zero; float division gives an infinity
        // and carries on, so `f32.div` belongs to the operator, not the
        // runtime.
        let integer = name.starts_with("I32") || name.starts_with("I64");
        let trapping =
            (integer && (name.contains("Div") || name.contains("Rem"))) || float_to_int;
        if trapping {
            assert!(
                op.template().starts_with("rt::"),
                "{name} can trap but does not call the runtime"
            );
        }
    }
}
