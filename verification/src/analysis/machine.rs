//! What running an instruction does to operands, locals and globals.
//!
//! Values are numbers, of which only the low 32 bits are an address. What a load, a
//! call or a float operation puts on the stack may be anything.

use vstd::prelude::*;
use crate::module::types::{AtomicKind, Module, Op};
use crate::ops::table::NumOp;

verus! {

/// A function that is being run.
pub struct Machine {
    /// The operand stack.
    pub stack: Seq<int>,
    /// What each local holds, parameters first.
    pub locals: Seq<int>,
    /// What each global holds.
    pub globals: Map<u32, int>,
}

/// Whether two numbers are the same address.
pub open spec fn same_address(a: int, b: int) -> bool {
    (a - b) % 0x1_0000_0000 == 0
}

/// Whether an instruction decides what runs next.
pub open spec fn decides(op: Op) -> bool {
    match op {
        Op::Block(_)
        | Op::Loop(_)
        | Op::If(_)
        | Op::Else
        | Op::End
        | Op::Br(_)
        | Op::BrIf(_)
        | Op::BrTable { .. }
        | Op::Return
        | Op::Unreachable => true,
        _ => false,
    }
}

/// How many values an instruction takes off the stack, and how many it puts on.
pub open spec fn effect(module: &Module, op: Op) -> Option<(nat, nat)> {
    match op {
        Op::Nop | Op::DataDrop(_) | Op::AtomicFence => Some((0, 0)),
        Op::Drop | Op::GlobalSet(_) | Op::LocalSet(_) => Some((1, 0)),
        Op::LocalTee(_) => Some((1, 1)),
        Op::LocalGet(_)
        | Op::GlobalGet(_)
        | Op::I32Const(_)
        | Op::I64Const(_)
        | Op::F32Const(_)
        | Op::F64Const(_)
        | Op::MemorySize => Some((0, 1)),
        Op::Select => Some((3, 1)),
        Op::Load { .. } | Op::MemoryGrow => Some((1, 1)),
        Op::Store { .. } => Some((2, 0)),
        Op::MemoryCopy | Op::MemoryFill | Op::MemoryInit(_) => Some((3, 0)),
        Op::Atomic { op, .. } => match op.kind {
            AtomicKind::Load => Some((1, 1)),
            AtomicKind::Store => Some((2, 0)),
            AtomicKind::Rmw(_) | AtomicKind::Notify => Some((2, 1)),
            AtomicKind::Cmpxchg | AtomicKind::Wait => Some((3, 1)),
        },
        Op::Num(num) => Some((num.pops().len(), 1)),
        Op::Call(callee) => match module.signature(callee) {
            Some(ty) => Some((ty.params@.len(), ty.results@.len())),
            None => None,
        },
        Op::CallIndirect { type_index } => if type_index < module.types@.len() {
            let ty = module.types@[type_index as int];
            Some((ty.params@.len() + 1, ty.results@.len()))
        } else {
            None
        },
        _ => None,
    }
}

/// The operand `n` below the top.
pub open spec fn below(machine: Machine, n: int) -> int {
    machine.stack[machine.stack.len() - 1 - n]
}

/// Whether running an instruction that does not decide what runs next may take one
/// machine to another.
pub open spec fn runs(module: &Module, op: Op, before: Machine, after: Machine) -> bool {
    match effect(module, op) {
        None => false,
        Some((takes, makes)) => {
            let kept = before.stack.len() - takes;
            &&& takes <= before.stack.len()
            &&& after.stack.len() == kept + makes
            &&& after.stack.take(kept) == before.stack.take(kept)
            &&& match op {
                Op::LocalSet(index) | Op::LocalTee(index) => index < before.locals.len()
                    && after.locals == before.locals.update(index as int, below(before, 0)),
                _ => after.locals == before.locals,
            }
            &&& match op {
                Op::GlobalSet(index) => after.globals == before.globals.insert(
                    index,
                    below(before, 0),
                ),
                Op::Call(_) | Op::CallIndirect { .. } => true,
                _ => after.globals == before.globals,
            }
            &&& match op {
                Op::LocalGet(index) => index < before.locals.len() && below(after, 0)
                    == before.locals[index as int],
                Op::LocalTee(_) => below(after, 0) == below(before, 0),
                Op::GlobalGet(index) => before.globals.contains_key(index) && below(after, 0)
                    == before.globals[index],
                Op::I32Const(value) => below(after, 0) == value,
                Op::I64Const(value) => below(after, 0) == value,
                Op::Num(num) => match num {
                    NumOp::I32Add => below(after, 0) == (below(before, 1) + below(before, 0))
                        % 0x1_0000_0000,
                    NumOp::I32Sub => below(after, 0) == (below(before, 1) - below(before, 0))
                        % 0x1_0000_0000,
                    NumOp::I64Add => below(after, 0) == (below(before, 1) + below(before, 0))
                        % 0x1_0000_0000_0000_0000,
                    NumOp::I64Sub => below(after, 0) == (below(before, 1) - below(before, 0))
                        % 0x1_0000_0000_0000_0000,
                    _ => true,
                },
                _ => true,
            }
        },
    }
}

/// Whether machines follow each other through the first `n` instructions of a body, one
/// after the other.
pub open spec fn runs_through(module: &Module, body: Seq<Op>, machines: Seq<Machine>, n: int) -> bool {
    &&& 0 <= n <= body.len()
    &&& machines.len() > n
    &&& forall|k: int| 0 <= k < n ==> runs(module, #[trigger] body[k], machines[k], machines[k + 1])
}

/// Whether one of the first `n` instructions gives a local a value.
pub open spec fn written_before(body: Seq<Op>, n: int, local: int) -> bool {
    exists|k: int|
        0 <= k < n && ((#[trigger] body[k]) is LocalSet && body[k]->LocalSet_0 == local
            || body[k] is LocalTee && body[k]->LocalTee_0 == local)
}

/// The same address plus the same number is the same address.
pub proof fn lemma_same_address()
    ensures
        forall|a: int| #[trigger] same_address(a, a),
        forall|a: int, b: int| #[trigger] same_address(a, b) ==> same_address(b, a),
        forall|a: int, b: int, c: int|
            #![trigger same_address(a, b), same_address(b, c)]
            same_address(a, b) && same_address(b, c) ==> same_address(a, c),
{
}

/// Sums of the same addresses are the same, however far they wrap.
pub proof fn lemma_sum(a: int, x: int, b: int, y: int, wrapped: int, turns: int)
    requires
        same_address(a, x),
        same_address(b, y),
        wrapped == x + y + turns * 0x1_0000_0000_0000_0000,
    ensures
        same_address((a + b) % 0x1_0000_0000, wrapped),
        same_address((a + b) % 0x1_0000_0000_0000_0000, wrapped),
{
    let small = 0x1_0000_0000int;
    let large = 0x1_0000_0000_0000_0000int;
    assert(large == small * small);
    let p = (a - x) / small;
    let q = (b - y) / small;
    assert(a - x == small * p);
    assert(b - y == small * q);
    let s = a + b;
    assert(s == small * (s / small) + s % small);
    assert(s == large * (s / large) + s % large);
    let one = p + q - turns * small - s / small;
    assert(s % small - wrapped == small * one) by (nonlinear_arith)
        requires
            s == a + b,
            a - x == small * p,
            b - y == small * q,
            s == small * (s / small) + s % small,
            wrapped == x + y + turns * large,
            large == small * small,
            one == p + q - turns * small - s / small,
    ;
    let two = p + q - turns * small - small * (s / large);
    assert(s % large - wrapped == small * two) by (nonlinear_arith)
        requires
            s == a + b,
            a - x == small * p,
            b - y == small * q,
            s == large * (s / large) + s % large,
            wrapped == x + y + turns * large,
            large == small * small,
            two == p + q - turns * small - small * (s / large),
    ;
    assert((small * one) % small == 0) by (nonlinear_arith)
        requires
            small == 0x1_0000_0000,
    ;
    assert((small * two) % small == 0) by (nonlinear_arith)
        requires
            small == 0x1_0000_0000,
    ;
}

} // verus!
