//! What holds of every access that is found.

use vstd::prelude::*;
use crate::analysis::access::{
    entered, folded, followed, found_in, given, lost_in, picked, skipped, state_of, stepped,
    Abstract, Access, AddressOf, Kind, State,
};
use crate::analysis::machine::{
    below, lemma_same_address, lemma_sum, runs, runs_through, same_address, written_before, Machine,
};
use crate::module::types::{AtomicKind, Func, LoadKind, Module, Op, StoreKind};
use crate::ops::table::NumOp;

verus! {

/// What an instruction that touches memory does: how many operands it takes, of which
/// the deepest is the address; whether it reads; how many bytes it touches; and the
/// offset it carries.
pub struct Touch {
    /// Operands.
    pub operands: nat,
    /// Whether it reads.
    pub load: bool,
    /// Bytes.
    pub width: u32,
    /// Offset.
    pub offset: u64,
}

/// What an instruction does to memory at an address.
pub open spec fn touch(op: Op) -> Option<Touch> {
    match op {
        Op::Load { kind, mem } => Some(
            Touch {
                operands: 1,
                load: true,
                offset: mem.offset,
                width: match kind {
                    LoadKind::I32 => 4,
                    LoadKind::I64 => 8,
                    LoadKind::F32 => 4,
                    LoadKind::F64 => 8,
                    LoadKind::I32Load8S => 1,
                    LoadKind::I32Load8U => 1,
                    LoadKind::I32Load16S => 2,
                    LoadKind::I32Load16U => 2,
                    LoadKind::I64Load8S => 1,
                    LoadKind::I64Load8U => 1,
                    LoadKind::I64Load16S => 2,
                    LoadKind::I64Load16U => 2,
                    LoadKind::I64Load32S => 4,
                    LoadKind::I64Load32U => 4,
                },
            },
        ),
        Op::Store { kind, mem } => Some(
            Touch {
                operands: 2,
                load: false,
                offset: mem.offset,
                width: match kind {
                    StoreKind::I32 => 4,
                    StoreKind::I64 => 8,
                    StoreKind::F32 => 4,
                    StoreKind::F64 => 8,
                    StoreKind::I32Store8 => 1,
                    StoreKind::I32Store16 => 2,
                    StoreKind::I64Store8 => 1,
                    StoreKind::I64Store16 => 2,
                    StoreKind::I64Store32 => 4,
                },
            },
        ),
        Op::Atomic { op, mem } => Some(
            Touch {
                operands: match op.kind {
                    AtomicKind::Load => 1,
                    AtomicKind::Store | AtomicKind::Rmw(_) | AtomicKind::Notify => 2,
                    AtomicKind::Cmpxchg | AtomicKind::Wait => 3,
                },
                load: !(op.kind is Store),
                width: op.width,
                offset: mem.offset,
            },
        ),
        _ => None,
    }
}

// ---- what an address means ----

/// Whether what is said of a value is true of it, where a local that was given no value
/// still holds what it held on entry.
pub open spec fn true_of(
    said: Abstract,
    value: int,
    entry: Seq<int>,
    body: Seq<Op>,
    n: int,
) -> bool {
    match said {
        Abstract::Const(number) => same_address(value, number as int),
        Abstract::Local { local, displacement } => local < entry.len() && (!written_before(
            body,
            n,
            local as int,
        ) ==> same_address(value, entry[local as int] + displacement)),
        Abstract::Unknown => true,
    }
}

/// Whether all that is known at a point is true of a machine there.
pub open spec fn knows(state: State, machine: Machine, entry: Seq<int>, body: Seq<Op>, n: int) -> bool {
    &&& !state.lost
    &&& !state.unreachable
    &&& state.stack.len() == machine.stack.len()
    &&& state.locals.len() == machine.locals.len() == entry.len()
    &&& entry.len() <= 0x1_0000_0000
    &&& forall|i: int|
        0 <= i < state.stack.len() ==> true_of(
            #[trigger] state.stack[i],
            machine.stack[i],
            entry,
            body,
            n,
        )
    &&& forall|i: int|
        0 <= i < state.locals.len() ==> true_of(
            #[trigger] state.locals[i],
            machine.locals[i],
            entry,
            body,
            n,
        )
    &&& forall|i: int|
        0 <= i < entry.len() && !written_before(body, n, i) ==> #[trigger] machine.locals[i]
            == entry[i]
}

/// What was true stays true, of the same value.
proof fn lemma_stays_true(
    said: Abstract,
    value: int,
    entry: Seq<int>,
    body: Seq<Op>,
    n: int,
)
    requires
        true_of(said, value, entry, body, n),
    ensures
        true_of(said, value, entry, body, n + 1),
{
    match said {
        Abstract::Local { local, displacement } => {
            if written_before(body, n, local as int) {
                let k = choose|k: int|
                    0 <= k < n && ((#[trigger] body[k]) is LocalSet && body[k]->LocalSet_0
                        == local as int || body[k] is LocalTee && body[k]->LocalTee_0
                        == local as int);
                assert(body[k] is LocalSet || body[k] is LocalTee);
                assert(written_before(body, n + 1, local as int));
            }
        },
        _ => {},
    }
}

/// A local that was not written by the next instruction either was not written.
proof fn lemma_unwritten(body: Seq<Op>, n: int, local: int)
    requires
        !written_before(body, n + 1, local),
        0 <= n,
    ensures
        !written_before(body, n, local),
        !(body[n] is LocalSet && body[n]->LocalSet_0 == local),
        !(body[n] is LocalTee && body[n]->LocalTee_0 == local),
{
    if written_before(body, n, local) {
        let k = choose|k: int|
            0 <= k < n && ((#[trigger] body[k]) is LocalSet && body[k]->LocalSet_0 == local
                || body[k] is LocalTee && body[k]->LocalTee_0 == local);
        assert(body[k] is LocalSet || body[k] is LocalTee);
    }
    assert(body[n] == body[n]);
}

/// A sum or a difference that is folded is true of the result.
proof fn lemma_folded(
    module: &Module,
    state: State,
    before: Machine,
    after: Machine,
    num: NumOp,
    entry: Seq<int>,
    body: Seq<Op>,
    n: int,
)
    requires
        knows(state, before, entry, body, n),
        runs(module, Op::Num(num), before, after),
    ensures
        true_of(folded(state, num), below(after, 0), entry, body, n),
{
    let said = folded(state, num);
    if !(said is Unknown) {
        let len = state.stack.len() as int;
        let left = state.stack[len - 2];
        let right = state.stack[len - 1];
        let a = below(before, 1);
        let b = below(before, 0);
        assert(true_of(left, a, entry, body, n));
        assert(true_of(right, b, entry, body, n));
        let add = num == NumOp::I32Add || num == NumOp::I64Add;
        match (left, right) {
            (Abstract::Const(x), Abstract::Const(y)) => {
                lemma_wrapped(a, x as int, b, y, add, x, 0);
            },
            (Abstract::Local { local, displacement }, Abstract::Const(y)) => {
                if !written_before(body, n, local as int) {
                    let base = entry[local as int];
                    lemma_wrapped(a, base + displacement, b, y, add, displacement, base);
                }
            },
            (Abstract::Const(x), Abstract::Local { local, displacement }) => {
                if !written_before(body, n, local as int) {
                    let base = entry[local as int];
                    lemma_wrapped(b, base + displacement, a, x, true, displacement, base);
                    assert(a + b == b + a);
                }
            },
            _ => {},
        }
    }
}

/// A displacement that wraps in 64 bits is the same address.
proof fn lemma_wrapped(a: int, x: int, b: int, y: i64, add: bool, displacement: i64, base: int)
    requires
        same_address(a, x),
        same_address(b, y as int),
        x == base + displacement,
    ensures
        add ==> same_address((a + b) % 0x1_0000_0000, base + displacement.wrapping_add(y)),
        add ==> same_address(
            (a + b) % 0x1_0000_0000_0000_0000,
            base + displacement.wrapping_add(y),
        ),
        !add ==> same_address((a - b) % 0x1_0000_0000, base + displacement.wrapping_sub(y)),
        !add ==> same_address(
            (a - b) % 0x1_0000_0000_0000_0000,
            base + displacement.wrapping_sub(y),
        ),
{
    let large = 0x1_0000_0000_0000_0000int;
    if add {
        let exact = displacement + y;
        let turns: int = if exact > i64::MAX {
            -1
        } else if exact < i64::MIN {
            1
        } else {
            0
        };
        assert(displacement.wrapping_add(y) == exact + turns * large);
        lemma_sum(a, x, b, y as int, base + displacement.wrapping_add(y), turns);
    } else {
        let exact = displacement - y;
        let turns: int = if exact > i64::MAX {
            -1
        } else if exact < i64::MIN {
            1
        } else {
            0
        };
        assert(displacement.wrapping_sub(y) == exact + turns * large);
        assert(same_address(-b, -(y as int)));
        assert(a - b == a + (-b));
        lemma_sum(a, x, -b, -(y as int), base + displacement.wrapping_sub(y), turns);
    }
}

/// After an instruction that runs, what is known is true again.
#[verifier::rlimit(40)]
proof fn lemma_still_knows(
    module: &Module,
    func: Func,
    index: u32,
    state: State,
    before: Machine,
    after: Machine,
    entry: Seq<int>,
    n: int,
)
    requires
        0 <= n < func.body@.len(),
        knows(state, before, entry, func.body@, n),
        runs(module, func.body@[n], before, after),
    ensures
        knows(stepped(module, func, index, state, n), after, entry, func.body@, n + 1),
{
    let body = func.body@;
    let op = body[n];
    let next = stepped(module, func, index, state, n);
    let (takes, makes) = crate::analysis::machine::effect(module, op)->0;
    let kept = (state.stack.len() - takes) as int;
    lemma_same_address();
    assert(next.stack.len() == after.stack.len());
    assert forall|i: int| 0 <= i < kept implies #[trigger] next.stack[i] == state.stack[i]
        && after.stack[i] == before.stack[i] by {
        assert(after.stack.take(kept)[i] == before.stack.take(kept)[i]);
    }
    match op {
        Op::Num(num) => {
            lemma_folded(module, state, before, after, num, entry, body, n);
        },
        _ => {},
    }
    if op is LocalSet || op is LocalTee {
        let local = if op is LocalSet {
            op->LocalSet_0
        } else {
            op->LocalTee_0
        };
        let value = state.stack[state.stack.len() - 1];
        assert(true_of(value, below(before, 0), entry, body, n));
        assert(body[n] == op);
        assert(written_before(body, n + 1, local as int));
        assert(next.locals == given(state.locals, local, value));
        assert forall|i: int| 0 <= i < next.locals.len() implies true_of(
            #[trigger] next.locals[i],
            after.locals[i],
            entry,
            body,
            n + 1,
        ) by {
            assert(true_of(state.locals[i], before.locals[i], entry, body, n));
            lemma_stays_true(state.locals[i], before.locals[i], entry, body, n);
            lemma_stays_true(value, below(before, 0), entry, body, n);
            if i != local as int && !written_before(body, n + 1, i) {
                lemma_unwritten(body, n, i);
                assert(before.locals[i] == entry[i]);
            }
        }
        assert forall|i: int| 0 <= i < entry.len() && !written_before(body, n + 1, i) implies
            #[trigger] after.locals[i] == entry[i] by {
            lemma_unwritten(body, n, i);
            assert(before.locals[i] == entry[i]);
        }
    } else {
        assert(next.locals == state.locals);
        assert forall|i: int| 0 <= i < next.locals.len() implies true_of(
            #[trigger] next.locals[i],
            after.locals[i],
            entry,
            body,
            n + 1,
        ) by {
            lemma_stays_true(state.locals[i], before.locals[i], entry, body, n);
        }
        assert forall|i: int| 0 <= i < entry.len() && !written_before(body, n + 1, i) implies
            #[trigger] after.locals[i] == entry[i] by {
            lemma_unwritten(body, n, i);
            assert(before.locals[i] == entry[i]);
        }
    }
    assert forall|i: int| 0 <= i < next.stack.len() implies true_of(
        #[trigger] next.stack[i],
        after.stack[i],
        entry,
        body,
        n + 1,
    ) by {
        if i < kept {
            assert(true_of(state.stack[i], before.stack[i], entry, body, n));
            lemma_stays_true(state.stack[i], before.stack[i], entry, body, n);
        } else {
            match op {
                Op::LocalGet(local) => {
                    assert(true_of(
                        state.locals[local as int],
                        before.locals[local as int],
                        entry,
                        body,
                        n,
                    ));
                    lemma_stays_true(
                        state.locals[local as int],
                        before.locals[local as int],
                        entry,
                        body,
                        n,
                    );
                },
                Op::LocalTee(local) => {
                    assert(true_of(
                        next.locals[local as int],
                        after.locals[local as int],
                        entry,
                        body,
                        n + 1,
                    ));
                },
                Op::Num(num) => {
                    lemma_stays_true(folded(state, num), below(after, 0), entry, body, n);
                },
                _ => {},
            }
        }
    }
}

/// In code that runs straight through, what is known at each point is true.
proof fn lemma_knows(
    module: &Module,
    func: Func,
    index: u32,
    machines: Seq<Machine>,
    n: int,
)
    requires
        runs_through(module, func.body@, machines, n),
        machines[0].stack.len() == 0,
        machines[0].locals.len() == entered(module, func, index).locals.len(),
        machines[0].locals.len() <= 0x1_0000_0000,
    ensures
        knows(
            followed(module, func, index, n),
            machines[n],
            machines[0].locals,
            func.body@,
            n,
        ),
    decreases n,
{
    lemma_same_address();
    if n > 0 {
        lemma_knows(module, func, index, machines, n - 1);
        assert(runs(module, func.body@[n - 1], machines[n - 1], machines[n]));
        lemma_still_knows(
            module,
            func,
            index,
            followed(module, func, index, n - 1),
            machines[n - 1],
            machines[n],
            machines[0].locals,
            n - 1,
        );
    }
}

/// Whether an access is what the instruction at its position does.
pub open spec fn is_of(access: Access, func: Func, index: u32) -> bool {
    &&& 0 <= access.position < func.body@.len()
    &&& access.func == index
    &&& match touch(func.body@[access.position as int]) {
        Some(touched) => {
            &&& access.load == touched.load
            &&& access.width == touched.width
            &&& access.encoded == touched.offset
        },
        None => false,
    }
    &&& access.position < func.offsets@.len() ==> access.file_offset == Some(
        func.offsets@[access.position as int].0,
    )
    &&& access.position >= func.offsets@.len() ==> access.file_offset is None
}

/// Every access that is found is what the instruction at its position does: it reads or
/// writes as many bytes, with the offset it carries, at that place in the file. Each
/// position is found once at most, and in order.
pub proof fn every_access_is_of_its_instruction(module: &Module, func: Func, index: u32, n: int)
    requires
        0 <= n <= func.body@.len() <= usize::MAX,
    ensures
        forall|i: int|
            0 <= i < followed(module, func, index, n).found.len() ==> is_of(
                #[trigger] followed(module, func, index, n).found[i],
                func,
                index,
            ) && followed(module, func, index, n).found[i].position < n,
        forall|i: int, j: int|
            0 <= i < j < followed(module, func, index, n).found.len() ==> (
            #[trigger] followed(module, func, index, n).found[i]).position < (
            #[trigger] followed(module, func, index, n).found[j]).position,
    decreases n,
{
    if n > 0 {
        every_access_is_of_its_instruction(module, func, index, n - 1);
        let before = followed(module, func, index, n - 1);
        let after = followed(module, func, index, n);
        an_access_is_recorded_where_it_is_reached(module, func, index, before, n - 1);
        assert(forall|i: int|
            0 <= i < before.found.len() ==> after.found[i] == #[trigger] before.found[i]);
    }
}

/// An instruction that is reached is recorded exactly where it touches memory, with what is
/// known of its deepest operand as the address; one that is not reached is not recorded.
pub proof fn an_access_is_recorded_where_it_is_reached(module: &Module, func: Func, index: u32, state: State, n: int)
    requires
        0 <= n < func.body@.len() <= usize::MAX,
    ensures
        ({
            let after = stepped(module, func, index, state, n);
            match touch(func.body@[n]) {
                Some(touched) => {
                    &&& after.found.len() == state.found.len() + 1
                    &&& after.found.drop_last() == state.found
                    &&& is_of(after.found.last(), func, index)
                    &&& after.found.last().position == n
                    &&& touched.operands <= state.stack.len() ==> said_of(
                        after.found.last().address,
                        state.stack[state.stack.len() - touched.operands],
                    )
                },
                None => after.found == state.found,
            }
        }),
        skipped(state, func.body@[n]).found == state.found,
{
    let after = stepped(module, func, index, state, n);
    if touch(func.body@[n]) is Some {
        assert(after.found.drop_last() =~= state.found);
    }
}

/// Whether an address says what is known of an operand.
pub open spec fn said_of(address: AddressOf, operand: Abstract) -> bool {
    match operand {
        Abstract::Local { local, displacement } => address == (AddressOf::Local {
            local,
            displacement,
        }),
        Abstract::Const(number) => address == AddressOf::Absolute(number),
        Abstract::Unknown => address == AddressOf::Unknown,
    }
}

/// In code that runs straight through, every access that is made is found, and every
/// address that is reported is the one the instruction forms: where it is a local and a
/// displacement, it is what that local held on entry plus the displacement, unless the
/// local was given another value before; where it is a number, it is that number. This
/// is so of every run, whatever the function was called with and whatever it loads.
pub proof fn a_reported_address_is_the_one_formed(
    module: &Module,
    func: Func,
    index: u32,
    machines: Seq<Machine>,
    n: int,
    at: int,
)
    requires
        runs_through(module, func.body@, machines, n),
        func.body@.len() <= usize::MAX,
        machines[0].stack.len() == 0,
        machines[0].locals.len() == match module.signature(index) {
            Some(ty) => ty.params@.len(),
            None => 0,
        } + func.locals@.len(),
        machines[0].locals.len() <= 0x1_0000_0000,
        0 <= at < n,
        touch(func.body@[at]) is Some,
    ensures
        exists|i: int|
            0 <= i < followed(module, func, index, n).found.len() && (
            #[trigger] followed(module, func, index, n).found[i]).position == at && {
                let access = followed(module, func, index, n).found[i];
                let formed = below(machines[at], touch(func.body@[at])->0.operands - 1);
                match access.address {
                    AddressOf::Local { local, displacement } => {
                        &&& local < machines[0].locals.len()
                        &&& !written_before(func.body@, at, local as int) ==> same_address(
                            formed,
                            machines[0].locals[local as int] + displacement,
                        )
                    },
                    AddressOf::Absolute(number) => same_address(formed, number as int),
                    AddressOf::Unknown => true,
                }
            },
    decreases n,
{
    let before = followed(module, func, index, n - 1);
    let after = followed(module, func, index, n);
    lemma_knows(module, func, index, machines, n - 1);
    an_access_is_recorded_where_it_is_reached(module, func, index, before, n - 1);
    assert(runs(module, func.body@[n - 1], machines[n - 1], machines[n]));
    if at < n - 1 {
        a_reported_address_is_the_one_formed(module, func, index, machines, n - 1, at);
        let i = choose|i: int|
            0 <= i < before.found.len() && (#[trigger] before.found[i]).position == at && {
                let access = before.found[i];
                let formed = below(machines[at], touch(func.body@[at])->0.operands - 1);
                match access.address {
                    AddressOf::Local { local, displacement } => {
                        &&& local < machines[0].locals.len()
                        &&& !written_before(func.body@, at, local as int) ==> same_address(
                            formed,
                            machines[0].locals[local as int] + displacement,
                        )
                    },
                    AddressOf::Absolute(number) => same_address(formed, number as int),
                    AddressOf::Unknown => true,
                }
            };
        assert(after.found[i] == before.found[i]) by {
            if touch(func.body@[n - 1]) is Some {
                assert(after.found.drop_last()[i] == before.found[i]);
            }
        }
    } else {
        let touched = touch(func.body@[at])->0;
        let place = before.stack.len() - touched.operands;
        assert(true_of(
            before.stack[place],
            machines[at].stack[place],
            machines[0].locals,
            func.body@,
            at,
        ));
        assert(after.found[after.found.len() - 1].position == at);
    }
}

// ---- what is followed ----

/// A local that is given no value describes itself throughout, whatever the control flow.
proof fn lemma_itself(module: &Module, func: Func, index: u32, n: int, local: int)
    requires
        0 <= n <= func.body@.len(),
        0 <= local < entered(module, func, index).locals.len(),
        local <= u32::MAX,
        !written_before(func.body@, n, local),
    ensures
        followed(module, func, index, n).locals.len() == entered(module, func, index).locals.len(),
        followed(module, func, index, n).locals[local] == (Abstract::Local {
            local: local as u32,
            displacement: 0,
        }),
    decreases n,
{
    if n > 0 {
        lemma_unwritten(func.body@, n - 1, local);
        lemma_itself(module, func, index, n - 1, local);
    }
}

/// Whether what follows at `n` is reached and track of the stack is kept.
pub open spec fn reached(module: &Module, func: Func, index: u32, n: int) -> bool {
    let state = followed(module, func, index, n);
    !state.lost && !state.unreachable
}

/// A load from `local.get p; i32.const k; i32.add` is reported at what the local held on
/// entry plus `k`, and one from `i32.sub` in its place at what it held less `k`, wherever
/// in the function it is reached, unless the local was given a value before. One straight
/// from the local is reported at displacement zero.
pub proof fn a_displaced_base_is_followed(
    module: &Module,
    func: Func,
    index: u32,
    n: int,
    p: u32,
    k: i32,
)
    requires
        0 <= n,
        n + 3 < func.body@.len() <= usize::MAX,
        p < entered(module, func, index).locals.len(),
        !written_before(func.body@, n, p as int),
        reached(module, func, index, n),
        func.body@[n] == Op::LocalGet(p),
    ensures
        func.body@[n + 1] is Load ==> followed(module, func, index, n + 2).found.last().position
            == n + 1 && followed(module, func, index, n + 2).found.last().address
            == (AddressOf::Local { local: p, displacement: 0 }),
        func.body@[n + 1] == Op::I32Const(k) && func.body@[n + 2] == Op::Num(NumOp::I32Add)
            && func.body@[n + 3] is Load ==> followed(
            module,
            func,
            index,
            n + 4,
        ).found.last().position == n + 3 && followed(
            module,
            func,
            index,
            n + 4,
        ).found.last().address == (AddressOf::Local { local: p, displacement: k as i64 }),
        func.body@[n + 1] == Op::I32Const(k) && func.body@[n + 2] == Op::Num(NumOp::I32Sub)
            && func.body@[n + 3] is Load ==> followed(
            module,
            func,
            index,
            n + 4,
        ).found.last().position == n + 3 && followed(
            module,
            func,
            index,
            n + 4,
        ).found.last().address == (AddressOf::Local { local: p, displacement: (-k) as i64 }),
{
    lemma_itself(module, func, index, n, p as int);
    let s0 = followed(module, func, index, n);
    let s1 = followed(module, func, index, n + 1);
    assert(s1.stack.last() == s0.locals[p as int]);
    an_access_is_recorded_where_it_is_reached(module, func, index, s1, n + 1);
    let s2 = followed(module, func, index, n + 2);
    if func.body@[n + 1] == Op::I32Const(k) && (func.body@[n + 2] == Op::Num(NumOp::I32Add)
        || func.body@[n + 2] == Op::Num(NumOp::I32Sub)) {
        assert(s2.stack == s1.stack.push(Abstract::Const(k as i64)));
        let s3 = followed(module, func, index, n + 3);
        assert(NumOp::I32Add.pops().len() == 2);
        assert(NumOp::I32Sub.pops().len() == 2);
        assert(s3.stack.last() == folded(s2, func.body@[n + 2]->Num_0));
        an_access_is_recorded_where_it_is_reached(module, func, index, s3, n + 3);
    }
}

/// A local keeps what it was given, and hands it on: what `local.set q` takes off the
/// stack is what `local.get q` puts on it directly after, unless it describes `q` itself
/// or nothing is known of it; then it describes `q`.
pub proof fn what_a_local_is_given_it_hands_on(
    module: &Module,
    func: Func,
    index: u32,
    n: int,
    q: u32,
)
    requires
        0 <= n,
        n + 1 < func.body@.len(),
        q < followed(module, func, index, n).locals.len(),
        reached(module, func, index, n),
        followed(module, func, index, n).stack.len() > 0,
        func.body@[n] == Op::LocalSet(q),
        func.body@[n + 1] == Op::LocalGet(q),
    ensures
        ({
            let before = followed(module, func, index, n).stack;
            let after = followed(module, func, index, n + 2).stack;
            let given = before.last();
            &&& after.len() == before.len()
            &&& after.drop_last() == before.drop_last()
            &&& match given {
                Abstract::Const(_) => after.last() == given,
                Abstract::Local { local, displacement } => if local == q {
                    after.last() == (Abstract::Local { local: q, displacement: 0 })
                } else {
                    after.last() == given
                },
                Abstract::Unknown => after.last() == (Abstract::Local {
                    local: q,
                    displacement: 0,
                }),
            }
        }),
{
    let s0 = followed(module, func, index, n);
    let s1 = followed(module, func, index, n + 1);
    let s2 = followed(module, func, index, n + 2);
    assert(s2.stack.drop_last() =~= s0.stack.drop_last());
}

/// What is known of operands is kept as far as it goes: a local pushes what is known of it,
/// a constant itself, and a sum or a difference with a constant stays as displaced as it
/// says; what is under the operands of an instruction is as it was.
pub proof fn what_is_known_is_kept(
    module: &Module,
    func: Func,
    index: u32,
    state: State,
    n: int,
)
    requires
        0 <= n < func.body@.len(),
    ensures
        ({
            let before = state.stack;
            let after = stepped(module, func, index, state, n).stack;
            let locals = stepped(module, func, index, state, n).locals;
            let len = before.len() as int;
            match func.body@[n] {
                Op::LocalGet(local) => local < state.locals.len() ==> after == before.push(
                    state.locals[local as int],
                ),
                Op::I32Const(value) => after == before.push(Abstract::Const(value as i64)),
                Op::I64Const(value) => after == before.push(Abstract::Const(value)),
                Op::LocalTee(local) => len > 0 && local < state.locals.len() ==> after
                    == before.drop_last().push(locals[local as int]) && match before.last() {
                    Abstract::Const(_) => locals[local as int] == before.last(),
                    Abstract::Local { local: of, .. } => of != local ==> locals[local as int]
                        == before.last(),
                    Abstract::Unknown => locals[local as int] == (Abstract::Local {
                        local,
                        displacement: 0,
                    }),
                },
                Op::Num(num) => len >= 2 && (num == NumOp::I32Add || num == NumOp::I64Add || num
                    == NumOp::I32Sub || num == NumOp::I64Sub) ==> {
                    let add = num == NumOp::I32Add || num == NumOp::I64Add;
                    &&& after.len() == len - 1
                    &&& after.drop_last() == before.take(len - 2)
                    &&& match (before[len - 2], before[len - 1]) {
                        (
                            Abstract::Local { local, displacement },
                            Abstract::Const(k),
                        ) => after.last() == (Abstract::Local {
                            local,
                            displacement: if add {
                                displacement.wrapping_add(k)
                            } else {
                                displacement.wrapping_sub(k)
                            },
                        }),
                        (
                            Abstract::Const(k),
                            Abstract::Local { local, displacement },
                        ) => if add {
                            after.last() == (Abstract::Local {
                                local,
                                displacement: displacement.wrapping_add(k),
                            })
                        } else {
                            after.last() is Unknown
                        },
                        (Abstract::Const(a), Abstract::Const(b)) => after.last()
                            == Abstract::Const(
                            if add {
                                a.wrapping_add(b)
                            } else {
                                a.wrapping_sub(b)
                            },
                        ),
                        _ => after.last() is Unknown,
                    }
                },
                _ => true,
            }
        }),
{
    let before = state.stack;
    let after = stepped(module, func, index, state, n).stack;
    match func.body@[n] {
        Op::LocalTee(local) => {
            if before.len() > 0 && local < state.locals.len() {
                assert(before.take(before.len() - 1) =~= before.drop_last());
            }
        },
        Op::Num(num) => {
            if before.len() >= 2 && num.pops().len() == 2 {
                assert(after.drop_last() =~= before.take(before.len() - 2));
            }
        },
        _ => {},
    }
}

// ---- what is forgotten ----

/// A local that is given a value makes stale what others said in its terms: they
/// describe themselves from then on. Every other local is as it was.
pub proof fn what_was_said_of_an_old_value_is_forgotten(
    module: &Module,
    func: Func,
    index: u32,
    state: State,
    n: int,
    q: u32,
    other: int,
)
    requires
        0 <= n < func.body@.len(),
        func.body@[n] == Op::LocalSet(q) || func.body@[n] == Op::LocalTee(q),
        0 <= other < state.locals.len(),
        other != q,
        other <= u32::MAX,
    ensures
        ({
            let after = stepped(module, func, index, state, n).locals;
            &&& after.len() == state.locals.len()
            &&& match state.locals[other] {
                Abstract::Local { local, .. } => if local == q {
                    after[other] == (Abstract::Local { local: other as u32, displacement: 0 })
                } else {
                    after[other] == state.locals[other]
                },
                _ => after[other] == state.locals[other],
            }
        }),
{
}

/// What is known of locals does not outlive the region they were written in: after its
/// `end`, and in the second arm of an `if`, each of them describes itself, and every
/// other local is as it was. A write is remembered by the innermost region.
pub proof fn what_one_path_wrote_is_forgotten_on_the_other(
    module: &Module,
    func: Func,
    index: u32,
    state: State,
    n: int,
    local: int,
)
    requires
        0 <= n < func.body@.len(),
        state.regions.len() > 0,
        0 <= local < state.locals.len(),
        local <= u32::MAX,
    ensures
        ({
            let after = stepped(module, func, index, state, n);
            let wrote = exists|k: int|
                0 <= k < state.regions.last().written.len() && #[trigger]
                    state.regions.last().written[k] == local;
            &&& func.body@[n] is End || func.body@[n] is Else ==> after.locals.len()
                == state.locals.len() && if wrote {
                after.locals[local] == (Abstract::Local { local: local as u32, displacement: 0 })
            } else {
                after.locals[local] == state.locals[local]
            }
            &&& func.body@[n] == Op::LocalSet(local as u32) || func.body@[n] == Op::LocalTee(
                local as u32,
            ) ==> after.regions.last().written.contains(local as u32)
        }),
{
    let after = stepped(module, func, index, state, n);
    if func.body@[n] == Op::LocalSet(local as u32) || func.body@[n] == Op::LocalTee(
        local as u32,
    ) {
        let written = after.regions.last().written;
        assert(written[written.len() - 1] == local as u32);
    }
}

/// Nothing that is known of a local survives into a loop: its body may be entered again
/// with other values.
pub proof fn nothing_is_carried_into_a_loop(
    module: &Module,
    func: Func,
    index: u32,
    state: State,
    n: int,
    local: int,
)
    requires
        0 <= n < func.body@.len(),
        func.body@[n] is Loop,
        0 <= local < state.locals.len(),
        local <= u32::MAX,
    ensures
        stepped(module, func, index, state, n).locals[local] == (Abstract::Local {
            local: local as u32,
            displacement: 0,
        }),
{
}

/// Code after a branch, a return or a trap is not reached until the `else` or `end` of
/// the region it is in; nothing in between is recorded, and regions inside it are passed
/// over whole.
pub proof fn code_after_a_branch_is_passed_over(
    module: &Module,
    func: Func,
    index: u32,
    state: State,
    n: int,
)
    requires
        0 <= n < func.body@.len(),
    ensures
        ({
            let op = func.body@[n];
            let after = stepped(module, func, index, state, n);
            let past = skipped(state, op);
            &&& op is Br || op is BrTable || op is Return || op is Unreachable
                ==> after.unreachable && after.skip == 0 && after.regions == state.regions
            &&& op is BrIf || op is Call || op is Load ==> after.unreachable
                == state.unreachable
            &&& past.found == state.found
            &&& op is Block || op is Loop || op is If ==> past.unreachable == state.unreachable
                && past.skip == state.skip + 1
            &&& op is End && state.skip > 0 ==> past.unreachable == state.unreachable && past.skip
                == state.skip - 1
            &&& op is Else && state.skip > 0 ==> past == state
            &&& (op is End || op is Else) && state.skip == 0 ==> !past.unreachable
            &&& op is End && state.skip == 0 && state.regions.len() > 0 ==> past.regions
                == state.regions.drop_last()
            &&& op is Else && state.skip == 0 ==> past.regions == state.regions
            &&& op is LocalSet || op is LocalTee || op is LocalGet || op is Load || op is Store
                ==> past == state
        }),
{
}

/// A region leaves the stack as high as it was when it opened, less what it takes, with
/// as many values on top as it makes, of which nothing is known.
pub proof fn a_region_leaves_its_results(
    module: &Module,
    func: Func,
    index: u32,
    state: State,
    n: int,
)
    requires
        0 <= n < func.body@.len(),
        func.body@[n] is End,
        state.regions.len() > 0,
        state.regions.last().height <= state.stack.len(),
    ensures
        ({
            let region = state.regions.last();
            let after = stepped(module, func, index, state, n);
            &&& after.stack.len() == region.height + region.results
            &&& after.stack.take(region.height as int) == state.stack.take(region.height as int)
            &&& forall|i: int|
                region.height <= i < after.stack.len() ==> (#[trigger] after.stack[i]) is Unknown
            &&& after.regions == state.regions.drop_last()
        }),
{
    let region = state.regions.last();
    let after = stepped(module, func, index, state, n);
    assert(after.stack.take(region.height as int) =~= state.stack.take(region.height as int));
}

// ---- what is asked for ----

/// Whether an access is what a question asks for: of the kind and the width, and either
/// with the offset that the instruction carries or, counting what was added to the base,
/// at the offset from it.
pub open spec fn asked_for(
    access: Access,
    offset: i64,
    width: Option<u32>,
    kind: Kind,
    exact: bool,
) -> bool {
    let carried = access.encoded as i64;
    &&& kind == Kind::Store ==> !access.load
    &&& kind == Kind::Load ==> access.load
    &&& width is Some ==> access.width == width->0
    &&& exact || access.address is Unknown ==> carried == offset
    &&& !exact && access.address is Local ==> (access.address->displacement).wrapping_add(carried)
        == offset
    &&& !exact && access.address is Absolute ==> (access.address->Absolute_0).wrapping_add(carried)
        == offset
}

/// A search finds an access exactly where a function that is defined here makes it and it
/// is asked for.
pub proof fn a_search_finds_what_is_asked_for(
    module: &Module,
    offset: i64,
    width: Option<u32>,
    kind: Kind,
    exact: bool,
    access: Access,
)
    ensures
        found_in(module, module.funcs@.len() as int, offset, width, kind, exact).contains(access)
            == exists|f: int|
            0 <= f < module.funcs@.len() && (#[trigger] state_of(module, f)).found.contains(access)
                && asked_for(access, offset, width, kind, exact),
{
    lemma_found_in(module, module.funcs@.len() as int, offset, width, kind, exact, access);
}

proof fn lemma_picked(
    accesses: Seq<Access>,
    offset: i64,
    width: Option<u32>,
    kind: Kind,
    exact: bool,
    access: Access,
)
    ensures
        picked(accesses, offset, width, kind, exact).contains(access) == (accesses.contains(access)
            && asked_for(access, offset, width, kind, exact)),
    decreases accesses.len(),
{
    let out = picked(accesses, offset, width, kind, exact);
    if accesses.len() > 0 {
        let less = accesses.drop_last();
        let before = picked(less, offset, width, kind, exact);
        let last = accesses.last();
        lemma_picked(less, offset, width, kind, exact, access);
        assert(accesses[accesses.len() - 1] == last);
        if before.contains(access) {
            let i = choose|i: int| 0 <= i < before.len() && before[i] == access;
            assert(out[i] == access);
        }
        if less.contains(access) {
            let i = choose|i: int| 0 <= i < less.len() && less[i] == access;
            assert(accesses[i] == access);
        }
        if accesses.contains(access) && access != last {
            let i = choose|i: int| 0 <= i < accesses.len() && accesses[i] == access;
            assert(less[i] == access);
        }
        if asked_for(last, offset, width, kind, exact) {
            assert(out == before.push(last));
            assert(out[before.len() as int] == last);
            if out.contains(access) && access != last {
                let i = choose|i: int| 0 <= i < out.len() && out[i] == access;
                assert(before[i] == access);
            }
        } else {
            assert(out == before);
        }
    }
}

proof fn lemma_found_in(
    module: &Module,
    n: int,
    offset: i64,
    width: Option<u32>,
    kind: Kind,
    exact: bool,
    access: Access,
)
    requires
        0 <= n <= module.funcs@.len(),
    ensures
        found_in(module, n, offset, width, kind, exact).contains(access) == exists|f: int|
            0 <= f < n && (#[trigger] state_of(module, f)).found.contains(access) && asked_for(
                access,
                offset,
                width,
                kind,
                exact,
            ),
    decreases n,
{
    let out = found_in(module, n, offset, width, kind, exact);
    if n > 0 {
        let before = found_in(module, n - 1, offset, width, kind, exact);
        let here = picked(state_of(module, n - 1).found, offset, width, kind, exact);
        lemma_found_in(module, n - 1, offset, width, kind, exact, access);
        lemma_picked(state_of(module, n - 1).found, offset, width, kind, exact, access);
        if before.contains(access) {
            let i = choose|i: int| 0 <= i < before.len() && before[i] == access;
            assert(out[i] == access);
        }
        if here.contains(access) {
            let i = choose|i: int| 0 <= i < here.len() && here[i] == access;
            assert(out[before.len() + i] == access);
            assert(state_of(module, n - 1).found.contains(access));
        }
        if out.contains(access) {
            let i = choose|i: int| 0 <= i < out.len() && out[i] == access;
            if i < before.len() {
                assert(before[i] == access);
            } else {
                assert(here[i - before.len()] == access);
            }
        }
    }
}

/// A function is reported as lost exactly where track of its stack was lost.
pub proof fn a_lost_function_is_reported(module: &Module, n: int, f: int)
    requires
        0 <= f < n <= module.funcs@.len(),
        module.func_imports@.len() + module.funcs@.len() <= u32::MAX,
    ensures
        lost_in(module, n).contains((module.func_imports@.len() + f) as u32) == state_of(
            module,
            f,
        ).lost,
    decreases n,
{
    let out = lost_in(module, n);
    let index = (module.func_imports@.len() + f) as u32;
    lemma_lost_below(module, n - 1);
    if f < n - 1 {
        a_lost_function_is_reported(module, n - 1, f);
        let before = lost_in(module, n - 1);
        if before.contains(index) {
            let i = choose|i: int| 0 <= i < before.len() && before[i] == index;
            assert(out[i] == index);
        }
        if out.contains(index) {
            let i = choose|i: int| 0 <= i < out.len() && out[i] == index;
            if i < before.len() {
                assert(before[i] == index);
            }
        }
    } else if state_of(module, f).lost {
        assert(out[out.len() - 1] == index);
    } else {
        assert(out == lost_in(module, n - 1));
    }
}

proof fn lemma_lost_below(module: &Module, n: int)
    requires
        0 <= n <= module.funcs@.len(),
        module.func_imports@.len() + module.funcs@.len() <= u32::MAX,
    ensures
        forall|i: int|
            0 <= i < lost_in(module, n).len() ==> #[trigger] lost_in(module, n)[i]
                < module.func_imports@.len() + n,
    decreases n,
{
    if n > 0 {
        lemma_lost_below(module, n - 1);
        let before = lost_in(module, n - 1);
        let out = lost_in(module, n);
        assert forall|i: int| 0 <= i < out.len() implies #[trigger] out[i]
            < module.func_imports@.len() + n by {
            if i < before.len() {
                assert(out[i] == before[i]);
            }
        }
    }
}

} // verus!
