//! Who reads and writes an offset.

use vstd::prelude::*;
use crate::module::types::{
    AtomicKind, BlockType, Func, LoadKind, Module, Op, StoreKind, ValType,
};
use crate::ops::table::NumOp;

verus! {

/// What the address operand of an [`Access`] was known to be.
#[derive(Debug, Clone, Copy, PartialEq, Eq, Structural)]
pub enum AddressOf {
    /// `local + displacement`, where the local is a parameter or a declared local
    /// and the displacement is what the function added to it.
    ///
    /// A function handed a pointer eight bytes into a struct writes the field at
    /// +846 as +838; one that computes `base = p - 8` first writes it as +854.
    /// Neither encodes 846 anywhere.
    Local {
        /// Which local, by index, parameters first.
        local: u32,
        /// What was added to it before the instruction's own offset.
        displacement: i64,
    },
    /// A constant address: static memory rather than a field of anything.
    Absolute(i64),
    /// An address that could not be followed: a load, a call's result, arithmetic
    /// on two unknowns.
    Unknown,
}

/// One memory access at a statically-known offset.
#[derive(Debug, Clone, PartialEq, Eq)]
pub struct Access {
    /// The function that makes it.
    pub func: u32,
    /// Where in that function's body, as an index into [`Func::body`].
    pub position: usize,
    /// Where the instruction sits in the wasm file, when the decoder recorded it.
    pub file_offset: Option<u32>,
    /// Whether it reads rather than writes.
    pub load: bool,
    /// How many bytes it touches.
    pub width: u32,
    /// The offset encoded in the instruction itself.
    pub encoded: u64,
    /// What the address operand turned out to be.
    pub address: AddressOf,
}

/// The offset of an access relative to what its address is expressed against.
pub open spec fn effective_offset(access: Access) -> i64 {
    match access.address {
        AddressOf::Local { displacement, .. } => displacement.wrapping_add(access.encoded as i64),
        AddressOf::Absolute(base) => base.wrapping_add(access.encoded as i64),
        AddressOf::Unknown => access.encoded as i64,
    }
}

impl Access {
    /// The offset relative to whatever base the address is expressed against.
    ///
    /// For [`AddressOf::Local`] that is the local's value at entry, and this is the
    /// number a struct field is at. For an unknown address it is the encoded
    /// offset, which is all the instruction says. The sum is in 64 bits.
    pub fn effective(&self) -> (offset: i64)
        ensures
            offset == effective_offset(*self),
    {
        match self.address {
            AddressOf::Local { displacement, .. } => displacement.wrapping_add(
                self.encoded as i64,
            ),
            AddressOf::Absolute(base) => base.wrapping_add(self.encoded as i64),
            AddressOf::Unknown => self.encoded as i64,
        }
    }
}

/// Which accesses to collect.
#[derive(Debug, Clone, Copy, PartialEq, Eq, Structural)]
pub enum Kind {
    /// Writes only.
    Store,
    /// Reads only.
    Load,
    /// Both.
    Both,
}

impl Kind {
    /// Whether an access that reads, or one that writes, is to be collected.
    pub open spec fn takes(self, load: bool) -> bool {
        match self {
            Kind::Store => !load,
            Kind::Load => load,
            Kind::Both => true,
        }
    }

    fn wants(self, load: bool) -> (yes: bool)
        ensures
            yes == self.takes(load),
    {
        match self {
            Kind::Store => !load,
            Kind::Load => load,
            Kind::Both => true,
        }
    }
}

/// What [`accesses_at`] found, and where it could not look.
#[derive(Debug, Clone, PartialEq, Eq)]
pub struct AccessReport {
    /// The matching accesses.
    pub found: Vec<Access>,
    /// Functions whose operand stack the walk lost track of, after which nothing
    /// more was recorded for them.
    pub lost: Vec<u32>,
}

impl Default for AccessReport {
    /// A report that found nothing.
    fn default() -> (report: Self)
        ensures
            report.found@ == Seq::<Access>::empty(),
            report.lost@ == Seq::<u32>::empty(),
    {
        AccessReport { found: Vec::new(), lost: Vec::new() }
    }
}

/// A value on the abstract operand stack.
#[derive(Debug, Clone, Copy, PartialEq, Eq, Structural)]
pub enum Abstract {
    /// A known number.
    Const(i64),
    /// `local + displacement`.
    Local {
        /// Which local.
        local: u32,
        /// What was added to it.
        displacement: i64,
    },
    /// Anything else.
    Unknown,
}

/// One open control-flow region, as plain values.
pub struct RegionModel {
    /// The operand stack height its body starts at.
    pub height: nat,
    /// How many values it leaves behind.
    pub results: nat,
    /// Locals written inside it.
    pub written: Seq<u32>,
}

/// What is known at a point of a body.
pub struct State {
    /// The operand stack.
    pub stack: Seq<Abstract>,
    /// What each local holds.
    pub locals: Seq<Abstract>,
    /// The open regions.
    pub regions: Seq<RegionModel>,
    /// Whether the code here cannot be reached.
    pub unreachable: bool,
    /// How many regions were opened where the code cannot be reached.
    pub skip: nat,
    /// Whether the stack was lost track of.
    pub lost: bool,
    /// The accesses so far.
    pub found: Seq<Access>,
}

/// A local as itself.
pub open spec fn itself(local: int) -> Abstract {
    Abstract::Local { local: local as u32, displacement: 0 }
}

/// With the top `n` operands taken off. Where there are fewer, track is lost.
pub open spec fn popped(state: State, n: nat) -> State {
    if n <= state.stack.len() {
        State { stack: state.stack.take(state.stack.len() - n), ..state }
    } else {
        State { stack: Seq::empty(), lost: true, ..state }
    }
}

/// The operand `n` below the top.
pub open spec fn operand(state: State, n: int) -> Abstract {
    if n < state.stack.len() {
        state.stack[state.stack.len() - 1 - n]
    } else {
        Abstract::Unknown
    }
}

/// With an operand put on.
pub open spec fn pushed(state: State, value: Abstract) -> State {
    State { stack: state.stack.push(value), ..state }
}

/// With `n` operands put on of which nothing is known.
pub open spec fn pushed_unknown(state: State, n: nat) -> State {
    State { stack: state.stack + Seq::new(n, |i: int| Abstract::Unknown), ..state }
}

/// With the operand stack no higher than this.
pub open spec fn lowered(state: State, height: nat) -> State {
    if height < state.stack.len() {
        State { stack: state.stack.take(height as int), ..state }
    } else {
        state
    }
}

/// Whether a local is among those written.
pub open spec fn among(written: Seq<u32>, local: int) -> bool {
    exists|k: int| 0 <= k < written.len() && #[trigger] written[k] == local
}

/// Locals of which the written ones are only known to be themselves: a value that
/// was only assigned on one path is not the value on the other.
pub open spec fn forgotten(locals: Seq<Abstract>, written: Seq<u32>) -> Seq<Abstract> {
    Seq::new(
        locals.len(),
        |i: int|
            if among(written, i) {
                itself(i)
            } else {
                locals[i]
            },
    )
}

/// How many values a block type takes and leaves.
pub open spec fn arity(module: &Module, ty: BlockType) -> (nat, nat) {
    match ty {
        BlockType::Empty => (0, 0),
        BlockType::Value(_) => (0, 1),
        BlockType::Func(index) => type_arity(module, index),
    }
}

/// How many values a type takes and leaves.
pub open spec fn type_arity(module: &Module, index: u32) -> (nat, nat) {
    if index < module.types@.len() {
        (module.types@[index as int].params@.len(), module.types@[index as int].results@.len())
    } else {
        (0, 0)
    }
}

/// How many values a function takes and leaves.
pub open spec fn call_arity(module: &Module, callee: u32) -> (nat, nat) {
    match module.signature(callee) {
        Some(ty) => (ty.params@.len(), ty.results@.len()),
        None => (0, 0),
    }
}

/// With a region opened.
pub open spec fn opened(module: &Module, state: State, ty: BlockType) -> State {
    let (params, results) = arity(module, ty);
    let height = if params <= state.stack.len() {
        (state.stack.len() - params) as nat
    } else {
        0
    };
    State {
        regions: state.regions.push(RegionModel { height, results, written: Seq::empty() }),
        ..state
    }
}

/// With the innermost region closed: what its assignments said is forgotten, and
/// the stack is back at its height with its results on top.
pub open spec fn closed_region(state: State) -> State {
    if state.regions.len() == 0 {
        State { lost: true, ..state }
    } else {
        let region = state.regions.last();
        pushed_unknown(
            lowered(
                State {
                    regions: state.regions.drop_last(),
                    locals: forgotten(state.locals, region.written),
                    ..state
                },
                region.height,
            ),
            region.results,
        )
    }
}

/// With the second arm of the innermost region begun.
pub open spec fn turned(state: State) -> State {
    let region = state.regions.last();
    lowered(
        State { locals: forgotten(state.locals, region.written), ..state },
        region.height,
    )
}

/// Where the code cannot be reached.
pub open spec fn cut(state: State) -> State {
    State { unreachable: true, skip: 0, ..state }
}

/// What the locals hold once one has been given a value. What described itself in
/// terms of that local described the old value, and describes only itself now.
pub open spec fn given(locals: Seq<Abstract>, index: u32, value: Abstract) -> Seq<Abstract> {
    Seq::new(
        locals.len(),
        |i: int|
            if i == index as int {
                match value {
                    Abstract::Local { local, .. } => if local == index {
                        itself(i)
                    } else {
                        value
                    },
                    Abstract::Unknown => itself(i),
                    Abstract::Const(_) => value,
                }
            } else if i as u32 != index && locals[i] is Local && locals[i]->local == index {
                itself(i)
            } else {
                locals[i]
            },
    )
}

/// With a local given a value.
pub open spec fn assigned(state: State, index: u32, value: Abstract) -> State {
    let regions = if state.regions.len() > 0 {
        let last = state.regions.last();
        state.regions.drop_last().push(
            RegionModel { written: last.written.push(index), ..last },
        )
    } else {
        state.regions
    };
    State { regions, locals: given(state.locals, index, value), ..state }
}

/// What a local holds.
pub open spec fn held(state: State, index: u32) -> Abstract {
    if index < state.locals.len() {
        state.locals[index as int]
    } else {
        Abstract::Unknown
    }
}

/// What an operand says of an address.
pub open spec fn address_of(value: Abstract) -> AddressOf {
    match value {
        Abstract::Local { local, displacement } => AddressOf::Local { local, displacement },
        Abstract::Const(value) => AddressOf::Absolute(value),
        Abstract::Unknown => AddressOf::Unknown,
    }
}

/// With an access recorded.
pub open spec fn recorded(
    func: Func,
    index: u32,
    state: State,
    position: int,
    load: bool,
    width: u32,
    encoded: u64,
    address: Abstract,
) -> State {
    let access = Access {
        func: index,
        position: position as usize,
        file_offset: if position < func.offsets@.len() {
            Some(func.offsets@[position].0)
        } else {
            None
        },
        load,
        width,
        encoded,
        address: address_of(address),
    };
    State { found: state.found.push(access), ..state }
}

/// How many bytes a load reads.
pub open spec fn loaded_bytes(kind: LoadKind) -> u32 {
    match kind {
        LoadKind::I32Load8S | LoadKind::I32Load8U | LoadKind::I64Load8S | LoadKind::I64Load8U => 1,
        LoadKind::I32Load16S
        | LoadKind::I32Load16U
        | LoadKind::I64Load16S
        | LoadKind::I64Load16U => 2,
        LoadKind::I32 | LoadKind::F32 | LoadKind::I64Load32S | LoadKind::I64Load32U => 4,
        LoadKind::I64 | LoadKind::F64 => 8,
    }
}

/// How many bytes a store writes.
pub open spec fn stored_bytes(kind: StoreKind) -> u32 {
    match kind {
        StoreKind::I32Store8 | StoreKind::I64Store8 => 1,
        StoreKind::I32Store16 | StoreKind::I64Store16 => 2,
        StoreKind::I32 | StoreKind::F32 | StoreKind::I64Store32 => 4,
        StoreKind::I64 | StoreKind::F64 => 8,
    }
}

/// How many operands an atomic takes and leaves.
pub open spec fn atomic_arity(kind: AtomicKind) -> (nat, nat) {
    match kind {
        AtomicKind::Load => (1, 1),
        AtomicKind::Store => (2, 0),
        AtomicKind::Rmw(_) => (2, 1),
        AtomicKind::Cmpxchg => (3, 1),
        AtomicKind::Notify => (2, 1),
        AtomicKind::Wait => (3, 1),
    }
}

/// What a numeric operation makes of its operands: `a + k` and `a - k`, which is
/// all a base displacement is made of.
pub open spec fn folded(state: State, num: NumOp) -> Abstract {
    if num.pops().len() != 2 || state.stack.len() < 2 {
        Abstract::Unknown
    } else {
        let left = operand(state, 1);
        let right = operand(state, 0);
        match num {
            NumOp::I32Add | NumOp::I64Add => match (left, right) {
                (Abstract::Const(a), Abstract::Const(b)) => Abstract::Const(a.wrapping_add(b)),
                (Abstract::Local { local, displacement }, Abstract::Const(b)) => Abstract::Local {
                    local,
                    displacement: displacement.wrapping_add(b),
                },
                (Abstract::Const(b), Abstract::Local { local, displacement }) => Abstract::Local {
                    local,
                    displacement: displacement.wrapping_add(b),
                },
                _ => Abstract::Unknown,
            },
            NumOp::I32Sub | NumOp::I64Sub => match (left, right) {
                (Abstract::Const(a), Abstract::Const(b)) => Abstract::Const(a.wrapping_sub(b)),
                (Abstract::Local { local, displacement }, Abstract::Const(b)) => Abstract::Local {
                    local,
                    displacement: displacement.wrapping_sub(b),
                },
                _ => Abstract::Unknown,
            },
            _ => Abstract::Unknown,
        }
    }
}

/// With `params` operands taken off and `results` put on.
pub open spec fn called(state: State, arity: (nat, nat)) -> State {
    pushed_unknown(popped(state, arity.0), arity.1)
}

/// After an instruction that is reached.
pub open spec fn stepped(
    module: &Module,
    func: Func,
    index: u32,
    state: State,
    position: int,
) -> State {
    match func.body@[position] {
        Op::Unreachable | Op::Br(_) | Op::BrTable { .. } | Op::Return => cut(state),
        Op::Nop | Op::DataDrop(_) | Op::AtomicFence => state,
        Op::Block(ty) => opened(module, state, ty),
        Op::Loop(ty) => opened(
            module,
            State { locals: Seq::new(state.locals.len(), |i: int| itself(i)), ..state },
            ty,
        ),
        Op::If(ty) => opened(module, popped(state, 1), ty),
        Op::Else => if state.regions.len() == 0 {
            State { lost: true, ..state }
        } else {
            turned(state)
        },
        Op::End => if state.regions.len() == 0 {
            state
        } else {
            closed_region(state)
        },
        Op::BrIf(_) | Op::Drop | Op::GlobalSet(_) => popped(state, 1),
        Op::Call(callee) => called(state, call_arity(module, callee)),
        Op::CallIndirect { type_index } => called(
            popped(state, 1),
            type_arity(module, type_index),
        ),
        Op::Select => pushed(popped(state, 3), Abstract::Unknown),
        Op::LocalGet(local) => pushed(state, held(state, local)),
        Op::LocalSet(local) => assigned(popped(state, 1), local, operand(state, 0)),
        Op::LocalTee(local) => {
            let after = assigned(popped(state, 1), local, operand(state, 0));
            pushed(after, held(after, local))
        },
        Op::GlobalGet(_) | Op::F32Const(_) | Op::F64Const(_) | Op::MemorySize => pushed(
            state,
            Abstract::Unknown,
        ),
        Op::I32Const(value) => pushed(state, Abstract::Const(value as i64)),
        Op::I64Const(value) => pushed(state, Abstract::Const(value)),
        Op::Load { kind, mem } => pushed(
            recorded(
                func,
                index,
                popped(state, 1),
                position,
                true,
                loaded_bytes(kind),
                mem.offset,
                operand(state, 0),
            ),
            Abstract::Unknown,
        ),
        Op::Store { kind, mem } => recorded(
            func,
            index,
            popped(state, 2),
            position,
            false,
            stored_bytes(kind),
            mem.offset,
            operand(state, 1),
        ),
        Op::MemoryGrow => pushed(popped(state, 1), Abstract::Unknown),
        Op::MemoryCopy | Op::MemoryFill | Op::MemoryInit(_) => popped(state, 3),
        Op::Atomic { op, mem } => {
            let (pops, pushes) = atomic_arity(op.kind);
            pushed_unknown(
                recorded(
                    func,
                    index,
                    popped(state, pops),
                    position,
                    op.kind != AtomicKind::Store,
                    op.width,
                    mem.offset,
                    operand(state, pops - 1),
                ),
                pushes,
            )
        },
        Op::Num(num) => pushed(popped(state, num.pops().len()), folded(state, num)),
    }
}

/// After an instruction that is not reached: only the nesting matters.
pub open spec fn skipped(state: State, op: Op) -> State {
    match op {
        Op::Block(_) | Op::Loop(_) | Op::If(_) => State { skip: state.skip + 1, ..state },
        Op::Else => if state.skip > 0 {
            state
        } else if state.regions.len() > 0 {
            State { unreachable: false, ..turned(state) }
        } else {
            State { unreachable: false, ..state }
        },
        Op::End => if state.skip > 0 {
            State { skip: (state.skip - 1) as nat, ..state }
        } else {
            closed_region(State { unreachable: false, ..state })
        },
        _ => state,
    }
}

/// What is known on entry: every local is itself, which is true of a parameter and
/// of a declared local's zero.
pub open spec fn entered(module: &Module, func: Func, index: u32) -> State {
    State {
        stack: Seq::empty(),
        locals: Seq::new(
            call_arity(module, index).0 + func.locals@.len(),
            |i: int| itself(i),
        ),
        regions: Seq::empty(),
        unreachable: false,
        skip: 0,
        lost: false,
        found: Seq::empty(),
    }
}

/// What is known after the first `n` instructions of a body. Once track is lost
/// nothing more is followed.
pub open spec fn followed(module: &Module, func: Func, index: u32, n: int) -> State
    decreases n,
{
    if n <= 0 {
        entered(module, func, index)
    } else {
        let before = followed(module, func, index, n - 1);
        if before.lost {
            before
        } else if before.unreachable {
            skipped(before, func.body@[n - 1])
        } else {
            stepped(module, func, index, before, n - 1)
        }
    }
}

/// What is known after a whole body.
pub open spec fn followed_to_the_end(module: &Module, func: Func, index: u32) -> State {
    followed(module, func, index, func.body@.len() as int)
}

/// Whether an access is one that is looked for.
pub open spec fn looked_for(
    access: Access,
    offset: i64,
    width: Option<u32>,
    kind: Kind,
    exact: bool,
) -> bool {
    &&& kind.takes(access.load)
    &&& width is None || width == Some(access.width)
    &&& if exact {
        access.encoded as i64 == offset
    } else {
        effective_offset(access) == offset
    }
}

/// The accesses that are looked for, of a list.
pub open spec fn picked(
    accesses: Seq<Access>,
    offset: i64,
    width: Option<u32>,
    kind: Kind,
    exact: bool,
) -> Seq<Access>
    decreases accesses.len(),
{
    if accesses.len() == 0 {
        Seq::empty()
    } else {
        let before = picked(accesses.drop_last(), offset, width, kind, exact);
        if looked_for(accesses.last(), offset, width, kind, exact) {
            before.push(accesses.last())
        } else {
            before
        }
    }
}

/// What is known at the end of the `n`th function defined here.
pub open spec fn state_of(module: &Module, n: int) -> State {
    followed_to_the_end(module, module.funcs@[n], (module.func_imports@.len() + n) as u32)
}

/// The accesses that are looked for in the first `n` functions.
pub open spec fn found_in(
    module: &Module,
    n: int,
    offset: i64,
    width: Option<u32>,
    kind: Kind,
    exact: bool,
) -> Seq<Access>
    decreases n,
{
    if n <= 0 {
        Seq::empty()
    } else {
        found_in(module, n - 1, offset, width, kind, exact) + picked(
            state_of(module, n - 1).found,
            offset,
            width,
            kind,
            exact,
        )
    }
}

/// The functions, of the first `n`, that track was lost of.
pub open spec fn lost_in(module: &Module, n: int) -> Seq<u32>
    decreases n,
{
    if n <= 0 {
        Seq::empty()
    } else if state_of(module, n - 1).lost {
        lost_in(module, n - 1).push((module.func_imports@.len() + n - 1) as u32)
    } else {
        lost_in(module, n - 1)
    }
}

// ---- the walk ----

/// One open control-flow region.
struct Region {
    height: usize,
    results: usize,
    written: Vec<u32>,
}

spec fn region_of(region: Region) -> RegionModel {
    RegionModel {
        height: region.height as nat,
        results: region.results as nat,
        written: region.written@,
    }
}

/// Walks a function's body, following what each address operand is made of.
struct Walk {
    stack: Vec<Abstract>,
    locals: Vec<Abstract>,
    regions: Vec<Region>,
    unreachable: bool,
    skip: usize,
    lost: bool,
    found: Vec<Access>,
}

impl View for Walk {
    type V = State;

    closed spec fn view(&self) -> State {
        State {
            stack: self.stack@,
            locals: self.locals@,
            regions: self.regions@.map_values(|region: Region| region_of(region)),
            unreachable: self.unreachable,
            skip: self.skip as nat,
            lost: self.lost,
            found: self.found@,
        }
    }
}

impl Walk {
    fn new(module: &Module, func: &Func, index: u32) -> (walk: Self)
        ensures
            walk@ == entered(module, *func, index),
    {
        let params: usize = match module.func_type(index) {
            Some(signature) => signature.params.len(),
            None => 0,
        };
        let mut locals: Vec<Abstract> = Vec::new();
        let mut i: usize = 0;
        while i < params
            invariant
                i <= params,
                locals@ == Seq::new(i as nat, |k: int| itself(k)),
            decreases params - i,
        {
            locals.push(Abstract::Local { local: locals.len() as u32, displacement: 0 });
            i = i + 1;
            assert(locals@ =~= Seq::new(i as nat, |k: int| itself(k)));
        }
        let mut i: usize = 0;
        while i < func.locals.len()
            invariant
                i <= func.locals@.len(),
                locals@ == Seq::new((params + i) as nat, |k: int| itself(k)),
            decreases func.locals@.len() - i,
        {
            locals.push(Abstract::Local { local: locals.len() as u32, displacement: 0 });
            i = i + 1;
            assert(locals@ =~= Seq::new((params + i) as nat, |k: int| itself(k)));
        }
        let walk: Walk = Walk {
            stack: Vec::new(),
            locals,
            regions: Vec::new(),
            unreachable: false,
            skip: 0,
            lost: false,
            found: Vec::new(),
        };
        assert(walk@.regions =~= Seq::empty());
        assert(walk@.locals =~= entered(module, *func, index).locals);
        walk
    }

    fn pop(&mut self) -> (value: Abstract)
        ensures
            final(self)@ == popped(old(self)@, 1),
            value == operand(old(self)@, 0),
    {
        match self.stack.pop() {
            Some(value) => {
                assert(self@.stack =~= old(self)@.stack.take(old(self)@.stack.len() - 1));
                value
            },
            None => {
                self.lost = true;
                assert(self@.stack =~= Seq::empty());
                Abstract::Unknown
            },
        }
    }

    fn popn(&mut self, count: usize)
        ensures
            final(self)@ == popped(old(self)@, count as nat),
    {
        let mut i: usize = 0;
        assert(popped(self@, 0).stack =~= self@.stack);
        while i < count
            invariant
                i <= count,
                self@ == popped(old(self)@, i as nat),
            decreases count - i,
        {
            let _ = self.pop();
            i = i + 1;
            assert(self@.stack =~= popped(old(self)@, i as nat).stack);
        }
    }

    fn push(&mut self, value: Abstract)
        ensures
            final(self)@ == pushed(old(self)@, value),
    {
        self.stack.push(value);
    }

    fn push_unknown(&mut self, count: usize)
        ensures
            final(self)@ == pushed_unknown(old(self)@, count as nat),
    {
        let mut i: usize = 0;
        assert(pushed_unknown(self@, 0).stack =~= self@.stack);
        while i < count
            invariant
                i <= count,
                self@ == pushed_unknown(old(self)@, i as nat),
            decreases count - i,
        {
            self.stack.push(Abstract::Unknown);
            i = i + 1;
            assert(self@.stack =~= pushed_unknown(old(self)@, i as nat).stack);
        }
    }

    fn lower(&mut self, height: usize)
        ensures
            final(self)@ == lowered(old(self)@, height as nat),
    {
        if height < self.stack.len() {
            self.stack.truncate(height);
            assert(self@.stack =~= old(self)@.stack.take(height as int));
        }
    }

    fn forget(&mut self, written: &Vec<u32>)
        ensures
            final(self)@ == (State {
                locals: forgotten(old(self)@.locals, written@),
                ..old(self)@
            }),
    {
        let mut k: usize = 0;
        assert(forgotten(self@.locals, written@.take(0)) =~= self@.locals);
        while k < written.len()
            invariant
                k <= written@.len(),
                self@ == (State {
                    locals: forgotten(old(self)@.locals, written@.take(k as int)),
                    ..old(self)@
                }),
            decreases written@.len() - k,
        {
            let ghost before = self@.locals;
            let local: u32 = written[k];
            if (local as usize) < self.locals.len() {
                self.locals.set(local as usize, Abstract::Local { local, displacement: 0 });
            }
            proof {
                let done = written@.take(k as int);
                let next = written@.take(k + 1);
                assert forall|i: int| #[trigger]
                    among(next, i) == (among(done, i) || i == local) by {
                    if among(done, i) {
                        let j = choose|j: int| 0 <= j < done.len() && #[trigger] done[j] == i;
                        assert(next[j] == i);
                    }
                    if among(next, i) {
                        let j = choose|j: int| 0 <= j < next.len() && #[trigger] next[j] == i;
                        if j < k {
                            assert(done[j] == i);
                        }
                    }
                    assert(next[k as int] == local);
                }
                assert(self@.locals =~= forgotten(old(self)@.locals, next));
            }
            k = k + 1;
        }
        assert(written@.take(k as int) =~= written@);
    }

    fn open(&mut self, module: &Module, ty: BlockType)
        ensures
            final(self)@ == opened(module, old(self)@, ty),
    {
        let (params, results): (usize, usize) = block_arity(module, ty);
        let height: usize = if params <= self.stack.len() {
            self.stack.len() - params
        } else {
            0
        };
        let ghost before = self@.regions;
        self.regions.push(Region { height, results, written: Vec::new() });
        assert(self@.regions =~= before.push(
            RegionModel { height: height as nat, results: results as nat, written: Seq::empty() },
        ));
    }

    fn close(&mut self)
        ensures
            final(self)@ == closed_region(old(self)@),
    {
        let ghost before = self@;
        match self.regions.pop() {
            Some(region) => {
                assert(self@.regions =~= before.regions.drop_last());
                assert(before.regions.last() == region_of(region));
                self.forget(&region.written);
                self.lower(region.height);
                self.push_unknown(region.results);
            },
            None => {
                self.lost = true;
                assert(self@.regions =~= before.regions);
            },
        }
    }

    /// Begins the second arm of the innermost region, if there is one.
    fn turn(&mut self)
        ensures
            final(self)@ == if old(self)@.regions.len() == 0 {
                old(self)@
            } else {
                turned(old(self)@)
            },
    {
        let ghost before = self@;
        match self.regions.pop() {
            Some(region) => {
                let ghost popped = self@;
                assert(popped.regions =~= before.regions.drop_last());
                assert(before.regions.last() == region_of(region));
                self.forget(&region.written);
                self.lower(region.height);
                let ghost less = self@;
                self.regions.push(region);
                assert(self@.regions =~= less.regions.push(region_of(region)));
                assert(self@.regions =~= before.regions);
            },
            None => {
                assert(self@.regions =~= before.regions);
            },
        }
    }

    fn go_unreachable(&mut self)
        ensures
            final(self)@ == cut(old(self)@),
    {
        self.unreachable = true;
        self.skip = 0;
    }

    fn local(&self, index: u32) -> (value: Abstract)
        ensures
            value == held(self@, index),
    {
        if (index as usize) < self.locals.len() {
            self.locals[index as usize]
        } else {
            Abstract::Unknown
        }
    }

    fn assign(&mut self, index: u32, value: Abstract)
        ensures
            final(self)@ == assigned(old(self)@, index, value),
    {
        let ghost before = self@;
        match self.regions.pop() {
            Some(region) => {
                let mut region: Region = region;
                let ghost had = region_of(region);
                region.written.push(index);
                self.regions.push(region);
                assert(before.regions.last() == had);
                assert(self@.regions =~= before.regions.drop_last().push(
                    RegionModel { written: had.written.push(index), ..had },
                ));
            },
            None => {
                assert(self@.regions =~= before.regions);
            },
        }
        let ghost middle = self@;
        let described: Abstract = match value {
            Abstract::Local { local, displacement } => if local == index {
                Abstract::Local { local: index, displacement: 0 }
            } else {
                value
            },
            Abstract::Unknown => Abstract::Local { local: index, displacement: 0 },
            Abstract::Const(_) => value,
        };
        let ghost whole = given(before.locals, index, value);
        let mut i: usize = 0;
        while i < self.locals.len()
            invariant
                i <= self.locals@.len(),
                self.locals@.len() == before.locals.len(),
                whole == given(before.locals, index, value),
                middle.locals == before.locals,
                self@ == (State { locals: self.locals@, ..middle }),
                described == match value {
                    Abstract::Local { local, displacement } => if local == index {
                        Abstract::Local { local: index, displacement: 0 }
                    } else {
                        value
                    },
                    Abstract::Unknown => Abstract::Local { local: index, displacement: 0 },
                    Abstract::Const(_) => value,
                },
                forall|k: int| 0 <= k < i ==> self.locals@[k] == whole[k],
                forall|k: int| i <= k < before.locals.len() ==> self.locals@[k] == before.locals[k],
            decreases before.locals.len() - i,
        {
            if i == index as usize {
                self.locals.set(i, described);
            } else if i as u32 != index {
                match self.locals[i] {
                    Abstract::Local { local, .. } => {
                        if local == index {
                            self.locals.set(
                                i,
                                Abstract::Local { local: i as u32, displacement: 0 },
                            );
                        }
                    },
                    _ => {},
                }
            }
            i = i + 1;
        }
        assert(self@.locals =~= whole);
    }

    fn record(
        &mut self,
        func: &Func,
        index: u32,
        position: usize,
        load: bool,
        width: u32,
        encoded: u64,
        address: Abstract,
    )
        ensures
            final(self)@ == recorded(
                *func,
                index,
                old(self)@,
                position as int,
                load,
                width,
                encoded,
                address,
            ),
    {
        let address: AddressOf = match address {
            Abstract::Local { local, displacement } => AddressOf::Local { local, displacement },
            Abstract::Const(value) => AddressOf::Absolute(value),
            Abstract::Unknown => AddressOf::Unknown,
        };
        let file_offset: Option<u32> = if position < func.offsets.len() {
            Some(func.offsets[position].0)
        } else {
            None
        };
        self.found.push(
            Access { func: index, position, file_offset, load, width, encoded, address },
        );
    }

    fn fold(&self, num: NumOp) -> (value: Abstract)
        ensures
            value == folded(self@, num),
    {
        let operands: Vec<ValType> = num.operands();
        let depth: usize = self.stack.len();
        if operands.len() != 2 || depth < 2 {
            return Abstract::Unknown;
        }
        let right: Abstract = self.stack[depth - 1];
        let left: Abstract = self.stack[depth - 2];
        match num {
            NumOp::I32Add | NumOp::I64Add => match (left, right) {
                (Abstract::Const(a), Abstract::Const(b)) => Abstract::Const(a.wrapping_add(b)),
                (Abstract::Local { local, displacement }, Abstract::Const(b)) => Abstract::Local {
                    local,
                    displacement: displacement.wrapping_add(b),
                },
                (Abstract::Const(b), Abstract::Local { local, displacement }) => Abstract::Local {
                    local,
                    displacement: displacement.wrapping_add(b),
                },
                _ => Abstract::Unknown,
            },
            NumOp::I32Sub | NumOp::I64Sub => match (left, right) {
                (Abstract::Const(a), Abstract::Const(b)) => Abstract::Const(a.wrapping_sub(b)),
                (Abstract::Local { local, displacement }, Abstract::Const(b)) => Abstract::Local {
                    local,
                    displacement: displacement.wrapping_sub(b),
                },
                _ => Abstract::Unknown,
            },
            _ => Abstract::Unknown,
        }
    }

    fn reset_locals(&mut self)
        ensures
            final(self)@ == (State {
                locals: Seq::new(old(self)@.locals.len(), |i: int| itself(i)),
                ..old(self)@
            }),
    {
        let ghost before = self@;
        let mut i: usize = 0;
        while i < self.locals.len()
            invariant
                i <= self.locals@.len(),
                self.locals@.len() == before.locals.len(),
                self@ == (State { locals: self.locals@, ..before }),
                forall|k: int| 0 <= k < i ==> self.locals@[k] == itself(k),
            decreases before.locals.len() - i,
        {
            self.locals.set(i, Abstract::Local { local: i as u32, displacement: 0 });
            i = i + 1;
        }
        assert(self@.locals =~= Seq::new(before.locals.len(), |i: int| itself(i)));
    }

    /// While unreachable, only the nesting matters.
    fn skip_op(&mut self, op: &Op)
        requires
            old(self)@.skip < usize::MAX,
        ensures
            final(self)@ == skipped(old(self)@, *op),
    {
        match op {
            Op::Block(_) | Op::Loop(_) | Op::If(_) => {
                self.skip = self.skip + 1;
            },
            Op::Else => {
                if self.skip == 0 {
                    self.turn();
                    self.unreachable = false;
                }
            },
            Op::End => {
                if self.skip > 0 {
                    self.skip = self.skip - 1;
                } else {
                    self.unreachable = false;
                    self.close();
                }
            },
            _ => {},
        }
    }
}

/// How many values a type takes and leaves.
fn arity_of_type(module: &Module, index: u32) -> (arity: (usize, usize))
    ensures
        (arity.0 as nat, arity.1 as nat) == type_arity(module, index),
{
    let at: usize = index as usize;
    if at < module.types.len() {
        (module.types[at].params.len(), module.types[at].results.len())
    } else {
        (0, 0)
    }
}

/// How many values a block type takes and leaves.
fn block_arity(module: &Module, ty: BlockType) -> (out: (usize, usize))
    ensures
        (out.0 as nat, out.1 as nat) == arity(module, ty),
{
    match ty {
        BlockType::Empty => (0, 0),
        BlockType::Value(_) => (0, 1),
        BlockType::Func(index) => arity_of_type(module, index),
    }
}

fn load_width(kind: LoadKind) -> (width: u32)
    ensures
        width == loaded_bytes(kind),
{
    match kind {
        LoadKind::I32Load8S | LoadKind::I32Load8U | LoadKind::I64Load8S | LoadKind::I64Load8U => 1,
        LoadKind::I32Load16S
        | LoadKind::I32Load16U
        | LoadKind::I64Load16S
        | LoadKind::I64Load16U => 2,
        LoadKind::I32 | LoadKind::F32 | LoadKind::I64Load32S | LoadKind::I64Load32U => 4,
        LoadKind::I64 | LoadKind::F64 => 8,
    }
}

fn store_width(kind: StoreKind) -> (width: u32)
    ensures
        width == stored_bytes(kind),
{
    match kind {
        StoreKind::I32Store8 | StoreKind::I64Store8 => 1,
        StoreKind::I32Store16 | StoreKind::I64Store16 => 2,
        StoreKind::I32 | StoreKind::F32 | StoreKind::I64Store32 => 4,
        StoreKind::I64 | StoreKind::F64 => 8,
    }
}

/// How many operands an atomic takes and leaves.
fn arity_of_atomic(kind: AtomicKind) -> (arity: (usize, usize))
    ensures
        (arity.0 as nat, arity.1 as nat) == atomic_arity(kind),
        1 <= arity.0 <= 3,
{
    match kind {
        AtomicKind::Load => (1, 1),
        AtomicKind::Store => (2, 0),
        AtomicKind::Rmw(_) => (2, 1),
        AtomicKind::Cmpxchg => (3, 1),
        AtomicKind::Notify => (2, 1),
        AtomicKind::Wait => (3, 1),
    }
}

impl Walk {
    /// The operand `n` below the top.
    fn peek(&self, n: usize) -> (value: Abstract)
        ensures
            value == operand(self@, n as int),
    {
        if n < self.stack.len() {
            self.stack[self.stack.len() - 1 - n]
        } else {
            Abstract::Unknown
        }
    }

    /// Follows an instruction that is reached.
    fn step(&mut self, module: &Module, func: &Func, index: u32, position: usize)
        requires
            position < func.body@.len(),
        ensures
            final(self)@ == stepped(module, *func, index, old(self)@, position as int),
    {
        match &func.body[position] {
            Op::Unreachable | Op::Br(_) | Op::BrTable { .. } | Op::Return => self.go_unreachable(),
            Op::Nop | Op::DataDrop(_) | Op::AtomicFence => {},
            Op::Block(ty) => self.open(module, *ty),
            Op::Loop(ty) => {
                self.reset_locals();
                self.open(module, *ty)
            },
            Op::If(ty) => {
                let _ = self.pop();
                self.open(module, *ty)
            },
            Op::Else => {
                if self.regions.len() == 0 {
                    self.lost = true;
                    assert(self@.regions =~= old(self)@.regions);
                } else {
                    self.turn();
                }
            },
            Op::End => {
                if self.regions.len() > 0 {
                    self.close();
                }
            },
            Op::BrIf(_) | Op::Drop | Op::GlobalSet(_) => {
                let _ = self.pop();
            },
            Op::Call(callee) => {
                let (params, results): (usize, usize) = match module.func_type(*callee) {
                    Some(ty) => (ty.params.len(), ty.results.len()),
                    None => (0, 0),
                };
                self.popn(params);
                self.push_unknown(results);
            },
            Op::CallIndirect { type_index } => {
                let (params, results): (usize, usize) = arity_of_type(module, *type_index);
                let _ = self.pop();
                self.popn(params);
                self.push_unknown(results);
            },
            Op::Select => {
                self.popn(3);
                self.push(Abstract::Unknown);
            },
            Op::LocalGet(local) => {
                let value: Abstract = self.local(*local);
                self.push(value);
            },
            Op::LocalSet(local) => {
                let value: Abstract = self.pop();
                self.assign(*local, value);
            },
            Op::LocalTee(local) => {
                let value: Abstract = self.pop();
                self.assign(*local, value);
                let now: Abstract = self.local(*local);
                self.push(now);
            },
            Op::GlobalGet(_) | Op::F32Const(_) | Op::F64Const(_) | Op::MemorySize => self.push(
                Abstract::Unknown,
            ),
            Op::I32Const(value) => self.push(Abstract::Const(*value as i64)),
            Op::I64Const(value) => self.push(Abstract::Const(*value)),
            Op::Load { kind, mem } => {
                let address: Abstract = self.pop();
                self.record(func, index, position, true, load_width(*kind), mem.offset, address);
                self.push(Abstract::Unknown);
            },
            Op::Store { kind, mem } => {
                let address: Abstract = self.peek(1);
                self.popn(2);
                self.record(func, index, position, false, store_width(*kind), mem.offset, address);
            },
            Op::MemoryGrow => {
                let _ = self.pop();
                self.push(Abstract::Unknown);
            },
            Op::MemoryCopy | Op::MemoryFill | Op::MemoryInit(_) => self.popn(3),
            Op::Atomic { op, mem } => {
                let (pops, pushes): (usize, usize) = arity_of_atomic(op.kind);
                // The address is the deepest operand.
                let address: Abstract = self.peek(pops - 1);
                self.popn(pops);
                let load: bool = match op.kind {
                    AtomicKind::Store => false,
                    _ => true,
                };
                self.record(func, index, position, load, op.width, mem.offset, address);
                self.push_unknown(pushes);
            },
            Op::Num(num) => {
                let folded: Abstract = self.fold(*num);
                let operands: usize = num.operands().len();
                self.popn(operands);
                self.push(folded);
            },
        }
    }

    /// Follows the whole body.
    fn run(&mut self, module: &Module, func: &Func, index: u32)
        requires
            old(self)@ == entered(module, *func, index),
        ensures
            final(self)@ == followed_to_the_end(module, *func, index),
    {
        let mut position: usize = 0;
        while position < func.body.len()
            invariant
                position <= func.body@.len(),
                self@ == followed(module, *func, index, position as int),
                self@.skip <= position,
            decreases func.body@.len() - position,
        {
            let ghost before = self@;
            if !self.lost {
                if self.unreachable {
                    self.skip_op(&func.body[position]);
                } else {
                    self.step(module, func, index, position);
                }
            }
            position = position + 1;
            assert(self@ == followed(module, *func, index, position as int));
        }
    }
}

/// Every access in the module whose offset matches, and how it was arrived at.
///
/// `width` of `None` means any width.
///
/// The base tracking is intraprocedural and forward only: a displacement a caller
/// applied is not visible here, and one applied inside a loop is discarded rather
/// than carried across the back edge. What it does see is the straight-line
/// `base = p + k` the compiler emits, which is the case that hides a field from a
/// literal search.
pub fn accesses_at(
    module: &Module,
    offset: i64,
    width: Option<u32>,
    kind: Kind,
    exact: bool,
) -> (report: AccessReport)
    requires
        module.func_imports@.len() + module.funcs@.len() <= u32::MAX,
    ensures
        report.found@ == found_in(
            module,
            module.funcs@.len() as int,
            offset,
            width,
            kind,
            exact,
        ),
        report.lost@ == lost_in(module, module.funcs@.len() as int),
{
    let import_count: u32 = module.func_imports.len() as u32;
    let mut report: AccessReport = AccessReport::default();
    let mut at: usize = 0;
    while at < module.funcs.len()
        invariant
            import_count == module.func_imports@.len(),
            module.func_imports@.len() + module.funcs@.len() <= u32::MAX,
            at <= module.funcs@.len(),
            report.found@ == found_in(module, at as int, offset, width, kind, exact),
            report.lost@ == lost_in(module, at as int),
        decreases module.funcs@.len() - at,
    {
        let index: u32 = import_count + at as u32;
        let func: &Func = &module.funcs[at];
        let mut walk: Walk = Walk::new(module, func, index);
        walk.run(module, func, index);
        assert(walk@ == state_of(module, at as int));
        if walk.lost {
            report.lost.push(index);
        }
        let ghost before = report.found@;
        let found: Vec<Access> = walk.found;
        let mut i: usize = 0;
        assert(found@.take(0) =~= Seq::empty());
        assert(before + Seq::<Access>::empty() =~= before);
        while i < found.len()
            invariant
                i <= found@.len(),
                report.lost@ == lost_in(module, at + 1),
                report.found@ == before + picked(
                    found@.take(i as int),
                    offset,
                    width,
                    kind,
                    exact,
                ),
            decreases found@.len() - i,
        {
            let access: &Access = &found[i];
            let ghost had = report.found@;
            proof {
                assert(found@.take(i + 1).drop_last() =~= found@.take(i as int));
                assert(found@.take(i + 1).last() == found@[i as int]);
            }
            let fits: bool = match width {
                Some(wanted) => wanted == access.width,
                None => true,
            };
            let matched: bool = if exact {
                access.encoded as i64 == offset
            } else {
                access.effective() == offset
            };
            if kind.wants(access.load) && fits && matched {
                report.found.push(
                    Access {
                        func: access.func,
                        position: access.position,
                        file_offset: access.file_offset,
                        load: access.load,
                        width: access.width,
                        encoded: access.encoded,
                        address: access.address,
                    },
                );
            }
            i = i + 1;
            assert(report.found@ =~= before + picked(
                found@.take(i as int),
                offset,
                width,
                kind,
                exact,
            ));
        }
        assert(found@.take(i as int) =~= found@);
        at = at + 1;
    }
    report
}

} // verus!
