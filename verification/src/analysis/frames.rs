//! The shadow stack: which global it hangs from, and what each function keeps
//! there.

use vstd::prelude::*;
use std::collections::BTreeMap;
use crate::analysis::sets::{increasing_i32, keys_i32, keys_u32};
use crate::module::types::{LoadKind, MemArg, Module, Op, StoreKind, ValType};
use crate::ops::table::NumOp;

verus! {

/// How the C stack pointer was identified.
#[derive(Debug, Clone, Copy, PartialEq, Eq, Structural)]
pub enum Evidence {
    /// The module exports it under the name the linker gives it.
    Exported,
    /// The name section names it.
    Named,
    /// Found by its use: the function prologue that reserves a frame.
    Prologue {
        /// How many functions open with it. One is a coincidence; hundreds are
        /// a calling convention.
        functions: usize,
    },
}

/// The global the C stack lives in.
#[derive(Debug, Clone, Copy, PartialEq, Eq, Structural)]
pub struct StackPointer {
    /// Its index in the global index space.
    pub global: u32,
    /// Why we believe it.
    pub evidence: Evidence,
}

/// One slot of a function's stack frame: an offset that is read or written.
#[derive(Debug, Clone, Copy, PartialEq, Eq)]
pub struct Slot {
    /// The widest access seen, in bytes. Usually the size of what lives there.
    pub width: u32,
    /// How many times it is read.
    pub reads: usize,
    /// How many times it is written.
    pub writes: usize,
    /// The width and type every access agreed on, if they all did.
    pub uniform: Option<(u32, ValType)>,
    /// Set once two accesses disagreed, so a third that happens to match the
    /// first cannot put [`Self::uniform`] back.
    pub mixed: bool,
    /// Whether any access reached this offset by arithmetic rather than by the
    /// base local and a static offset.
    pub indirect: bool,
}

impl Default for Slot {
    fn default() -> (slot: Self)
        ensures
            slot == fresh_slot(),
    {
        Slot { width: 0, reads: 0, writes: 0, uniform: None, mixed: false, indirect: false }
    }
}

/// A slot nothing has touched.
pub open spec fn fresh_slot() -> Slot {
    Slot { width: 0, reads: 0, writes: 0, uniform: None, mixed: false, indirect: false }
}

impl Slot {
    /// The slot after an access: one variable only as long as every access agreed
    /// on its width and type.
    pub open spec fn observed(self, width: u32, ty: ValType) -> Slot {
        let wider = if self.width < width {
            width
        } else {
            self.width
        };
        if self.mixed {
            Slot { width: wider, ..self }
        } else {
            match self.uniform {
                None => Slot { width: wider, uniform: Some((width, ty)), ..self },
                Some(seen) => if seen == (width, ty) {
                    Slot { width: wider, ..self }
                } else {
                    Slot { width: wider, uniform: None, mixed: true, ..self }
                },
            }
        }
    }

    /// Records an access, and whether it still looks like one variable.
    pub fn observe(&mut self, width: u32, ty: ValType)
        ensures
            *final(self) == old(self).observed(width, ty),
    {
        if self.width < width {
            self.width = width;
        }
        if self.mixed {
            return;
        }
        match self.uniform {
            None => {
                self.uniform = Some((width, ty));
            },
            Some(seen) => {
                if !(seen.0 == width && seen.1 == ty) {
                    self.uniform = None;
                    self.mixed = true;
                }
            },
        }
    }
}

/// A function's stack frame, as far as its own code reveals it.
///
/// This is the shadow stack: the region a C compiler carves out of linear
/// memory for locals it cannot keep in wasm locals.
#[derive(Debug, Clone, PartialEq, Eq)]
pub struct Frame {
    /// Bytes reserved by the prologue.
    pub size: i32,
    /// The wasm local holding the frame's base address.
    pub base_local: u32,
    /// The offsets used, and how.
    pub slots: BTreeMap<i32, Slot>,
    /// Whether the base address goes somewhere this analysis cannot follow.
    ///
    /// Answered conservatively: anything not understood sets it.
    pub escapes: bool,
    /// Whether the prologue writes the reserved address back to the stack
    /// pointer. A leaf function often does not.
    pub publishes: bool,
    /// Stores through an address computed from the frame at run time.
    pub computed_writes: usize,
    /// Whether the frame address was ever copied into another local.
    pub copied: bool,
    /// How many instructions the prologue occupies.
    pub prologue: usize,
}

/// What a [`Frame`] is.
pub struct FrameModel {
    /// Bytes reserved.
    pub size: i32,
    /// The local holding the base.
    pub base_local: u32,
    /// The offsets used.
    pub slots: Map<i32, Slot>,
    /// Whether the address goes where it cannot be followed.
    pub escapes: bool,
    /// Whether the reservation is published.
    pub publishes: bool,
    /// Stores through a computed address.
    pub computed_writes: usize,
    /// Whether the address was copied.
    pub copied: bool,
    /// Instructions in the prologue.
    pub prologue: usize,
}

impl View for Frame {
    type V = FrameModel;

    open spec fn view(&self) -> FrameModel {
        FrameModel {
            size: self.size,
            base_local: self.base_local,
            slots: self.slots@,
            escapes: self.escapes,
            publishes: self.publishes,
            computed_writes: self.computed_writes,
            copied: self.copied,
            prologue: self.prologue,
        }
    }
}

/// Whether a slot is written and leaves the frame.
pub open spec fn leaves(frame: FrameModel, offset: i32) -> bool {
    &&& frame.slots.contains_key(offset)
    &&& frame.slots[offset].writes > 0
    &&& offset < 0 || offset + frame.slots[offset].width > frame.size
}

impl Frame {
    /// The writes that land outside this frame, as `(offset, width)`, lowest
    /// first.
    ///
    /// A store at `frame + 1168` in a function whose prologue reserved 1168
    /// bytes is writing into its *caller's* frame. Reads are not reported.
    pub fn writes_outside(&self) -> (list: Vec<(i32, u32)>)
        ensures
            forall|i: int|
                0 <= i < list@.len() ==> leaves(self@, (#[trigger] list@[i]).0) && list@[i].1
                    == self.slots@[list@[i].0].width,
            forall|offset: i32| #[trigger]
                leaves(self@, offset) ==> list@.contains((offset, self.slots@[offset].width)),
            forall|i: int, j: int| 0 <= i < j < list@.len() ==> list@[i].0 < list@[j].0,
    {
        let offsets: Vec<i32> = keys_i32(&self.slots);
        let mut list: Vec<(i32, u32)> = Vec::new();
        let mut n: usize = 0;
        while n < offsets.len()
            invariant
                n <= offsets@.len(),
                increasing_i32(offsets@),
                forall|offset: i32| #[trigger]
                    offsets@.contains(offset) == self.slots@.contains_key(offset),
                forall|i: int|
                    0 <= i < list@.len() ==> leaves(self@, (#[trigger] list@[i]).0) && list@[i].1
                        == self.slots@[list@[i].0].width,
                forall|i: int|
                    0 <= i < list@.len() ==> exists|k: int|
                        0 <= k < n && (#[trigger] list@[i]).0 == #[trigger] offsets@[k],
                forall|i: int, j: int| 0 <= i < j < list@.len() ==> list@[i].0 < list@[j].0,
                forall|k: int|
                    0 <= k < n && leaves(self@, #[trigger] offsets@[k]) ==> list@.contains(
                        (offsets@[k], self.slots@[offsets@[k]].width),
                    ),
            decreases offsets@.len() - n,
        {
            let offset: i32 = offsets[n];
            let ghost before = list@;
            assert(offsets@.contains(offsets@[n as int]));
            match self.slots.get(&offset) {
                Some(slot) => {
                    if slot.writes > 0 && (offset < 0 || offset as i64 + slot.width as i64
                        > self.size as i64) {
                        list.push((offset, slot.width));
                        assert(list@[list@.len() - 1] == (offset, slot.width));
                    }
                },
                None => {},
            }
            proof {
                assert forall|k: int|
                    0 <= k < n + 1 && leaves(self@, #[trigger] offsets@[k]) implies list@.contains(
                    (offsets@[k], self.slots@[offsets@[k]].width),
                ) by {
                    if k < n {
                        let entry = (offsets@[k], self.slots@[offsets@[k]].width);
                        let i = choose|i: int| 0 <= i < before.len() && before[i] == entry;
                        assert(list@[i] == entry);
                    }
                }
            }
            n = n + 1;
        }
        proof {
            assert forall|offset: i32| #[trigger] leaves(self@, offset) implies list@.contains(
                (offset, self.slots@[offset].width),
            ) by {
                assert(offsets@.contains(offset));
                let k = choose|k: int| 0 <= k < offsets@.len() && offsets@[k] == offset;
                assert(leaves(self@, offsets@[k]));
            }
        }
        list
    }
}

// ---- what can become a variable ----

/// Whether an instruction writes memory at a destination that is a value.
pub open spec fn writes_a_range(op: Op) -> bool {
    op is MemoryFill || op is MemoryCopy || op is MemoryInit
}

/// Whether two slots share a byte.
pub open spec fn overlap(frame: FrameModel, offset: i32, width: u32, other: i32) -> bool {
    let wide = if frame.slots[other].width < 1 {
        1
    } else {
        frame.slots[other].width
    };
    other != offset && other < offset + width && offset < other + wide
}

/// The end of a slot, as far as a 32-bit number goes.
pub open spec fn slot_end(offset: i32, width: u32) -> int {
    if offset + width > i32::MAX {
        i32::MAX as int
    } else {
        offset + width
    }
}

/// Whether a slot could become a variable: every access to the frame is one that
/// can be seen and placed, and this one is inside the frame, of one width and
/// type, and overlaps no other.
pub open spec fn promotable(frame: FrameModel, body: Seq<Op>, offset: i32) -> bool {
    &&& !frame.escapes
    &&& frame.computed_writes == 0
    &&& !frame.copied
    &&& forall|i: int| 0 <= i < body.len() ==> !writes_a_range(#[trigger] body[i])
    &&& frame.slots.contains_key(offset)
    &&& !frame.slots[offset].indirect
    &&& frame.slots[offset].uniform is Some
    &&& offset >= 0
    &&& slot_end(offset, (frame.slots[offset].uniform->0).0) <= frame.size
    &&& forall|other: i32| #[trigger]
        frame.slots.contains_key(other) ==> !overlap(
            frame,
            offset,
            (frame.slots[offset].uniform->0).0,
            other,
        )
}

/// Whether a body writes memory at a destination that is a value.
fn has_range_write(body: &[Op]) -> (yes: bool)
    ensures
        yes == exists|i: int| 0 <= i < body@.len() && writes_a_range(#[trigger] body@[i]),
{
    let mut i: usize = 0;
    while i < body.len()
        invariant
            i <= body@.len(),
            forall|j: int| 0 <= j < i ==> !writes_a_range(#[trigger] body@[j]),
        decreases body@.len() - i,
    {
        match &body[i] {
            Op::MemoryFill | Op::MemoryCopy | Op::MemoryInit(_) => {
                assert(writes_a_range(body@[i as int]));
                return true;
            },
            _ => {},
        }
        i = i + 1;
    }
    false
}

/// Whether a slot overlaps another.
fn overlaps_any(frame: &Frame, offsets: &Vec<i32>, offset: i32, width: u32) -> (yes: bool)
    requires
        forall|other: i32| #[trigger]
            offsets@.contains(other) == frame.slots@.contains_key(other),
    ensures
        yes == exists|other: i32| #[trigger]
            frame.slots@.contains_key(other) && overlap(frame@, offset, width, other),
{
    let mut i: usize = 0;
    while i < offsets.len()
        invariant
            i <= offsets@.len(),
            forall|other: i32| #[trigger]
                offsets@.contains(other) == frame.slots@.contains_key(other),
            forall|j: int|
                0 <= j < i ==> !overlap(frame@, offset, width, #[trigger] offsets@[j]),
        decreases offsets@.len() - i,
    {
        let other: i32 = offsets[i];
        assert(offsets@.contains(offsets@[i as int]));
        match frame.slots.get(&other) {
            Some(slot) => {
                let wide: u32 = if slot.width < 1 {
                    1
                } else {
                    slot.width
                };
                if other != offset && (other as i64) < offset as i64 + width as i64 && (
                offset as i64) < other as i64 + wide as i64 {
                    assert(frame.slots@.contains_key(other) && overlap(
                        frame@,
                        offset,
                        width,
                        other,
                    ));
                    return true;
                }
            },
            None => {},
        }
        i = i + 1;
    }
    proof {
        assert forall|other: i32| #[trigger]
            frame.slots@.contains_key(other) implies !overlap(frame@, offset, width, other) by {
            assert(offsets@.contains(other));
            let j = choose|j: int| 0 <= j < offsets@.len() && offsets@[j] == other;
            assert(!overlap(frame@, offset, width, offsets@[j]));
        }
    }
    false
}

/// The frame slots that could become variables instead of memory, with the width
/// and type of each.
///
/// What it does *not* prove is that no unrelated pointer aliases the region:
/// nothing in a wasm module says a store cannot land below the stack pointer.
pub fn promotable_slots(frame: &Frame, body: &[Op]) -> (promoted: BTreeMap<i32, (u32, ValType)>)
    ensures
        forall|offset: i32| #[trigger]
            promoted@.contains_key(offset) == promotable(frame@, body@, offset),
        forall|offset: i32| #[trigger]
            promoted@.contains_key(offset) ==> promoted@[offset]
                == frame.slots@[offset].uniform->0,
{
    let mut promoted: BTreeMap<i32, (u32, ValType)> = BTreeMap::new();
    if frame.escapes || frame.computed_writes > 0 || frame.copied {
        return promoted;
    }
    if has_range_write(body) {
        return promoted;
    }
    let offsets: Vec<i32> = keys_i32(&frame.slots);
    let mut n: usize = 0;
    while n < offsets.len()
        invariant
            n <= offsets@.len(),
            !frame.escapes,
            frame.computed_writes == 0,
            !frame.copied,
            forall|i: int| 0 <= i < body@.len() ==> !writes_a_range(#[trigger] body@[i]),
            forall|offset: i32| #[trigger]
                offsets@.contains(offset) == frame.slots@.contains_key(offset),
            forall|offset: i32| #[trigger]
                promoted@.contains_key(offset) ==> promotable(frame@, body@, offset)
                    && promoted@[offset] == frame.slots@[offset].uniform->0,
            forall|k: int|
                0 <= k < n && promotable(frame@, body@, #[trigger] offsets@[k])
                    ==> promoted@.contains_key(offsets@[k]),
        decreases offsets@.len() - n,
    {
        let offset: i32 = offsets[n];
        assert(offsets@.contains(offsets@[n as int]));
        match frame.slots.get(&offset) {
            Some(slot) => {
                if !slot.indirect {
                    match slot.uniform {
                        Some((width, ty)) => {
                            let end: i64 = if offset as i64 + width as i64 > i32::MAX as i64 {
                                i32::MAX as i64
                            } else {
                                offset as i64 + width as i64
                            };
                            if offset >= 0 && end <= frame.size as i64 && !overlaps_any(
                                frame,
                                &offsets,
                                offset,
                                width,
                            ) {
                                promoted.insert(offset, (width, ty));
                            }
                        },
                        None => {},
                    }
                }
            },
            None => {},
        }
        n = n + 1;
    }
    proof {
        assert forall|offset: i32| #[trigger]
            promoted@.contains_key(offset) == promotable(frame@, body@, offset) by {
            if promotable(frame@, body@, offset) {
                assert(offsets@.contains(offset));
                let k = choose|k: int| 0 <= k < offsets@.len() && offsets@[k] == offset;
                assert(promotable(frame@, body@, offsets@[k]));
            }
        }
    }
    promoted
}

// ---- the prologue ----

/// What a matched prologue says.
#[derive(Debug, Clone, Copy, PartialEq, Eq, Structural)]
pub struct Prologue {
    /// Bytes reserved.
    pub size: i32,
    /// The local the reserved address is kept in.
    pub base_local: u32,
    /// Instructions the prologue occupies.
    pub length: usize,
    /// Whether the reservation is written back.
    pub publishes: bool,
}

/// The size a prologue reserves, and how many instructions get it onto the stack:
/// either read straight off the operand stack, or parked in two locals first.
pub open spec fn reservation(body: Seq<Op>) -> Option<(i32, int)> {
    if body.len() < 4 {
        None
    } else if body[1] is I32Const && body[2] == Op::Num(NumOp::I32Sub) {
        Some((body[1]->I32Const_0, 3))
    } else if body[1] is LocalSet && body[2] is I32Const && body[3] is LocalSet && body.len() > 6
        && body[4] == Op::LocalGet(body[1]->LocalSet_0) && body[5] == Op::LocalGet(
        body[3]->LocalSet_0,
    ) && body[6] == Op::Num(NumOp::I32Sub) {
        Some((body[2]->I32Const_0, 7))
    } else {
        None
    }
}

/// The prologue a body opens with, and the global it reserves from: the stack
/// pointer, less a constant, kept in a local.
pub open spec fn prologue_of(body: Seq<Op>) -> Option<(u32, Prologue)> {
    if body.len() == 0 || !(body[0] is GlobalGet) {
        None
    } else {
        let global = body[0]->GlobalGet_0;
        match reservation(body) {
            None => None,
            Some((size, rest)) => if size <= 0 || rest >= body.len() {
                None
            } else if body[rest] is LocalTee {
                let base_local = body[rest]->LocalTee_0;
                if rest + 1 < body.len() && body[rest + 1] == Op::GlobalSet(global) {
                    Some(
                        (
                            global,
                            Prologue {
                                size,
                                base_local,
                                length: (rest + 2) as usize,
                                publishes: true,
                            },
                        ),
                    )
                } else {
                    Some(
                        (
                            global,
                            Prologue {
                                size,
                                base_local,
                                length: (rest + 1) as usize,
                                publishes: false,
                            },
                        ),
                    )
                }
            } else if body[rest] is LocalSet {
                let base_local = body[rest]->LocalSet_0;
                if rest + 2 < body.len() && body[rest + 1] == Op::LocalGet(base_local) && body[rest
                    + 2] == Op::GlobalSet(global) {
                    Some(
                        (
                            global,
                            Prologue {
                                size,
                                base_local,
                                length: (rest + 3) as usize,
                                publishes: true,
                            },
                        ),
                    )
                } else {
                    Some(
                        (
                            global,
                            Prologue {
                                size,
                                base_local,
                                length: (rest + 1) as usize,
                                publishes: false,
                            },
                        ),
                    )
                }
            } else {
                None
            },
        }
    }
}

fn is_local_get(op: &Op, index: u32) -> (yes: bool)
    ensures
        yes == (*op == Op::LocalGet(index)),
{
    match op {
        Op::LocalGet(found) => *found == index,
        _ => false,
    }
}

fn is_global_set(op: &Op, index: u32) -> (yes: bool)
    ensures
        yes == (*op == Op::GlobalSet(index)),
{
    match op {
        Op::GlobalSet(found) => *found == index,
        _ => false,
    }
}

fn is_num(op: &Op, num: NumOp) -> (yes: bool)
    ensures
        yes == (*op == Op::Num(num)),
{
    match op {
        Op::Num(found) => *found == num,
        _ => false,
    }
}

fn match_reservation(body: &Vec<Op>) -> (found: Option<(i32, usize)>)
    ensures
        match found {
            Some((size, rest)) => reservation(body@) == Some((size, rest as int)) && rest <= 7,
            None => reservation(body@) is None,
        },
{
    if body.len() < 4 {
        return None;
    }
    match &body[1] {
        Op::I32Const(size) => if is_num(&body[2], NumOp::I32Sub) {
            Some((*size, 3))
        } else {
            None
        },
        Op::LocalSet(pointer) => match (&body[2], &body[3]) {
            (Op::I32Const(size), Op::LocalSet(reserved)) => if body.len() > 6 && is_local_get(
                &body[4],
                *pointer,
            ) && is_local_get(&body[5], *reserved) && is_num(&body[6], NumOp::I32Sub) {
                Some((*size, 7))
            } else {
                None
            },
            _ => None,
        },
        _ => None,
    }
}

/// Matches the prologue: the stack pointer, less a constant, kept in a local.
///
/// Four spellings turn up in practice:
///
/// ```wat
/// global.get $sp  i32.const 32  i32.sub  local.tee $base  global.set $sp
/// global.get $sp  i32.const 32  i32.sub  local.set $base  local.get $base  global.set $sp
/// global.get $sp  i32.const 32  i32.sub  local.set $base   ;; a leaf function at -O0
/// global.get $sp  local.set $a  i32.const 32  local.set $b ;; every value through a local
/// local.get $a    local.get $b  i32.sub       local.set $base
/// ```
pub fn match_prologue(body: &Vec<Op>) -> (found: Option<(u32, Prologue)>)
    ensures
        found == prologue_of(body@),
        found is Some ==> (found->0).1.length <= body@.len(),
{
    if body.len() == 0 {
        return None;
    }
    let global: u32 = match &body[0] {
        Op::GlobalGet(global) => *global,
        _ => {
            return None;
        },
    };
    let (size, rest) = match match_reservation(body) {
        Some(found) => found,
        None => {
            return None;
        },
    };
    if size <= 0 || rest >= body.len() {
        return None;
    }
    match &body[rest] {
        Op::LocalTee(base_local) => {
            let publishes: bool = rest + 1 < body.len() && is_global_set(&body[rest + 1], global);
            let length: usize = if publishes {
                rest + 2
            } else {
                rest + 1
            };
            Some((global, Prologue { size, base_local: *base_local, length, publishes }))
        },
        Op::LocalSet(base_local) => {
            let publishes: bool = rest + 2 < body.len() && is_local_get(
                &body[rest + 1],
                *base_local,
            ) && is_global_set(&body[rest + 2], global);
            let length: usize = if publishes {
                rest + 3
            } else {
                rest + 1
            };
            Some((global, Prologue { size, base_local: *base_local, length, publishes }))
        },
        _ => None,
    }
}

// ---- the walk ----

/// What a value on the abstract stack is, as far as this analysis cares.
#[derive(Debug, Clone, Copy, PartialEq, Eq, Structural)]
pub enum Followed {
    /// The frame base plus a constant.
    Frame(i32),
    /// The frame base plus something that is not a constant: an index into an
    /// array that lives in the frame, computed at run time.
    Derived,
    /// A constant.
    Const(i32),
    /// Anything else.
    Other,
}

/// How far a walk through a body has got.
pub struct WalkModel {
    /// The frame so far.
    pub frame: FrameModel,
    /// The abstract operand stack.
    pub stack: Seq<Followed>,
    /// What each local holds, for those the walk has watched being written.
    pub locals: Map<u32, Followed>,
}

/// What is on top of the stack, or nothing known where it is empty.
pub open spec fn top(stack: Seq<Followed>) -> Followed {
    if stack.len() > 0 {
        stack.last()
    } else {
        Followed::Other
    }
}

/// The stack without its top.
pub open spec fn popped(stack: Seq<Followed>) -> Seq<Followed> {
    if stack.len() > 0 {
        stack.drop_last()
    } else {
        stack
    }
}

/// The stack without its top `n`.
pub open spec fn dropped(stack: Seq<Followed>, n: nat) -> Seq<Followed> {
    if n < stack.len() {
        stack.take(stack.len() - n)
    } else {
        Seq::empty()
    }
}

/// Whether the frame address is among the top `n`.
pub open spec fn frame_in_top(stack: Seq<Followed>, n: nat) -> bool {
    exists|i: int|
        0 <= i < stack.len() && stack.len() - n <= i && (#[trigger] stack[i]) is Frame
}

/// Whether a value is the frame address or computed from it.
pub open spec fn of_frame(value: Followed) -> bool {
    value is Frame || value is Derived
}

/// Whether an instruction is control flow, which ends what the walk can follow.
pub open spec fn is_flow(op: Op) -> bool {
    op is Block || op is Loop || op is If || op is Else || op is End || op is Br || op is BrIf
        || op is BrTable || op is Return || op is Unreachable
}

/// How many values an instruction takes and makes. `None` for anything the walk
/// does not model.
pub open spec fn arity(module: &Module, op: Op) -> Option<(nat, nat)> {
    match op {
        Op::Nop | Op::DataDrop(_) => Some((0, 0)),
        Op::Num(num) => Some((num.pops().len(), 1)),
        Op::Select => Some((3, 1)),
        Op::MemorySize => Some((0, 1)),
        Op::MemoryGrow => Some((1, 1)),
        Op::MemoryCopy | Op::MemoryFill | Op::MemoryInit(_) => Some((3, 0)),
        Op::CallIndirect { type_index } => if type_index < module.types@.len() {
            let ty = module.types@[type_index as int];
            Some((ty.params@.len() + 1, ty.results@.len()))
        } else {
            None
        },
        Op::Call(index) => match module.signature(index) {
            Some(ty) => Some((ty.params@.len(), ty.results@.len())),
            None => None,
        },
        _ => None,
    }
}

/// The bytes a load touches.
pub open spec fn load_bytes(kind: LoadKind) -> u32 {
    match kind {
        LoadKind::I32Load8S
        | LoadKind::I32Load8U
        | LoadKind::I64Load8S
        | LoadKind::I64Load8U => 1,
        LoadKind::I32Load16S
        | LoadKind::I32Load16U
        | LoadKind::I64Load16S
        | LoadKind::I64Load16U => 2,
        LoadKind::I32 | LoadKind::F32 | LoadKind::I64Load32S | LoadKind::I64Load32U => 4,
        LoadKind::I64 | LoadKind::F64 => 8,
    }
}

/// The bytes a load touches.
pub fn width_of_load(kind: LoadKind) -> (width: u32)
    ensures
        width == load_bytes(kind),
{
    match kind {
        LoadKind::I32Load8S
        | LoadKind::I32Load8U
        | LoadKind::I64Load8S
        | LoadKind::I64Load8U => 1,
        LoadKind::I32Load16S
        | LoadKind::I32Load16U
        | LoadKind::I64Load16S
        | LoadKind::I64Load16U => 2,
        LoadKind::I32 | LoadKind::F32 | LoadKind::I64Load32S | LoadKind::I64Load32U => 4,
        LoadKind::I64 | LoadKind::F64 => 8,
    }
}

/// The value type a store writes.
pub open spec fn store_type(kind: StoreKind) -> ValType {
    match kind {
        StoreKind::I32 | StoreKind::I32Store8 | StoreKind::I32Store16 => ValType::I32,
        StoreKind::I64
        | StoreKind::I64Store8
        | StoreKind::I64Store16
        | StoreKind::I64Store32 => ValType::I64,
        StoreKind::F32 => ValType::F32,
        StoreKind::F64 => ValType::F64,
    }
}

/// The value type a store writes, which is the type of what lives there.
pub fn type_of_store(kind: StoreKind) -> (ty: ValType)
    ensures
        ty == store_type(kind),
{
    match kind {
        StoreKind::I32 | StoreKind::I32Store8 | StoreKind::I32Store16 => ValType::I32,
        StoreKind::I64
        | StoreKind::I64Store8
        | StoreKind::I64Store16
        | StoreKind::I64Store32 => ValType::I64,
        StoreKind::F32 => ValType::F32,
        StoreKind::F64 => ValType::F64,
    }
}

/// The bytes a store touches.
pub open spec fn store_bytes(kind: StoreKind) -> u32 {
    match kind {
        StoreKind::I32Store8 | StoreKind::I64Store8 => 1,
        StoreKind::I32Store16 | StoreKind::I64Store16 => 2,
        StoreKind::I32 | StoreKind::F32 | StoreKind::I64Store32 => 4,
        StoreKind::I64 | StoreKind::F64 => 8,
    }
}

/// The bytes a store touches.
pub fn width_of_store(kind: StoreKind) -> (width: u32)
    ensures
        width == store_bytes(kind),
{
    match kind {
        StoreKind::I32Store8 | StoreKind::I64Store8 => 1,
        StoreKind::I32Store16 | StoreKind::I64Store16 => 2,
        StoreKind::I32 | StoreKind::F32 | StoreKind::I64Store32 => 4,
        StoreKind::I64 | StoreKind::F64 => 8,
    }
}

/// What a local holds.
pub open spec fn held(walk: WalkModel, index: u32) -> Followed {
    if index == walk.frame.base_local {
        Followed::Frame(0)
    } else if walk.locals.contains_key(index) {
        walk.locals[index]
    } else {
        Followed::Other
    }
}

/// The slot at an offset, or a fresh one.
pub open spec fn slot_at(frame: FrameModel, offset: i32) -> Slot {
    if frame.slots.contains_key(offset) {
        frame.slots[offset]
    } else {
        fresh_slot()
    }
}

/// Where an access through the frame lands.
pub open spec fn frame_offset(at: i32, mem: MemArg) -> i32 {
    at.wrapping_add(mem.offset as i32)
}

/// The sum of two values: `frame + k` stays the frame, and the frame plus
/// anything else is somewhere in it.
pub open spec fn sum(left: Followed, right: Followed) -> Followed {
    match (left, right) {
        (Followed::Frame(at), Followed::Const(k)) => Followed::Frame(at.wrapping_add(k)),
        (Followed::Const(k), Followed::Frame(at)) => Followed::Frame(at.wrapping_add(k)),
        (Followed::Const(a), Followed::Const(b)) => Followed::Const(a.wrapping_add(b)),
        _ => if of_frame(left) || of_frame(right) {
            Followed::Derived
        } else {
            Followed::Other
        },
    }
}

/// The frame after a load from it.
pub open spec fn after_load(frame: FrameModel, address: Followed, kind: LoadKind, mem: MemArg) -> FrameModel {
    match address {
        Followed::Frame(at) => {
            let offset = frame_offset(at, mem);
            let slot = slot_at(frame, offset).observed(load_bytes(kind), kind.pushes());
            FrameModel {
                slots: frame.slots.insert(
                    offset,
                    Slot {
                        indirect: slot.indirect || at != 0,
                        reads: (slot.reads + 1) as usize,
                        ..slot
                    },
                ),
                ..frame
            }
        },
        _ => frame,
    }
}

/// The frame after a store, which may be to it or of its address.
pub open spec fn after_store(
    frame: FrameModel,
    address: Followed,
    value: Followed,
    kind: StoreKind,
    mem: MemArg,
) -> FrameModel {
    let known = FrameModel { escapes: frame.escapes || value is Frame, ..frame };
    match address {
        Followed::Frame(at) => {
            let offset = frame_offset(at, mem);
            let slot = slot_at(known, offset).observed(store_bytes(kind), store_type(kind));
            FrameModel {
                slots: known.slots.insert(
                    offset,
                    Slot {
                        indirect: slot.indirect || at != 0,
                        writes: (slot.writes + 1) as usize,
                        ..slot
                    },
                ),
                ..known
            }
        },
        Followed::Derived => FrameModel {
            computed_writes: (known.computed_writes + 1) as usize,
            ..known
        },
        _ => known,
    }
}

/// The walk after a value went into a local, and stayed on the stack or not.
///
/// A copy of the frame address is followed rather than given up on; reassigning
/// the base itself is where the frame is lost.
pub open spec fn assigned(walk: WalkModel, index: u32, tee: bool) -> WalkModel {
    let frame = walk.frame;
    let value = top(walk.stack);
    let stack = if tee {
        popped(walk.stack).push(value)
    } else {
        popped(walk.stack)
    };
    if index == frame.base_local {
        WalkModel { frame: FrameModel { escapes: true, ..frame }, stack, ..walk }
    } else {
        // Only a copy that could still reach a slot counts.
        let reaches = value is Frame && value->Frame_0 < frame.size;
        WalkModel {
            frame: FrameModel { copied: frame.copied || reaches, ..frame },
            stack,
            locals: walk.locals.insert(index, value),
        }
    }
}

/// The walk after an instruction, and whether it goes on.
pub open spec fn walked(walk: WalkModel, module: &Module, stack_pointer: u32, op: Op) -> (
    WalkModel,
    bool,
) {
    let frame = walk.frame;
    let stack = walk.stack;
    let gone = WalkModel { frame: FrameModel { escapes: true, ..frame }, ..walk };
    if is_flow(op) {
        // A local written on one path and read on another holds whatever the path
        // that ran put there, so what the locals hold is forgotten, and a frame
        // address among it has gone where it cannot be followed.
        if frame_in_top(stack, stack.len()) {
            (gone, false)
        } else {
            let lost = exists|index: u32| #[trigger]
                walk.locals.contains_key(index) && of_frame(walk.locals[index]);
            (
                WalkModel {
                    frame: FrameModel { escapes: frame.escapes || lost, ..frame },
                    stack: Seq::empty(),
                    locals: Map::empty(),
                },
                true,
            )
        }
    } else {
        match op {
            Op::LocalGet(index) => (
                WalkModel { stack: stack.push(held(walk, index)), ..walk },
                true,
            ),
            Op::GlobalGet(_) | Op::I64Const(_) | Op::F32Const(_) | Op::F64Const(_) => (
                WalkModel { stack: stack.push(Followed::Other), ..walk },
                true,
            ),
            Op::I32Const(value) => (
                WalkModel { stack: stack.push(Followed::Const(value)), ..walk },
                true,
            ),
            Op::Load { kind, mem } => (
                WalkModel {
                    frame: after_load(frame, top(stack), kind, mem),
                    stack: popped(stack).push(Followed::Other),
                    ..walk
                },
                true,
            ),
            Op::Store { kind, mem } => (
                WalkModel {
                    frame: after_store(frame, top(popped(stack)), top(stack), kind, mem),
                    stack: popped(popped(stack)),
                    ..walk
                },
                true,
            ),
            Op::LocalSet(index) => (assigned(walk, index, false), true),
            Op::LocalTee(index) => (assigned(walk, index, true), true),
            Op::Drop => (WalkModel { stack: popped(stack), ..walk }, true),
            Op::GlobalSet(index) => if index == stack_pointer {
                // The epilogue: `frame + size` written back to the stack pointer.
                (
                    WalkModel {
                        frame: FrameModel {
                            escapes: frame.escapes || top(stack) != Followed::Frame(frame.size),
                            ..frame
                        },
                        stack: popped(stack),
                        ..walk
                    },
                    true,
                )
            } else {
                (gone, false)
            },
            _ => if op == Op::Num(NumOp::I32Add) {
                let total = sum(top(popped(stack)), top(stack));
                (
                    WalkModel {
                        frame: FrameModel { escapes: frame.escapes || total is Derived, ..frame },
                        stack: popped(popped(stack)).push(total),
                        ..walk
                    },
                    true,
                )
            } else {
                match arity(module, op) {
                    Some((takes, makes)) => (
                        WalkModel {
                            frame: FrameModel {
                                escapes: frame.escapes || frame_in_top(stack, takes),
                                ..frame
                            },
                            stack: dropped(stack, takes) + Seq::new(
                                makes,
                                |i: int| Followed::Other,
                            ),
                            ..walk
                        },
                        true,
                    ),
                    None => (gone, false),
                }
            },
        }
    }
}

/// The walk through a body from `at` on.
pub open spec fn walk_from(
    walk: WalkModel,
    module: &Module,
    stack_pointer: u32,
    body: Seq<Op>,
    at: int,
) -> WalkModel
    decreases body.len() - at,
{
    if at < 0 || at >= body.len() {
        walk
    } else {
        let (next, on) = walked(walk, module, stack_pointer, body[at]);
        if on {
            walk_from(next, module, stack_pointer, body, at + 1)
        } else {
            next
        }
    }
}

/// A walk that is about to start.
pub open spec fn fresh_walk(prologue: Prologue) -> WalkModel {
    WalkModel {
        frame: FrameModel {
            size: prologue.size,
            base_local: prologue.base_local,
            slots: Map::empty(),
            escapes: false,
            publishes: prologue.publishes,
            computed_writes: 0,
            copied: false,
            prologue: prologue.length,
        },
        stack: Seq::empty(),
        locals: Map::empty(),
    }
}

/// The frame of a body, if it opens with a prologue on the stack pointer.
pub open spec fn frame_of(module: &Module, body: Seq<Op>, stack_pointer: u32) -> Option<FrameModel> {
    match prologue_of(body) {
        Some((global, prologue)) => if global == stack_pointer {
            Some(
                walk_from(
                    fresh_walk(prologue),
                    module,
                    stack_pointer,
                    body,
                    prologue.length as int,
                ).frame,
            )
        } else {
            None
        },
        None => None,
    }
}

/// A walk under way.
pub struct Walk {
    /// The frame so far.
    pub frame: Frame,
    /// The abstract operand stack.
    pub stack: Vec<Followed>,
    /// What each local holds.
    pub locals: BTreeMap<u32, Followed>,
}

impl View for Walk {
    type V = WalkModel;

    open spec fn view(&self) -> WalkModel {
        WalkModel { frame: self.frame@, stack: self.stack@, locals: self.locals@ }
    }
}

/// No count is past the number of instructions walked.
pub open spec fn counts_within(frame: FrameModel, n: int) -> bool {
    &&& frame.computed_writes <= n
    &&& forall|offset: i32| #[trigger]
        frame.slots.contains_key(offset) ==> frame.slots[offset].reads <= n
            && frame.slots[offset].writes <= n
}

fn is_control_flow(op: &Op) -> (yes: bool)
    ensures
        yes == is_flow(*op),
{
    match op {
        Op::Block(_)
        | Op::Loop(_)
        | Op::If(_)
        | Op::Else
        | Op::End
        | Op::Br(_)
        | Op::BrIf(_)
        | Op::BrTable { .. }
        | Op::Return
        | Op::Unreachable => true,
        _ => false,
    }
}

fn arity_of(module: &Module, op: &Op) -> (found: Option<(u128, usize)>)
    ensures
        match found {
            Some((takes, makes)) => arity(module, *op) == Some((takes as nat, makes as nat)),
            None => arity(module, *op) is None,
        },
{
    match op {
        Op::Nop | Op::DataDrop(_) => Some((0, 0)),
        Op::Num(num) => Some((num.operands().len() as u128, 1)),
        Op::Select => Some((3, 1)),
        Op::MemorySize => Some((0, 1)),
        Op::MemoryGrow => Some((1, 1)),
        Op::MemoryCopy | Op::MemoryFill | Op::MemoryInit(_) => Some((3, 0)),
        Op::CallIndirect { type_index } => {
            let at: usize = *type_index as usize;
            if at < module.types.len() {
                Some((module.types[at].params.len() as u128 + 1, module.types[at].results.len()))
            } else {
                None
            }
        },
        Op::Call(index) => match module.func_type(*index) {
            Some(ty) => Some((ty.params.len() as u128, ty.results.len())),
            None => None,
        },
        _ => None,
    }
}

impl Walk {
    fn pop(&mut self) -> (value: Followed)
        ensures
            value == top(old(self).stack@),
            final(self).stack@ == popped(old(self).stack@),
            final(self).frame == old(self).frame,
            final(self).locals == old(self).locals,
    {
        match self.stack.pop() {
            Some(value) => value,
            None => Followed::Other,
        }
    }

    /// Pops `count` values, marking the frame as escaping if any of them was the
    /// frame address.
    pub fn consume(&mut self, count: u128)
        ensures
            final(self).stack@ == dropped(old(self).stack@, count as nat),
            final(self).locals == old(self).locals,
            final(self).frame@ == (FrameModel {
                escapes: old(self).frame.escapes || frame_in_top(old(self).stack@, count as nat),
                ..old(self).frame@
            }),
    {
        let ghost whole = self.stack@;
        let ghost was = self.frame.escapes;
        let ghost frame = self.frame@;
        let mut n: u128 = 0;
        assert(dropped(whole, 0) =~= whole);
        while n < count && self.stack.len() > 0
            invariant
                n <= count,
                self.stack@ == dropped(whole, n as nat),
                self.locals == old(self).locals,
                self.frame@ == (FrameModel { escapes: self.frame.escapes, ..frame }),
                self.frame.escapes == (was || frame_in_top(whole, n as nat)),
            decreases count - n,
        {
            let ghost before = self.stack@;
            assert(before.last() == whole[before.len() - 1]);
            match self.stack.pop() {
                Some(Followed::Frame(_)) => {
                    self.frame.escapes = true;
                    assert(whole[before.len() - 1] is Frame);
                },
                _ => {},
            }
            proof {
                assert(self.stack@ =~= dropped(whole, (n + 1) as nat));
                assert forall|i: int|
                    0 <= i < whole.len() && whole.len() - (n + 1) <= i && (
                    #[trigger] whole[i]) is Frame implies i == before.len() - 1
                    || frame_in_top(whole, n as nat) by {
                    if i != before.len() - 1 {
                        assert(whole.len() - n <= i);
                    }
                }
                if frame_in_top(whole, n as nat) {
                    let i = choose|i: int|
                        0 <= i < whole.len() && whole.len() - n <= i && (
                        #[trigger] whole[i]) is Frame;
                    assert(whole[i] is Frame && whole.len() - (n + 1) <= i);
                }
            }
            n = n + 1;
        }
        proof {
            assert(self.stack@ =~= dropped(whole, count as nat));
            if frame_in_top(whole, count as nat) {
                let i = choose|i: int|
                    0 <= i < whole.len() && whole.len() - count <= i && (
                    #[trigger] whole[i]) is Frame;
                assert(whole.len() - n <= i);
            }
            if frame_in_top(whole, n as nat) {
                let i = choose|i: int|
                    0 <= i < whole.len() && whole.len() - n <= i && (#[trigger] whole[i]) is Frame;
                assert(whole[i] is Frame && whole.len() - count <= i);
            }
        }
    }

    fn push_others(&mut self, count: usize)
        ensures
            final(self).stack@ == old(self).stack@ + Seq::new(
                count as nat,
                |i: int| Followed::Other,
            ),
            final(self).locals == old(self).locals,
            final(self).frame == old(self).frame,
    {
        let ghost before = self.stack@;
        let mut n: usize = 0;
        assert(before + Seq::new(0, |i: int| Followed::Other) =~= before);
        while n < count
            invariant
                n <= count,
                self.stack@ == before + Seq::new(n as nat, |i: int| Followed::Other),
                self.locals == old(self).locals,
                self.frame == old(self).frame,
            decreases count - n,
        {
            self.stack.push(Followed::Other);
            n = n + 1;
            assert(self.stack@ =~= before + Seq::new(n as nat, |i: int| Followed::Other));
        }
    }

    /// Whether the frame address is anywhere on the stack.
    fn frame_on_stack(&self) -> (yes: bool)
        ensures
            yes == frame_in_top(self.stack@, self.stack@.len()),
    {
        let mut i: usize = 0;
        while i < self.stack.len()
            invariant
                i <= self.stack@.len(),
                forall|j: int| 0 <= j < i ==> !((#[trigger] self.stack@[j]) is Frame),
            decreases self.stack@.len() - i,
        {
            match self.stack[i] {
                Followed::Frame(_) => {
                    assert(self.stack@[i as int] is Frame);
                    return true;
                },
                _ => {},
            }
            i = i + 1;
        }
        false
    }

    /// Whether any local holds the frame address or something computed from it.
    fn frame_in_locals(&self) -> (yes: bool)
        ensures
            yes == exists|index: u32| #[trigger]
                self.locals@.contains_key(index) && of_frame(self.locals@[index]),
    {
        let indices: Vec<u32> = keys_u32(&self.locals);
        let mut i: usize = 0;
        while i < indices.len()
            invariant
                i <= indices@.len(),
                forall|index: u32| #[trigger]
                    indices@.contains(index) == self.locals@.contains_key(index),
                forall|j: int|
                    0 <= j < i ==> !of_frame(self.locals@[#[trigger] indices@[j]]),
            decreases indices@.len() - i,
        {
            assert(indices@.contains(indices@[i as int]));
            match self.locals.get(&indices[i]) {
                Some(Followed::Frame(_)) | Some(Followed::Derived) => {
                    assert(self.locals@.contains_key(indices@[i as int]) && of_frame(
                        self.locals@[indices@[i as int]],
                    ));
                    return true;
                },
                _ => {},
            }
            i = i + 1;
        }
        proof {
            assert forall|index: u32| #[trigger]
                self.locals@.contains_key(index) implies !of_frame(self.locals@[index]) by {
                assert(indices@.contains(index));
                let j = choose|j: int| 0 <= j < indices@.len() && indices@[j] == index;
                assert(!of_frame(self.locals@[indices@[j]]));
            }
        }
        false
    }

    fn load(&mut self, kind: LoadKind, mem: MemArg, n: Ghost<int>)
        requires
            counts_within(old(self).frame@, n@),
            n@ < usize::MAX,
        ensures
            final(self).frame@ == after_load(old(self).frame@, top(old(self).stack@), kind, mem),
            final(self).stack@ == popped(old(self).stack@).push(Followed::Other),
            final(self).locals == old(self).locals,
            counts_within(final(self).frame@, n@ + 1),
    {
        let address: Followed = self.pop();
        if let Followed::Frame(at) = address {
            let offset: i32 = at.wrapping_add(mem.offset as i32);
            let mut slot: Slot = match self.frame.slots.get(&offset) {
                Some(slot) => *slot,
                None => Slot::default(),
            };
            slot.observe(width_of_load(kind), kind.result());
            slot.indirect = slot.indirect || at != 0;
            slot.reads = slot.reads + 1;
            self.frame.slots.insert(offset, slot);
        }
        self.stack.push(Followed::Other);
    }

    fn store(&mut self, kind: StoreKind, mem: MemArg, n: Ghost<int>)
        requires
            counts_within(old(self).frame@, n@),
            n@ < usize::MAX,
        ensures
            final(self).frame@ == after_store(
                old(self).frame@,
                top(popped(old(self).stack@)),
                top(old(self).stack@),
                kind,
                mem,
            ),
            final(self).stack@ == popped(popped(old(self).stack@)),
            final(self).locals == old(self).locals,
            counts_within(final(self).frame@, n@ + 1),
    {
        let value: Followed = self.pop();
        let address: Followed = self.pop();
        if let Followed::Frame(_) = value {
            self.frame.escapes = true;
        }
        match address {
            Followed::Frame(at) => {
                let offset: i32 = at.wrapping_add(mem.offset as i32);
                let mut slot: Slot = match self.frame.slots.get(&offset) {
                    Some(slot) => *slot,
                    None => Slot::default(),
                };
                slot.observe(width_of_store(kind), type_of_store(kind));
                slot.indirect = slot.indirect || at != 0;
                slot.writes = slot.writes + 1;
                self.frame.slots.insert(offset, slot);
            },
            Followed::Derived => {
                self.frame.computed_writes = self.frame.computed_writes + 1;
            },
            _ => {},
        }
    }

    fn add(&mut self)
        ensures
            ({
                let total = sum(top(popped(old(self).stack@)), top(old(self).stack@));
                &&& final(self).frame@ == (FrameModel {
                    escapes: old(self).frame.escapes || total is Derived,
                    ..old(self).frame@
                })
                &&& final(self).stack@ == popped(popped(old(self).stack@)).push(total)
            }),
            final(self).locals == old(self).locals,
    {
        let right: Followed = self.pop();
        let left: Followed = self.pop();
        let total: Followed = match (left, right) {
            (Followed::Frame(at), Followed::Const(k)) => Followed::Frame(at.wrapping_add(k)),
            (Followed::Const(k), Followed::Frame(at)) => Followed::Frame(at.wrapping_add(k)),
            (Followed::Const(a), Followed::Const(b)) => Followed::Const(a.wrapping_add(b)),
            (Followed::Frame(_), _) | (Followed::Derived, _) | (_, Followed::Frame(_)) | (
                _,
                Followed::Derived,
            ) => Followed::Derived,
            _ => Followed::Other,
        };
        if let Followed::Derived = total {
            self.frame.escapes = true;
        }
        self.stack.push(total);
    }

    fn assign(&mut self, index: u32, tee: bool)
        ensures
            final(self)@ == assigned(old(self)@, index, tee),
    {
        let value: Followed = self.pop();
        if index == self.frame.base_local {
            self.frame.escapes = true;
        } else {
            if let Followed::Frame(at) = value {
                if at < self.frame.size {
                    self.frame.copied = true;
                }
            }
            self.locals.insert(index, value);
        }
        if tee {
            self.stack.push(value);
        }
    }

    /// Walks over one instruction, and says whether to go on.
    fn step(&mut self, module: &Module, stack_pointer: u32, op: &Op, n: Ghost<int>) -> (on: bool)
        requires
            counts_within(old(self).frame@, n@),
            n@ < usize::MAX,
        ensures
            (final(self)@, on) == walked(old(self)@, module, stack_pointer, *op),
            counts_within(final(self).frame@, n@ + 1),
    {
        if is_control_flow(op) {
            if self.frame_on_stack() {
                self.frame.escapes = true;
                return false;
            }
            if self.frame_in_locals() {
                self.frame.escapes = true;
            }
            self.locals.clear();
            self.stack.clear();
            assert(self.stack@ =~= Seq::empty());
            return true;
        }
        match op {
            Op::LocalGet(index) => {
                let value: Followed = if *index == self.frame.base_local {
                    Followed::Frame(0)
                } else {
                    match self.locals.get(index) {
                        Some(value) => *value,
                        None => Followed::Other,
                    }
                };
                self.stack.push(value);
                true
            },
            Op::GlobalGet(_) | Op::I64Const(_) | Op::F32Const(_) | Op::F64Const(_) => {
                self.stack.push(Followed::Other);
                true
            },
            Op::I32Const(value) => {
                self.stack.push(Followed::Const(*value));
                true
            },
            Op::Load { kind, mem } => {
                self.load(*kind, *mem, n);
                true
            },
            Op::Store { kind, mem } => {
                self.store(*kind, *mem, n);
                true
            },
            Op::LocalSet(index) => {
                self.assign(*index, false);
                true
            },
            Op::LocalTee(index) => {
                self.assign(*index, true);
                true
            },
            Op::Drop => {
                let _ = self.pop();
                true
            },
            Op::GlobalSet(index) => {
                if *index == stack_pointer {
                    let value: Followed = self.pop();
                    if value != Followed::Frame(self.frame.size) {
                        self.frame.escapes = true;
                    }
                    true
                } else {
                    self.frame.escapes = true;
                    false
                }
            },
            other => {
                if is_num(other, NumOp::I32Add) {
                    self.add();
                    return true;
                }
                match arity_of(module, other) {
                    Some((takes, makes)) => {
                        self.consume(takes);
                        self.push_others(makes);
                        true
                    },
                    None => {
                        self.frame.escapes = true;
                        false
                    },
                }
            },
        }
    }
}

/// A frame, if there is one, as its model.
pub open spec fn frame_view(frame: Option<Frame>) -> Option<FrameModel> {
    match frame {
        Some(frame) => Some(frame@),
        None => None,
    }
}

/// Reads one function's frame.
///
/// The walk is a small abstract interpretation: it tracks which stack entries
/// are the frame address and watches what happens to them. Anything it cannot
/// model exactly sets `escapes` and stops claiming to know: a frame wrongly
/// marked as escaping costs a missed annotation, while one wrongly marked as
/// contained would be a false statement about the code.
pub fn read_frame(module: &Module, body: &Vec<Op>, stack_pointer: u32) -> (frame: Option<Frame>)
    ensures
        frame_view(frame) == frame_of(module, body@, stack_pointer),
{
    let prologue: Prologue = match match_prologue(body) {
        Some((global, prologue)) => if global == stack_pointer {
            prologue
        } else {
            return None;
        },
        None => {
            return None;
        },
    };
    let mut walk: Walk = Walk {
        frame: Frame {
            size: prologue.size,
            base_local: prologue.base_local,
            slots: BTreeMap::new(),
            escapes: false,
            publishes: prologue.publishes,
            computed_writes: 0,
            copied: false,
            prologue: prologue.length,
        },
        stack: Vec::new(),
        locals: BTreeMap::new(),
    };
    let ghost start = walk@;
    assert(start.stack =~= fresh_walk(prologue).stack);
    let mut at: usize = prologue.length;
    while at < body.len()
        invariant
            prologue.length <= at <= body@.len(),
            prologue_of(body@) == Some((stack_pointer, prologue)),
            counts_within(walk.frame@, at as int),
            walk_from(
                fresh_walk(prologue),
                module,
                stack_pointer,
                body@,
                prologue.length as int,
            ) == walk_from(walk@, module, stack_pointer, body@, at as int),
        decreases body@.len() - at,
    {
        if !walk.step(module, stack_pointer, &body[at], Ghost(at as int)) {
            return Some(walk.frame);
        }
        at = at + 1;
    }
    Some(walk.frame)
}

} // verus!
