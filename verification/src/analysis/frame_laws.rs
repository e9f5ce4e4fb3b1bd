//! What holds of every stack frame that is read.

use vstd::prelude::*;
use crate::analysis::frames::{
    frame_of, fresh_walk, of_frame, promotable, prologue_of, walk_from, walked, Followed,
    FrameModel, Prologue, Slot, WalkModel,
};
use crate::analysis::machine::{
    below, decides, effect, lemma_same_address, runs, runs_through, same_address, Machine,
};
use crate::module::types::{LoadKind, MemArg, Module, Op, StoreKind, ValType};
use crate::ops::table::NumOp;

verus! {

// ---- accesses ----

/// Whether an instruction reads memory or writes it, how wide, of which type, and where.
pub struct Reach {
    /// Whether it reads.
    pub load: bool,
    /// Bytes.
    pub width: u32,
    /// The type of the value.
    pub ty: ValType,
    /// The offset it carries.
    pub mem: MemArg,
}

/// What a load or a store reaches.
pub open spec fn reach(op: Op) -> Option<Reach> {
    match op {
        Op::Load { kind, mem } => {
            let (width, ty) = match kind {
                LoadKind::I32 => (4u32, ValType::I32),
                LoadKind::I64 => (8u32, ValType::I64),
                LoadKind::F32 => (4u32, ValType::F32),
                LoadKind::F64 => (8u32, ValType::F64),
                LoadKind::I32Load8S => (1u32, ValType::I32),
                LoadKind::I32Load8U => (1u32, ValType::I32),
                LoadKind::I32Load16S => (2u32, ValType::I32),
                LoadKind::I32Load16U => (2u32, ValType::I32),
                LoadKind::I64Load8S => (1u32, ValType::I64),
                LoadKind::I64Load8U => (1u32, ValType::I64),
                LoadKind::I64Load16S => (2u32, ValType::I64),
                LoadKind::I64Load16U => (2u32, ValType::I64),
                LoadKind::I64Load32S => (4u32, ValType::I64),
                LoadKind::I64Load32U => (4u32, ValType::I64),
            };
            Some(Reach { load: true, width, ty, mem })
        },
        Op::Store { kind, mem } => {
            let (width, ty) = match kind {
                StoreKind::I32 => (4u32, ValType::I32),
                StoreKind::I64 => (8u32, ValType::I64),
                StoreKind::F32 => (4u32, ValType::F32),
                StoreKind::F64 => (8u32, ValType::F64),
                StoreKind::I32Store8 => (1u32, ValType::I32),
                StoreKind::I32Store16 => (2u32, ValType::I32),
                StoreKind::I64Store8 => (1u32, ValType::I64),
                StoreKind::I64Store16 => (2u32, ValType::I64),
                StoreKind::I64Store32 => (4u32, ValType::I64),
            };
            Some(Reach { load: false, width, ty, mem })
        },
        _ => None,
    }
}

/// What is known after the first `n` instructions of a body, where the walk gets that
/// far.
pub open spec fn walk_to(
    module: &Module,
    sp: u32,
    body: Seq<Op>,
    prologue: Prologue,
    n: int,
) -> Option<WalkModel>
    decreases n,
{
    if n <= prologue.length {
        Some(fresh_walk(prologue))
    } else {
        match walk_to(module, sp, body, prologue, n - 1) {
            None => None,
            Some(walk) => {
                let (next, on) = walked(walk, module, sp, body[n - 1]);
                if on {
                    Some(next)
                } else {
                    None
                }
            },
        }
    }
}

/// An access that lands in the frame.
pub struct Landing {
    /// The offset it lands at.
    pub offset: i32,
    /// What was added to the base before.
    pub at: i32,
    /// What it reaches.
    pub reach: Reach,
}

/// Where the `n`th instruction lands in the frame: it is a load or a store whose address
/// is known to be the base plus a number.
#[verifier::opaque]
pub open spec fn lands(
    module: &Module,
    sp: u32,
    body: Seq<Op>,
    prologue: Prologue,
    n: int,
) -> Option<Landing> {
    match (walk_to(module, sp, body, prologue, n), reach(body[n])) {
        (Some(walk), Some(reach)) => {
            let depth = if reach.load {
                1int
            } else {
                2int
            };
            if depth <= walk.stack.len() && walk.stack[walk.stack.len() - depth] is Frame {
                let at = walk.stack[walk.stack.len() - depth]->Frame_0;
                Some(Landing { offset: at.wrapping_add(reach.mem.offset as i32), at, reach })
            } else {
                None
            }
        },
        _ => None,
    }
}

/// Whether the `n`th instruction lands at an offset.
pub open spec fn lands_at(
    module: &Module,
    sp: u32,
    body: Seq<Op>,
    prologue: Prologue,
    n: int,
    offset: i32,
) -> bool {
    match lands(module, sp, body, prologue, n) {
        Some(landing) => landing.offset == offset,
        None => false,
    }
}

/// How many of the first `n` instructions read an offset of the frame, or write it.
pub open spec fn landings(
    module: &Module,
    sp: u32,
    body: Seq<Op>,
    prologue: Prologue,
    n: int,
    offset: i32,
    load: bool,
) -> nat
    decreases n,
{
    if n <= 0 {
        0
    } else {
        landings(module, sp, body, prologue, n - 1, offset, load) + if lands_at(
            module,
            sp,
            body,
            prologue,
            n - 1,
            offset,
        ) && lands(module, sp, body, prologue, n - 1)->0.reach.load == load {
            1nat
        } else {
            0
        }
    }
}

/// Whether the slots say of an offset what the first `n` instructions do there.
pub open spec fn sums_up(
    module: &Module,
    sp: u32,
    body: Seq<Op>,
    prologue: Prologue,
    slots: Map<i32, Slot>,
    n: int,
    offset: i32,
) -> bool {
    &&& slots.contains_key(offset) == exists|k: int|
        0 <= k < n && #[trigger] lands_at(module, sp, body, prologue, k, offset)
    &&& slots.contains_key(offset) ==> {
        let slot = slots[offset];
        &&& slot.mixed == slot.uniform is None
        &&& slot.reads == landings(module, sp, body, prologue, n, offset, true)
        &&& slot.writes == landings(module, sp, body, prologue, n, offset, false)
        &&& forall|k: int|
            0 <= k < n && #[trigger] lands_at(module, sp, body, prologue, k, offset) ==> {
                let landing = lands(module, sp, body, prologue, k)->0;
                &&& landing.reach.width <= slot.width
                &&& slot.uniform is Some ==> slot.uniform->0 == (
                    landing.reach.width,
                    landing.reach.ty,
                )
                &&& landing.at != 0 ==> slot.indirect
            }
        &&& slot.mixed ==> exists|j: int, k: int|
            0 <= j < n && 0 <= k < n && #[trigger] lands_at(module, sp, body, prologue, j, offset)
                && #[trigger] lands_at(module, sp, body, prologue, k, offset) && disagree(
                lands(module, sp, body, prologue, j)->0.reach,
                lands(module, sp, body, prologue, k)->0.reach,
            )
        &&& slot.indirect ==> exists|k: int|
            0 <= k < n && #[trigger] lands_at(module, sp, body, prologue, k, offset) && lands(
                module,
                sp,
                body,
                prologue,
                k,
            )->0.at != 0
        &&& exists|k: int|
            0 <= k < n && #[trigger] lands_at(module, sp, body, prologue, k, offset) && lands(
                module,
                sp,
                body,
                prologue,
                k,
            )->0.reach.width == slot.width
    }
}

/// Whether two accesses are not of one width and type.
pub open spec fn disagree(a: Reach, b: Reach) -> bool {
    a.width != b.width || a.ty != b.ty
}

/// There are no more landings than instructions.
proof fn lemma_landings(
    module: &Module,
    sp: u32,
    body: Seq<Op>,
    prologue: Prologue,
    n: int,
    offset: i32,
    load: bool,
)
    requires
        0 <= n,
    ensures
        landings(module, sp, body, prologue, n, offset, load) <= n,
    decreases n,
{
    if n > 0 {
        lemma_landings(module, sp, body, prologue, n - 1, offset, load);
    }
}

/// Whether slots are what they were with one more access, where there was one.
spec fn updates(slots: Map<i32, Slot>, after: Map<i32, Slot>, landing: Option<Landing>) -> bool {
    match landing {
        None => after == slots,
        Some(landing) => {
            let now = after[landing.offset];
            let wide = landing.reach.width;
            let one_way = Some((wide, landing.reach.ty));
            &&& after == slots.insert(landing.offset, now)
            &&& if slots.contains_key(landing.offset) {
                let was = slots[landing.offset];
                &&& now.width == if was.width < wide {
                    wide
                } else {
                    was.width
                }
                &&& now.reads == (was.reads + if landing.reach.load {
                    1int
                } else {
                    0
                }) as usize
                &&& now.writes == (was.writes + if landing.reach.load {
                    0int
                } else {
                    1
                }) as usize
                &&& now.indirect == (was.indirect || landing.at != 0)
                &&& was.mixed ==> now.mixed && now.uniform == was.uniform
                &&& !was.mixed && was.uniform is None ==> !now.mixed && now.uniform == one_way
                &&& !was.mixed && was.uniform is Some && was.uniform == one_way ==> !now.mixed
                    && now.uniform == one_way
                &&& !was.mixed && was.uniform is Some && was.uniform != one_way ==> now.mixed
                    && now.uniform is None
            } else {
                &&& now.width == wide
                &&& now.reads == if landing.reach.load {
                    1int
                } else {
                    0
                }
                &&& now.writes == if landing.reach.load {
                    0int
                } else {
                    1
                }
                &&& now.indirect == (landing.at != 0)
                &&& !now.mixed
                &&& now.uniform == one_way
            }
        },
    }
}

/// What an instruction does to the slots.
proof fn lemma_slots(
    module: &Module,
    sp: u32,
    body: Seq<Op>,
    prologue: Prologue,
    n: int,
)
    requires
        prologue.length <= n < body.len(),
        walk_to(module, sp, body, prologue, n) is Some,
    ensures
        updates(
            walk_to(module, sp, body, prologue, n)->0.frame.slots,
            walked(walk_to(module, sp, body, prologue, n)->0, module, sp, body[n]).0.frame.slots,
            lands(module, sp, body, prologue, n),
        ),
{
    reveal(lands);
    let walk = walk_to(module, sp, body, prologue, n)->0;
    let next = walked(walk, module, sp, body[n]).0;
    match lands(module, sp, body, prologue, n) {
        None => {},
        Some(landing) => {
            assert(next.frame.slots =~= walk.frame.slots.insert(
                landing.offset,
                next.frame.slots[landing.offset],
            ));
        },
    }
}

/// One more instruction is summed up too.
proof fn lemma_sums_up_next(
    module: &Module,
    sp: u32,
    body: Seq<Op>,
    prologue: Prologue,
    slots: Map<i32, Slot>,
    after: Map<i32, Slot>,
    n: int,
    offset: i32,
)
    requires
        0 <= n < usize::MAX,
        updates(slots, after, lands(module, sp, body, prologue, n)),
        sums_up(module, sp, body, prologue, slots, n, offset),
    ensures
        sums_up(module, sp, body, prologue, after, n + 1, offset),
{
    lemma_landings(module, sp, body, prologue, n, offset, true);
    lemma_landings(module, sp, body, prologue, n, offset, false);
    if slots.contains_key(offset) {
        let k = choose|k: int|
            0 <= k < n && #[trigger] lands_at(module, sp, body, prologue, k, offset) && lands(
                module,
                sp,
                body,
                prologue,
                k,
            )->0.reach.width == slots[offset].width;
        assert(lands_at(module, sp, body, prologue, k, offset));
        if slots[offset].mixed {
            let (i, j) = choose|i: int, j: int|
                0 <= i < n && 0 <= j < n && #[trigger] lands_at(
                    module,
                    sp,
                    body,
                    prologue,
                    i,
                    offset,
                ) && #[trigger] lands_at(module, sp, body, prologue, j, offset) && disagree(
                    lands(module, sp, body, prologue, i)->0.reach,
                    lands(module, sp, body, prologue, j)->0.reach,
                );
            assert(lands_at(module, sp, body, prologue, i, offset));
            assert(lands_at(module, sp, body, prologue, j, offset));
        } else if lands_at(module, sp, body, prologue, n, offset) && disagree(
            lands(module, sp, body, prologue, k)->0.reach,
            lands(module, sp, body, prologue, n)->0.reach,
        ) {
            assert(after[offset].mixed);
            assert(lands_at(module, sp, body, prologue, k, offset) && lands_at(
                module,
                sp,
                body,
                prologue,
                n,
                offset,
            ));
        }
        if slots[offset].indirect {
            let k = choose|k: int|
                0 <= k < n && #[trigger] lands_at(module, sp, body, prologue, k, offset) && lands(
                    module,
                    sp,
                    body,
                    prologue,
                    k,
                )->0.at != 0;
            assert(lands_at(module, sp, body, prologue, k, offset));
        }
    } else {
        lemma_none_before(module, sp, body, prologue, n, offset, true);
        lemma_none_before(module, sp, body, prologue, n, offset, false);
    }
    if lands_at(module, sp, body, prologue, n, offset) {
        assert(after.contains_key(offset));
    } else {
        assert(after.contains_key(offset) == slots.contains_key(offset));
        assert(slots.contains_key(offset) ==> after[offset] == slots[offset]);
    }
}

/// What nothing landed at was landed at no times.
proof fn lemma_none_before(
    module: &Module,
    sp: u32,
    body: Seq<Op>,
    prologue: Prologue,
    n: int,
    offset: i32,
    load: bool,
)
    requires
        forall|k: int|
            0 <= k < n ==> !#[trigger] lands_at(module, sp, body, prologue, k, offset),
    ensures
        landings(module, sp, body, prologue, n, offset, load) == 0,
    decreases n,
{
    if n > 0 {
        lemma_none_before(module, sp, body, prologue, n - 1, offset, load);
    }
}

/// Nothing lands in the frame before the prologue has ended.
proof fn lemma_nothing_yet(
    module: &Module,
    sp: u32,
    body: Seq<Op>,
    prologue: Prologue,
    n: int,
    offset: i32,
)
    requires
        0 <= n <= prologue.length,
    ensures
        sums_up(module, sp, body, prologue, fresh_walk(prologue).frame.slots, n, offset),
{
    reveal(lands);
}

/// As far as the walk gets, its slots sum up what it passed.
proof fn lemma_sums_up(
    module: &Module,
    sp: u32,
    body: Seq<Op>,
    prologue: Prologue,
    n: int,
    offset: i32,
)
    requires
        prologue.length <= n <= body.len() <= usize::MAX,
        walk_to(module, sp, body, prologue, n) is Some,
    ensures
        sums_up(
            module,
            sp,
            body,
            prologue,
            walk_to(module, sp, body, prologue, n)->0.frame.slots,
            n,
            offset,
        ),
    decreases n,
{
    if n == prologue.length {
        lemma_nothing_yet(module, sp, body, prologue, n, offset);
    } else {
        lemma_sums_up(module, sp, body, prologue, n - 1, offset);
        lemma_slots(module, sp, body, prologue, n - 1);
        let before = walk_to(module, sp, body, prologue, n - 1)->0.frame.slots;
        let after = walk_to(module, sp, body, prologue, n)->0.frame.slots;
        lemma_sums_up_next(module, sp, body, prologue, before, after, n - 1, offset);
    }
}

/// A walk that stops leaves the slots as they are, and says that the frame escapes.
proof fn lemma_stops(
    module: &Module,
    sp: u32,
    body: Seq<Op>,
    prologue: Prologue,
    n: int,
    m: int,
)
    requires
        n < m,
        prologue.length <= n,
        walk_to(module, sp, body, prologue, n) is Some,
        !walked(walk_to(module, sp, body, prologue, n)->0, module, sp, body[n]).1,
    ensures
        walk_to(module, sp, body, prologue, m) is None,
    decreases m,
{
    if m > n + 1 {
        lemma_stops(module, sp, body, prologue, n, m - 1);
    }
}

/// The frame is what the walk says in the end, or where it stopped.
proof fn lemma_to_the_end(
    module: &Module,
    sp: u32,
    body: Seq<Op>,
    prologue: Prologue,
    n: int,
    offset: i32,
)
    requires
        prologue.length <= n <= body.len() <= usize::MAX,
        walk_to(module, sp, body, prologue, n) is Some,
    ensures
        ({
            let walk = walk_to(module, sp, body, prologue, n)->0;
            let frame = walk_from(walk, module, sp, body, n).frame;
            let end = walk_to(module, sp, body, prologue, body.len() as int);
            &&& sums_up(module, sp, body, prologue, frame.slots, body.len() as int, offset)
            &&& end is Some ==> frame == end->0.frame
            &&& end is None ==> frame.escapes
        }),
    decreases body.len() - n,
{
    let walk = walk_to(module, sp, body, prologue, n)->0;
    let frame = walk_from(walk, module, sp, body, n).frame;
    if n == body.len() {
        lemma_sums_up(module, sp, body, prologue, n, offset);
    } else {
        let (next, on) = walked(walk, module, sp, body[n]);
        if on {
            assert(walk_to(module, sp, body, prologue, n + 1) == Some(next));
            lemma_to_the_end(module, sp, body, prologue, n + 1, offset);
        } else {
            lemma_stops(module, sp, body, prologue, n, body.len() as int);
            lemma_sums_up(module, sp, body, prologue, n, offset);
            lemma_slots(module, sp, body, prologue, n);
            assert(frame == next.frame);
            let slots = walk.frame.slots;
            lemma_sums_up_next(module, sp, body, prologue, slots, frame.slots, n, offset);
            lemma_sums_up_rest(module, sp, body, prologue, frame.slots, n, body.len() as int, offset);
        }
    }
}

/// After a walk has stopped nothing more lands.
#[verifier::rlimit(40)]
proof fn lemma_sums_up_rest(
    module: &Module,
    sp: u32,
    body: Seq<Op>,
    prologue: Prologue,
    slots: Map<i32, Slot>,
    n: int,
    m: int,
    offset: i32,
)
    requires
        prologue.length <= n < m <= body.len(),
        walk_to(module, sp, body, prologue, n) is Some,
        !walked(walk_to(module, sp, body, prologue, n)->0, module, sp, body[n]).1,
        sums_up(module, sp, body, prologue, slots, n + 1, offset),
    ensures
        sums_up(module, sp, body, prologue, slots, m, offset),
    decreases m,
{
    if m > n + 1 {
        lemma_sums_up_rest(module, sp, body, prologue, slots, n, m - 1, offset);
        lemma_stops(module, sp, body, prologue, n, m - 1);
        reveal(lands);
        assert(!lands_at(module, sp, body, prologue, m - 1, offset));
    }
}

/// The slots of a frame are where its accesses land, and say how: how often each is read
/// and written, how wide the widest access is, whether any of them went through
/// arithmetic, and whether all of them are of one width and type. It is `mixed` where two
/// of them disagree, and only then.
pub proof fn slots_sum_up_the_accesses(
    module: &Module,
    body: Seq<Op>,
    sp: u32,
    prologue: Prologue,
    offset: i32,
)
    requires
        body.len() <= usize::MAX,
        prologue_of(body) == Some((sp, prologue)),
    ensures
        frame_of(module, body, sp) is Some,
        sums_up(
            module,
            sp,
            body,
            prologue,
            frame_of(module, body, sp)->0.slots,
            body.len() as int,
            offset,
        ),
{
    lemma_prologue_inside(body);
    lemma_to_the_end(module, sp, body, prologue, prologue.length as int, offset);
}

/// A prologue lies inside its body.
proof fn lemma_prologue_inside(body: Seq<Op>)
    requires
        prologue_of(body) is Some,
    ensures
        0 < (prologue_of(body)->0).1.length <= body.len() || body.len() > usize::MAX,
        (prologue_of(body)->0).1.size > 0,
{
}

/// A slot is of one width and type only where every load and store of the body that
/// lands there is of that width and type.
pub proof fn a_uniform_slot_is_accessed_one_way(
    module: &Module,
    body: Seq<Op>,
    sp: u32,
    prologue: Prologue,
    offset: i32,
    n: int,
)
    requires
        body.len() <= usize::MAX,
        prologue_of(body) == Some((sp, prologue)),
        0 <= n < body.len(),
        lands_at(module, sp, body, prologue, n, offset),
    ensures
        ({
            let frame = frame_of(module, body, sp)->0;
            let landing = lands(module, sp, body, prologue, n)->0;
            &&& frame.slots.contains_key(offset)
            &&& frame.slots[offset].uniform is Some ==> frame.slots[offset].uniform->0 == (
                landing.reach.width,
                landing.reach.ty,
            )
        }),
{
    slots_sum_up_the_accesses(module, body, sp, prologue, offset);
}

/// A slot that could become a variable is accessed with one width and one type
/// throughout the body, straight from the base, and lies inside the frame.
pub proof fn a_promoted_slot_is_one_variable(
    module: &Module,
    body: Seq<Op>,
    sp: u32,
    prologue: Prologue,
    offset: i32,
    m: int,
    n: int,
)
    requires
        body.len() <= usize::MAX,
        prologue_of(body) == Some((sp, prologue)),
        promotable(frame_of(module, body, sp)->0, body, offset),
        0 <= m < body.len(),
        0 <= n < body.len(),
        lands_at(module, sp, body, prologue, m, offset),
        lands_at(module, sp, body, prologue, n, offset),
    ensures
        ({
            let one = lands(module, sp, body, prologue, m)->0;
            let other = lands(module, sp, body, prologue, n)->0;
            &&& one.reach.width == other.reach.width
            &&& one.reach.ty == other.reach.ty
            &&& one.at == 0
            &&& 0 <= offset
            &&& offset + one.reach.width <= i32::MAX ==> offset + one.reach.width <= prologue.size
        }),
{
    slots_sum_up_the_accesses(module, body, sp, prologue, offset);
    a_uniform_slot_is_accessed_one_way(module, body, sp, prologue, offset, m);
    a_uniform_slot_is_accessed_one_way(module, body, sp, prologue, offset, n);
    lemma_kept_to_the_end(module, sp, body, prologue, prologue.length as int);
}

/// A slot that could become a variable shares no byte with any other slot of the frame,
/// whether or not that could become one too.
pub proof fn a_promoted_slot_overlaps_no_other(
    frame: FrameModel,
    body: Seq<Op>,
    offset: i32,
    other: i32,
)
    requires
        promotable(frame, body, offset),
        frame.slots.contains_key(other),
        other != offset,
    ensures
        ({
            let width = (frame.slots[offset].uniform->0).0;
            ||| offset + width <= other
            ||| other + frame.slots[other].width <= offset && other < offset
        }),
{
}

/// A slot could become a variable wherever nothing forbids it: the address of the frame
/// goes nowhere, was not copied and is not computed with, no instruction writes a range of
/// memory, and the slot is of one width and type, is reached straight from the base, lies
/// inside the frame, and shares no byte with another.
pub proof fn what_nothing_forbids_is_promoted(frame: FrameModel, body: Seq<Op>, offset: i32)
    requires
        !frame.escapes,
        !frame.copied,
        frame.computed_writes == 0,
        forall|i: int|
            0 <= i < body.len() ==> !((#[trigger] body[i]) is MemoryFill || body[i] is MemoryCopy
                || body[i] is MemoryInit),
        frame.slots.contains_key(offset),
        !frame.slots[offset].indirect,
        frame.slots[offset].uniform is Some,
        0 <= offset,
        offset + (frame.slots[offset].uniform->0).0 <= frame.size,
        forall|other: i32| #[trigger]
            frame.slots.contains_key(other) && other != offset ==> offset + (
            frame.slots[offset].uniform->0).0 <= other || other + frame.slots[other].width <= offset
                && other < offset,
    ensures
        promotable(frame, body, offset),
{
}

/// An instruction that writes a range of memory keeps every slot in memory.
pub proof fn a_range_write_keeps_every_slot_in_memory(
    frame: FrameModel,
    body: Seq<Op>,
    offset: i32,
    i: int,
)
    requires
        0 <= i < body.len(),
        body[i] is MemoryFill || body[i] is MemoryCopy || body[i] is MemoryInit,
    ensures
        !promotable(frame, body, offset),
{
    assert(crate::analysis::frames::writes_a_range(body[i]));
}

// ---- what stays as it is ----

/// What a walk keeps from one point to a later one.
pub open spec fn kept(before: FrameModel, after: FrameModel) -> bool {
    &&& after.size == before.size
    &&& after.base_local == before.base_local
    &&& after.publishes == before.publishes
    &&& after.prologue == before.prologue
    &&& before.escapes ==> after.escapes
    &&& before.copied ==> after.copied
    &&& before.computed_writes <= after.computed_writes
}

proof fn lemma_counts(
    module: &Module,
    sp: u32,
    body: Seq<Op>,
    prologue: Prologue,
    n: int,
)
    requires
        0 <= n <= body.len() <= usize::MAX,
        walk_to(module, sp, body, prologue, n) is Some,
    ensures
        walk_to(module, sp, body, prologue, n)->0.frame.computed_writes <= n,
    decreases n,
{
    if n > prologue.length {
        lemma_counts(module, sp, body, prologue, n - 1);
    }
}

proof fn lemma_kept_next(
    module: &Module,
    sp: u32,
    body: Seq<Op>,
    prologue: Prologue,
    n: int,
)
    requires
        prologue.length <= n < body.len() <= usize::MAX,
        walk_to(module, sp, body, prologue, n) is Some,
    ensures
        kept(
            walk_to(module, sp, body, prologue, n)->0.frame,
            walked(walk_to(module, sp, body, prologue, n)->0, module, sp, body[n]).0.frame,
        ),
{
    lemma_counts(module, sp, body, prologue, n);
}

proof fn lemma_kept_to_the_end(
    module: &Module,
    sp: u32,
    body: Seq<Op>,
    prologue: Prologue,
    n: int,
)
    requires
        prologue.length <= n <= body.len() <= usize::MAX,
        walk_to(module, sp, body, prologue, n) is Some,
    ensures
        kept(
            walk_to(module, sp, body, prologue, n)->0.frame,
            walk_from(walk_to(module, sp, body, prologue, n)->0, module, sp, body, n).frame,
        ),
    decreases body.len() - n,
{
    if n < body.len() {
        lemma_kept_next(module, sp, body, prologue, n);
        let walk = walk_to(module, sp, body, prologue, n)->0;
        let (next, on) = walked(walk, module, sp, body[n]);
        if on {
            assert(walk_to(module, sp, body, prologue, n + 1) == Some(next));
            lemma_kept_to_the_end(module, sp, body, prologue, n + 1);
        }
    }
}

/// A walk that gets somewhere got everywhere before.
proof fn lemma_got_there(
    module: &Module,
    sp: u32,
    body: Seq<Op>,
    prologue: Prologue,
    n: int,
    m: int,
)
    requires
        prologue.length <= n <= m,
        walk_to(module, sp, body, prologue, m) is Some,
    ensures
        walk_to(module, sp, body, prologue, n) is Some,
    decreases m - n,
{
    if n < m {
        lemma_got_there(module, sp, body, prologue, n, m - 1);
    }
}

/// The frame is the same from wherever the walk goes on.
proof fn lemma_same_frame(
    module: &Module,
    sp: u32,
    body: Seq<Op>,
    prologue: Prologue,
    n: int,
)
    requires
        prologue.length <= n <= body.len() <= usize::MAX,
        walk_to(module, sp, body, prologue, n) is Some,
        prologue_of(body) == Some((sp, prologue)),
    ensures
        frame_of(module, body, sp) == Some(
            walk_from(walk_to(module, sp, body, prologue, n)->0, module, sp, body, n).frame,
        ),
    decreases n,
{
    if n > prologue.length {
        lemma_same_frame(module, sp, body, prologue, n - 1);
    }
}

/// A frame that does not escape was walked through to the end, and did not escape at any
/// point on the way.
proof fn lemma_walked_through(
    module: &Module,
    sp: u32,
    body: Seq<Op>,
    prologue: Prologue,
    n: int,
)
    requires
        body.len() <= usize::MAX,
        prologue_of(body) == Some((sp, prologue)),
        !(frame_of(module, body, sp)->0).escapes,
        prologue.length <= n <= body.len(),
    ensures
        walk_to(module, sp, body, prologue, n) is Some,
        kept(walk_to(module, sp, body, prologue, n)->0.frame, frame_of(module, body, sp)->0),
        walk_to(module, sp, body, prologue, n)->0.frame.size == prologue.size,
        walk_to(module, sp, body, prologue, n)->0.frame.base_local == prologue.base_local,
    decreases n,
{
    lemma_prologue_inside(body);
    lemma_to_the_end(module, sp, body, prologue, prologue.length as int, 0);
    lemma_got_there(module, sp, body, prologue, n, body.len() as int);
    lemma_same_frame(module, sp, body, prologue, n);
    lemma_kept_to_the_end(module, sp, body, prologue, n);
    if n > prologue.length {
        lemma_walked_through(module, sp, body, prologue, n - 1);
        lemma_kept_next(module, sp, body, prologue, n - 1);
    }
}

/// Whether the base of the frame is among the top `n` values of a stack.
pub open spec fn base_among(stack: Seq<Followed>, n: nat) -> bool {
    exists|i: int|
        0 <= i < stack.len() && stack.len() - n <= i && (#[trigger] stack[i]) is Frame
}

/// Where a frame does not escape, its address goes nowhere: it is not stored, it is
/// passed to no call and used in no arithmetic but a sum with a number, its base is never
/// given another value, what goes back to the stack pointer is the frame's end, and
/// nothing of it is held across control flow.
pub proof fn what_does_not_escape_goes_nowhere(
    module: &Module,
    body: Seq<Op>,
    sp: u32,
    prologue: Prologue,
    n: int,
)
    requires
        body.len() <= usize::MAX,
        prologue_of(body) == Some((sp, prologue)),
        !(frame_of(module, body, sp)->0).escapes,
        prologue.length <= n < body.len(),
    ensures
        ({
            let walk = walk_to(module, sp, body, prologue, n)->0;
            let stack = walk.stack;
            let op = body[n];
            &&& walk_to(module, sp, body, prologue, n) is Some
            &&& op is Store ==> !base_among(stack, 1)
            &&& op is LocalSet ==> op->LocalSet_0 != prologue.base_local
            &&& op is LocalTee ==> op->LocalTee_0 != prologue.base_local
            &&& op is GlobalSet ==> op->GlobalSet_0 == sp && stack.len() > 0 && stack.last()
                == Followed::Frame(prologue.size)
            &&& op is Call || op is CallIndirect || op is Select || op is MemoryGrow || op is MemoryCopy
                || op is MemoryFill || op is MemoryInit || (op is Num && op->Num_0
                != NumOp::I32Add) ==> effect(module, op) is Some && !base_among(
                stack,
                (effect(module, op)->0).0,
            )
            &&& decides(op) ==> !base_among(stack, stack.len()) && forall|index: u32| #[trigger]
                walk.locals.contains_key(index) ==> !(walk.locals[index] is Frame)
                    && !(walk.locals[index] is Derived)
            &&& !(op is Atomic) && !(op is AtomicFence)
        }),
{
    lemma_walked_through(module, sp, body, prologue, n);
    lemma_walked_through(module, sp, body, prologue, n + 1);
    let walk = walk_to(module, sp, body, prologue, n)->0;
    let next = walk_to(module, sp, body, prologue, n + 1)->0;
    assert(!next.frame.escapes);
    if decides(body[n]) {
        assert forall|index: u32| #[trigger] walk.locals.contains_key(index) implies !(
        walk.locals[index] is Frame) && !(walk.locals[index] is Derived) by {
            if of_frame(walk.locals[index]) {
                assert(walk.locals.contains_key(index) && of_frame(walk.locals[index]));
            }
        }
    }
}

/// Where a frame was not copied and is not written through a computed address, no local
/// but the base is given an address inside it, and no store goes through the base plus
/// something unknown.
pub proof fn what_is_not_copied_is_reached_through_the_base(
    module: &Module,
    body: Seq<Op>,
    sp: u32,
    prologue: Prologue,
    n: int,
)
    requires
        body.len() <= usize::MAX,
        prologue_of(body) == Some((sp, prologue)),
        !(frame_of(module, body, sp)->0).escapes,
        prologue.length <= n < body.len(),
    ensures
        ({
            let frame = frame_of(module, body, sp)->0;
            let stack = (walk_to(module, sp, body, prologue, n)->0).stack;
            let op = body[n];
            &&& !frame.copied && (op is LocalSet || op is LocalTee) && stack.len() > 0
                && stack.last() is Frame ==> stack.last()->Frame_0 >= prologue.size
            &&& frame.computed_writes == 0 && op is Store && stack.len() > 1 ==> !(
            stack[stack.len() - 2] is Derived)
        }),
{
    lemma_walked_through(module, sp, body, prologue, n);
    lemma_walked_through(module, sp, body, prologue, n + 1);
    lemma_counts(module, sp, body, prologue, n);
}

// ---- what an offset means ----

/// Whether what is said of a value is true of it.
pub open spec fn meant(said: Followed, value: int, base: int) -> bool {
    match said {
        Followed::Frame(at) => same_address(value, base + at),
        Followed::Const(number) => same_address(value, number as int),
        _ => true,
    }
}

/// Whether what a walk says is true of a machine: of the top of its stack and of the
/// locals it has watched, and the base is where it was put.
pub open spec fn true_there(walk: WalkModel, machine: Machine, base_local: u32, base: int) -> bool {
    &&& base_local < machine.locals.len()
    &&& machine.locals[base_local as int] == base
    &&& walk.stack.len() <= machine.stack.len()
    &&& forall|i: int|
        0 <= i < walk.stack.len() ==> meant(
            #[trigger] walk.stack[i],
            machine.stack[machine.stack.len() - walk.stack.len() + i],
            base,
        )
    &&& forall|index: u32| #[trigger]
        walk.locals.contains_key(index) ==> index < machine.locals.len() && meant(
            walk.locals[index],
            machine.locals[index as int],
            base,
        )
}

/// Sums of the same addresses are the same, when they wrap in 32 bits.
proof fn lemma_sum_of_addresses(a: int, x: int, b: int, y: int, wrapped: int, turns: int)
    requires
        same_address(a, x),
        same_address(b, y),
        wrapped == x + y + turns * 0x1_0000_0000,
    ensures
        same_address((a + b) % 0x1_0000_0000, wrapped),
{
    let small = 0x1_0000_0000int;
    let p = (a - x) / small;
    let q = (b - y) / small;
    let s = a + b;
    let r = s / small;
    assert(a - x == small * p);
    assert(b - y == small * q);
    assert(s == small * r + s % small);
    let one = p + q - turns - r;
    assert(s % small - wrapped == small * one) by (nonlinear_arith)
        requires
            s == a + b,
            a - x == small * p,
            b - y == small * q,
            s == small * r + s % small,
            wrapped == x + y + turns * small,
            one == p + q - turns - r,
    ;
    assert((small * one) % small == 0) by (nonlinear_arith)
        requires
            small == 0x1_0000_0000,
    ;
}

/// How often a sum wraps in 32 bits.
proof fn lemma_wraps(at: i32, k: i32) -> (turns: int)
    ensures
        at.wrapping_add(k) == at + k + turns * 0x1_0000_0000,
{
    let exact = at + k;
    if exact > i32::MAX {
        -1
    } else if exact < i32::MIN {
        1
    } else {
        0
    }
}

/// A sum that is followed is true of the result.
proof fn lemma_sum_is_meant(
    left: Followed,
    right: Followed,
    a: int,
    b: int,
    base: int,
)
    requires
        meant(left, a, base),
        meant(right, b, base),
    ensures
        meant(crate::analysis::frames::sum(left, right), (a + b) % 0x1_0000_0000, base),
{
    match (left, right) {
        (Followed::Frame(at), Followed::Const(k)) => {
            let turns = lemma_wraps(at, k);
            lemma_sum_of_addresses(a, base + at, b, k as int, base + at.wrapping_add(k), turns);
        },
        (Followed::Const(k), Followed::Frame(at)) => {
            let turns = lemma_wraps(at, k);
            lemma_sum_of_addresses(b, base + at, a, k as int, base + at.wrapping_add(k), turns);
            assert(a + b == b + a);
        },
        (Followed::Const(x), Followed::Const(y)) => {
            let turns = lemma_wraps(x, y);
            lemma_sum_of_addresses(a, x as int, b, y as int, x.wrapping_add(y) as int, turns);
        },
        _ => {},
    }
}

/// After an instruction that runs, what the walk says is true again.
proof fn lemma_true_next(
    module: &Module,
    sp: u32,
    walk: WalkModel,
    op: Op,
    before: Machine,
    after: Machine,
    base: int,
)
    requires
        true_there(walk, before, walk.frame.base_local, base),
        runs(module, op, before, after),
        !decides(op),
        walked(walk, module, sp, op).1,
        !walked(walk, module, sp, op).0.frame.escapes,
    ensures
        true_there(walked(walk, module, sp, op).0, after, walk.frame.base_local, base),
{
    let next = walked(walk, module, sp, op).0;
    let (takes, makes) = effect(module, op)->0;
    let kept = (before.stack.len() - takes) as int;
    let shift = before.stack.len() - walk.stack.len();
    lemma_same_address();
    assert forall|i: int| 0 <= i < kept implies #[trigger] after.stack[i] == before.stack[i] by {
        assert(after.stack.take(kept)[i] == before.stack.take(kept)[i]);
    }
    assert(next.stack.len() <= after.stack.len());
    let moved = after.stack.len() - next.stack.len();
    if op == Op::Num(NumOp::I32Add) {
        assert(takes == 2) by {
            assert(NumOp::I32Add.pops().len() == 2);
        }
        let left = crate::analysis::frames::top(crate::analysis::frames::popped(walk.stack));
        let right = crate::analysis::frames::top(walk.stack);
        assert(meant(left, below(before, 1), base)) by {
            if walk.stack.len() > 1 {
                assert(meant(
                    walk.stack[walk.stack.len() - 2],
                    before.stack[shift + walk.stack.len() - 2],
                    base,
                ));
            }
        }
        assert(meant(right, below(before, 0), base)) by {
            if walk.stack.len() > 0 {
                assert(meant(
                    walk.stack[walk.stack.len() - 1],
                    before.stack[shift + walk.stack.len() - 1],
                    base,
                ));
            }
        }
        lemma_sum_is_meant(left, right, below(before, 1), below(before, 0), base);
    }
    assert forall|i: int| 0 <= i < next.stack.len() implies meant(
        #[trigger] next.stack[i],
        after.stack[moved + i],
        base,
    ) by {
        if i < walk.stack.len() {
            assert(meant(walk.stack[i], before.stack[shift + i], base));
        }
        if walk.stack.len() > 0 {
            assert(meant(
                walk.stack[walk.stack.len() - 1],
                before.stack[shift + walk.stack.len() - 1],
                base,
            ));
        }
    }
    assert forall|index: u32| #[trigger] next.locals.contains_key(index) implies index
        < after.locals.len() && meant(next.locals[index], after.locals[index as int], base) by {
        if walk.stack.len() > 0 {
            assert(meant(
                walk.stack[walk.stack.len() - 1],
                before.stack[shift + walk.stack.len() - 1],
                base,
            ));
        }
        if walk.locals.contains_key(index) {
            assert(meant(walk.locals[index], before.locals[index as int], base));
        }
    }
}

/// Whether a run may go from one instruction to another. What decides goes to the start,
/// or to behind something that decides, with whatever is then on the stack; anything else
/// goes to the next.
pub open spec fn goes(
    module: &Module,
    body: Seq<Op>,
    start: int,
    from: int,
    before: Machine,
    to: int,
    after: Machine,
) -> bool {
    &&& start <= from < body.len()
    &&& start <= to <= body.len()
    &&& if decides(body[from]) {
        after.locals == before.locals && (to == start || decides(body[to - 1]))
    } else {
        to == from + 1 && runs(module, body[from], before, after)
    }
}

/// Whether a list of points and machines is a run from the end of the prologue on.
pub open spec fn is_run(
    module: &Module,
    body: Seq<Op>,
    prologue: Prologue,
    points: Seq<int>,
    machines: Seq<Machine>,
) -> bool {
    &&& points.len() == machines.len()
    &&& points.len() > 0
    &&& points[0] == prologue.length
    &&& prologue.base_local < machines[0].locals.len()
    &&& forall|t: int|
        0 <= t < points.len() - 1 ==> goes(
            module,
            body,
            prologue.length as int,
            #[trigger] points[t],
            machines[t],
            points[t + 1],
            machines[t + 1],
        )
}

/// At every point of every run of a function whose frame does not escape, what the walk
/// says there is true.
#[verifier::rlimit(40)]
proof fn lemma_true_there(
    module: &Module,
    body: Seq<Op>,
    sp: u32,
    prologue: Prologue,
    points: Seq<int>,
    machines: Seq<Machine>,
    t: int,
)
    requires
        body.len() <= usize::MAX,
        prologue_of(body) == Some((sp, prologue)),
        !(frame_of(module, body, sp)->0).escapes,
        is_run(module, body, prologue, points, machines),
        0 <= t < points.len(),
    ensures
        prologue.length <= points[t] <= body.len(),
        walk_to(module, sp, body, prologue, points[t]) is Some,
        true_there(
            walk_to(module, sp, body, prologue, points[t])->0,
            machines[t],
            prologue.base_local,
            machines[0].locals[prologue.base_local as int],
        ),
    decreases t,
{
    lemma_prologue_inside(body);
    if t > 0 {
        lemma_true_there(module, body, sp, prologue, points, machines, t - 1);
        let from = points[t - 1];
        let to = points[t];
        assert(goes(
            module,
            body,
            prologue.length as int,
            points[t - 1],
            machines[t - 1],
            points[t - 1 + 1],
            machines[t - 1 + 1],
        ));
        lemma_walked_through(module, sp, body, prologue, from);
        lemma_walked_through(module, sp, body, prologue, from + 1);
        lemma_walked_through(module, sp, body, prologue, to);
        let walk = walk_to(module, sp, body, prologue, from)->0;
        if decides(body[from]) {
            if to > prologue.length {
                lemma_walked_through(module, sp, body, prologue, to - 1);
            }
        } else {
            lemma_true_next(
                module,
                sp,
                walk,
                body[from],
                machines[t - 1],
                machines[t],
                machines[0].locals[prologue.base_local as int],
            );
        }
    }
}

/// The offset of a slot is the offset from the base: in every run of a function whose
/// frame does not escape, whatever the control flow and whatever it loads, an instruction
/// that lands in the frame forms the address of the base plus what was added to it.
pub proof fn a_landing_is_at_its_offset_from_the_base(
    module: &Module,
    body: Seq<Op>,
    sp: u32,
    prologue: Prologue,
    points: Seq<int>,
    machines: Seq<Machine>,
    t: int,
)
    requires
        body.len() <= usize::MAX,
        prologue_of(body) == Some((sp, prologue)),
        !(frame_of(module, body, sp)->0).escapes,
        is_run(module, body, prologue, points, machines),
        0 <= t < points.len(),
        points[t] < body.len(),
        lands(module, sp, body, prologue, points[t]) is Some,
    ensures
        ({
            let landing = lands(module, sp, body, prologue, points[t])->0;
            let formed = below(
                machines[t],
                if landing.reach.load {
                    0
                } else {
                    1
                },
            );
            &&& same_address(
                formed,
                machines[0].locals[prologue.base_local as int] + landing.at,
            )
            &&& landing.offset == landing.at.wrapping_add(landing.reach.mem.offset as i32)
        }),
{
    reveal(lands);
    lemma_true_there(module, body, sp, prologue, points, machines, t);
    let walk = walk_to(module, sp, body, prologue, points[t])->0;
    let landing = lands(module, sp, body, prologue, points[t])->0;
    let depth = if landing.reach.load {
        1int
    } else {
        2int
    };
    let shift = machines[t].stack.len() - walk.stack.len();
    assert(meant(
        walk.stack[walk.stack.len() - depth],
        machines[t].stack[shift + walk.stack.len() - depth],
        machines[0].locals[prologue.base_local as int],
    ));
}

// ---- what is followed ----

/// What is known of operands and locals is kept as far as it goes: the base pushes itself,
/// a local what it was given, a constant itself, and a sum with a constant stays as far
/// from the base as it says.
pub proof fn what_is_known_of_the_frame_is_kept(
    module: &Module,
    sp: u32,
    walk: WalkModel,
    op: Op,
)
    ensures
        ({
            let (next, on) = walked(walk, module, sp, op);
            let stack = walk.stack;
            let len = stack.len() as int;
            match op {
                Op::LocalGet(local) => {
                    &&& on
                    &&& local == walk.frame.base_local ==> next.stack == stack.push(
                        Followed::Frame(0),
                    )
                    &&& local != walk.frame.base_local && walk.locals.contains_key(local)
                        ==> next.stack == stack.push(walk.locals[local])
                    &&& next.locals == walk.locals
                },
                Op::I32Const(value) => on && next.stack == stack.push(Followed::Const(value))
                    && next.locals == walk.locals,
                Op::LocalSet(local) => len > 0 ==> on && next.stack == stack.drop_last() && (local
                    != walk.frame.base_local ==> next.locals == walk.locals.insert(
                    local,
                    stack.last(),
                )),
                Op::LocalTee(local) => len > 0 ==> on && next.stack == stack && (local
                    != walk.frame.base_local ==> next.locals == walk.locals.insert(
                    local,
                    stack.last(),
                )),
                Op::Drop => len > 0 ==> on && next.stack == stack.drop_last() && next.frame
                    == walk.frame,
                Op::Num(NumOp::I32Add) => len > 1 ==> {
                    &&& on
                    &&& next.stack.len() == len - 1
                    &&& next.stack.drop_last() == stack.take(len - 2)
                    &&& match (stack[len - 2], stack[len - 1]) {
                        (Followed::Frame(at), Followed::Const(k)) => next.stack.last()
                            == Followed::Frame(at.wrapping_add(k)) && next.frame == walk.frame,
                        (Followed::Const(k), Followed::Frame(at)) => next.stack.last()
                            == Followed::Frame(at.wrapping_add(k)) && next.frame == walk.frame,
                        (Followed::Const(a), Followed::Const(b)) => next.stack.last()
                            == Followed::Const(a.wrapping_add(b)) && next.frame == walk.frame,
                        (Followed::Frame(_), _) => next.stack.last() is Derived
                            && next.frame.escapes,
                        (_, Followed::Frame(_)) => next.stack.last() is Derived
                            && next.frame.escapes,
                        _ => true,
                    }
                },
                _ => true,
            }
        }),
{
    let (next, on) = walked(walk, module, sp, op);
    let stack = walk.stack;
    if stack.len() > 1 && op == Op::Num(NumOp::I32Add) {
        assert(next.stack.drop_last() =~= stack.take(stack.len() - 2));
    }
    if stack.len() > 0 && op is LocalTee {
        assert(next.stack =~= stack);
    }
}

/// A load straight from the base lands at the offset it carries, and one from the base
/// plus a number at that much more, wherever the walk gets to it.
pub proof fn a_load_from_the_base_lands(
    module: &Module,
    body: Seq<Op>,
    sp: u32,
    prologue: Prologue,
    n: int,
    k: i32,
    mem: MemArg,
)
    requires
        body.len() <= usize::MAX,
        prologue_of(body) == Some((sp, prologue)),
        prologue.length <= n,
        n + 3 < body.len(),
        walk_to(module, sp, body, prologue, n) is Some,
        body[n] == Op::LocalGet(prologue.base_local),
    ensures
        body[n + 1] is Load && body[n + 1]->Load_mem == mem ==> lands_at(
            module,
            sp,
            body,
            prologue,
            n + 1,
            mem.offset as i32,
        ),
        body[n + 1] == Op::I32Const(k) && body[n + 2] == Op::Num(NumOp::I32Add) && body[n
            + 3] is Load && body[n + 3]->Load_mem == mem ==> lands_at(
            module,
            sp,
            body,
            prologue,
            n + 3,
            k.wrapping_add(mem.offset as i32),
        ),
{
    reveal(lands);
    lemma_same_frame(module, sp, body, prologue, n);
    lemma_base_kept(module, sp, body, prologue, n);
    let w1 = walk_to(module, sp, body, prologue, n + 1)->0;
    assert(w1.stack.last() == Followed::Frame(0));
    if body[n + 1] == Op::I32Const(k) && body[n + 2] == Op::Num(NumOp::I32Add) {
        let w2 = walk_to(module, sp, body, prologue, n + 2)->0;
        assert(w2.stack == w1.stack.push(Followed::Const(k)));
        let w3 = walk_to(module, sp, body, prologue, n + 3)->0;
        assert(w2.stack.drop_last() =~= w1.stack);
        assert(w3.stack.last() == Followed::Frame(0i32.wrapping_add(k)));
        assert(0i32.wrapping_add(k) == k);
    }
    let offset = mem.offset as i32;
    assert(0i32.wrapping_add(offset) == offset);
}

/// A store straight to the base of what one instruction puts on the stack lands at the
/// offset it carries.
pub proof fn a_store_to_the_base_lands(
    module: &Module,
    body: Seq<Op>,
    sp: u32,
    prologue: Prologue,
    n: int,
    mem: MemArg,
)
    requires
        body.len() <= usize::MAX,
        prologue_of(body) == Some((sp, prologue)),
        prologue.length <= n,
        n + 2 < body.len(),
        walk_to(module, sp, body, prologue, n) is Some,
        body[n] == Op::LocalGet(prologue.base_local),
        body[n + 1] is LocalGet || body[n + 1] is I32Const || body[n + 1] is I64Const || body[n
            + 1] is F32Const || body[n + 1] is F64Const || body[n + 1] is GlobalGet,
        body[n + 2] is Store,
        body[n + 2]->Store_mem == mem,
    ensures
        lands_at(module, sp, body, prologue, n + 2, mem.offset as i32),
{
    reveal(lands);
    lemma_base_kept(module, sp, body, prologue, n);
    let w1 = walk_to(module, sp, body, prologue, n + 1)->0;
    assert(w1.stack.last() == Followed::Frame(0));
    let w2 = walk_to(module, sp, body, prologue, n + 2)->0;
    assert(w2.stack.drop_last() =~= w1.stack);
    let offset = mem.offset as i32;
    assert(0i32.wrapping_add(offset) == offset);
}

proof fn lemma_base_kept(
    module: &Module,
    sp: u32,
    body: Seq<Op>,
    prologue: Prologue,
    n: int,
)
    requires
        prologue.length <= n <= body.len() <= usize::MAX,
        walk_to(module, sp, body, prologue, n) is Some,
    ensures
        walk_to(module, sp, body, prologue, n)->0.frame.base_local == prologue.base_local,
        walk_to(module, sp, body, prologue, n)->0.frame.size == prologue.size,
    decreases n,
{
    if n > prologue.length {
        lemma_base_kept(module, sp, body, prologue, n - 1);
    }
}

// ---- the prologue ----

/// A prologue puts the base of the frame in its local: what the stack pointer held, less
/// the size of the frame; and the stack pointer holds that too where it says so, and else
/// what it held.
pub proof fn a_prologue_reserves_its_frame(
    module: &Module,
    body: Seq<Op>,
    sp: u32,
    prologue: Prologue,
    machines: Seq<Machine>,
)
    requires
        body.len() <= usize::MAX,
        prologue_of(body) == Some((sp, prologue)),
        runs_through(module, body, machines, prologue.length as int),
        body[1] is LocalSet ==> body[1]->LocalSet_0 != body[3]->LocalSet_0,
    ensures
        ({
            let held = machines[0].globals[sp];
            let last = machines[prologue.length as int];
            &&& prologue.size > 0
            &&& prologue.base_local < last.locals.len()
            &&& same_address(
                last.locals[prologue.base_local as int],
                held - prologue.size,
            )
            &&& prologue.publishes ==> last.globals[sp] == last.locals[prologue.base_local as int]
            &&& !prologue.publishes ==> last.globals == machines[0].globals
        }),
{
    let held = machines[0].globals[sp];
    assert(runs(module, body[0], machines[0], machines[1]));
    assert(runs(module, body[1], machines[1], machines[2]));
    assert(runs(module, body[2], machines[2], machines[3]));
    assert(NumOp::I32Sub.pops().len() == 2);
    let m1 = machines[1];
    let m2 = machines[2];
    let m3 = machines[3];
    assert(m1.stack.last() == held);
    if body[1] is I32Const {
        let size = body[1]->I32Const_0 as int;
        assert(m2.stack.take(m1.stack.len() as int)[m1.stack.len() - 1] == m1.stack.take(
            m1.stack.len() as int,
        )[m1.stack.len() - 1]);
        assert(below(m2, 1) == held);
        assert(below(m3, 0) == (held - size) % 0x1_0000_0000);
        lemma_difference(held, size);
        assert(runs(module, body[3], machines[3], machines[4]));
        lemma_published(module, body, sp, prologue, machines, 3);
    } else {
        let size = body[2]->I32Const_0 as int;
        let a = body[1]->LocalSet_0 as int;
        let b = body[3]->LocalSet_0 as int;
        assert(m2.locals[a] == held);
        assert(m3.stack.last() == size);
        assert(runs(module, body[3], machines[3], machines[4]));
        assert(runs(module, body[4], machines[4], machines[5]));
        assert(runs(module, body[5], machines[5], machines[6]));
        assert(runs(module, body[6], machines[6], machines[7]));
        let m5 = machines[5];
        let m6 = machines[6];
        assert(machines[4].locals[a] == held && machines[4].locals[b] == size);
        assert(m5.stack.last() == held);
        assert(m6.stack.take(m5.stack.len() as int)[m5.stack.len() - 1] == m5.stack.take(
            m5.stack.len() as int,
        )[m5.stack.len() - 1]);
        assert(below(m6, 1) == held);
        assert(below(machines[7], 0) == (held - size) % 0x1_0000_0000);
        lemma_difference(held, size);
        assert(runs(module, body[7], machines[7], machines[8]));
        lemma_published(module, body, sp, prologue, machines, 7);
    }
}

/// The four spellings of a prologue are recognised: the reserved address kept with a
/// `local.tee` or a `local.set`, written back or not, and every value through a local of
/// its own.
pub proof fn every_spelling_of_a_prologue_is_recognised(
    body: Seq<Op>,
    sp: u32,
    size: i32,
    base: u32,
    a: u32,
    b: u32,
)
    requires
        size > 0,
        body.len() > 10,
        body[0] == Op::GlobalGet(sp),
    ensures
        ({
            let direct = body[1] == Op::I32Const(size) && body[2] == Op::Num(NumOp::I32Sub);
            let parked = body[1] == Op::LocalSet(a) && body[2] == Op::I32Const(size) && body[3]
                == Op::LocalSet(b) && body[4] == Op::LocalGet(a) && body[5] == Op::LocalGet(b)
                && body[6] == Op::Num(NumOp::I32Sub);
            let kept = |rest: int|
                {
                    &&& body[rest] == Op::LocalTee(base) ==> prologue_of(body) == Some(
                        (
                            sp,
                            Prologue {
                                size,
                                base_local: base,
                                publishes: body[rest + 1] == Op::GlobalSet(sp),
                                length: if body[rest + 1] == Op::GlobalSet(sp) {
                                    (rest + 2) as usize
                                } else {
                                    (rest + 1) as usize
                                },
                            },
                        ),
                    )
                    &&& body[rest] == Op::LocalSet(base) ==> {
                        let back = body[rest + 1] == Op::LocalGet(base) && body[rest + 2]
                            == Op::GlobalSet(sp);
                        prologue_of(body) == Some(
                            (
                                sp,
                                Prologue {
                                    size,
                                    base_local: base,
                                    publishes: back,
                                    length: if back {
                                        (rest + 3) as usize
                                    } else {
                                        (rest + 1) as usize
                                    },
                                },
                            ),
                        )
                    }
                };
            &&& direct ==> kept(3)
            &&& parked ==> kept(7)
        }),
{
}

/// A difference that wraps is the same address.
proof fn lemma_difference(held: int, size: int)
    ensures
        same_address((held - size) % 0x1_0000_0000, held - size),
{
}

/// The end of a prologue keeps the reserved address in a local, and may give it back to
/// the stack pointer.
proof fn lemma_published(
    module: &Module,
    body: Seq<Op>,
    sp: u32,
    prologue: Prologue,
    machines: Seq<Machine>,
    rest: int,
)
    requires
        body.len() <= usize::MAX,
        prologue_of(body) == Some((sp, prologue)),
        runs_through(module, body, machines, prologue.length as int),
        rest == 3 && body[1] is I32Const || rest == 7 && !(body[1] is I32Const),
        machines[rest].stack.len() > 0,
    ensures
        ({
            let reserved = below(machines[rest], 0);
            let last = machines[prologue.length as int];
            &&& prologue.base_local < last.locals.len()
            &&& last.locals[prologue.base_local as int] == reserved
            &&& prologue.publishes ==> last.globals[sp] == reserved
            &&& !prologue.publishes ==> last.globals == machines[rest].globals
        }),
{
    assert(runs(module, body[rest], machines[rest], machines[rest + 1]));
    if prologue.publishes {
        assert(runs(module, body[rest + 1], machines[rest + 1], machines[rest + 2]));
        if body[rest] is LocalSet {
            assert(runs(module, body[rest + 2], machines[rest + 2], machines[rest + 3]));
        }
    }
}

} // verus!
