//! The addresses many functions share.

use vstd::prelude::*;
use std::collections::{BTreeMap, BTreeSet};
use crate::analysis::placement::{Placement, message_at, placed_text, placement_at};
use crate::analysis::sets::{keys_i32, members_i32};
use crate::module::types::{ConstExpr, DataSegment, Func, Module, Op};

verus! {

/// How many functions must share an address before it is worth pointing out.
pub const HOT_ADDRESS_FUNCTIONS: usize = 8;

/// The base of a segment: its own, or where it was placed. `None` where it is
/// given by something that is not known here.
pub open spec fn segment_base(segment: DataSegment, placement: Option<Placement>) -> Option<i32> {
    match segment.offset {
        Some(ConstExpr::I32(base)) => Some(base),
        Some(_) => None,
        None => match placement {
            Some(placement) => Some(placement.address),
            None => None,
        },
    }
}

/// Whether a segment is passive and nothing places it.
pub open spec fn unplaced(segment: DataSegment, placement: Option<Placement>) -> bool {
    segment.offset is None && placement is None
}

/// The span the first `n` data segments occupy, from the first address to the one
/// past the last.
pub open spec fn span_of(module: &Module, placements: Map<u32, Placement>, n: int) -> Option<
    (int, int),
>
    decreases n,
{
    if n <= 0 {
        None
    } else {
        let before = span_of(module, placements, n - 1);
        let segment = module.datas@[n - 1];
        match segment_base(segment, placement_at(placements, n - 1)) {
            None => before,
            Some(base) => {
                let end = base + segment.bytes@.len();
                match before {
                    None => Some((base as int, end)),
                    Some((low, high)) => Some(
                        (
                            if base < low {
                                base as int
                            } else {
                                low
                            },
                            if end > high {
                                end
                            } else {
                                high
                            },
                        ),
                    ),
                }
            },
        }
    }
}

/// The span of memory the module's data segments occupy, if it is known: every
/// segment has to be placed.
pub open spec fn data_span(module: &Module, placements: Map<u32, Placement>) -> Option<(int, int)> {
    if exists|i: int|
        0 <= i < module.datas@.len() && unplaced(
            #[trigger] module.datas@[i],
            placement_at(placements, i),
        ) {
        None
    } else {
        span_of(module, placements, module.datas@.len() as int)
    }
}

fn static_data_span(module: &Module, placements: &BTreeMap<u32, Placement>) -> (span: Option<
    (i128, i128),
>)
    ensures
        match span {
            Some((low, high)) => data_span(module, placements@) == Some((low as int, high as int)),
            None => data_span(module, placements@) is None,
        },
{
    let mut span: Option<(i128, i128)> = None;
    let mut i: usize = 0;
    while i < module.datas.len()
        invariant
            i <= module.datas@.len(),
            forall|j: int|
                0 <= j < i ==> !unplaced(
                    #[trigger] module.datas@[j],
                    placement_at(placements@, j),
                ),
            match span {
                Some((low, high)) => span_of(module, placements@, i as int) == Some(
                    (low as int, high as int),
                ),
                None => span_of(module, placements@, i as int) is None,
            },
        decreases module.datas@.len() - i,
    {
        let base: Option<i32> = match module.datas[i].offset {
            Some(ConstExpr::I32(base)) => Some(base),
            Some(_) => None,
            None => match placements.get(&(i as u32)) {
                Some(placement) => Some(placement.address),
                None => {
                    assert(unplaced(module.datas@[i as int], placement_at(placements@, i as int)));
                    return None;
                },
            },
        };
        match base {
            Some(base) => {
                let low: i128 = base as i128;
                let high: i128 = base as i128 + module.datas[i].bytes.len() as i128;
                span = match span {
                    Some((lowest, highest)) => Some(
                        (
                            if low < lowest {
                                low
                            } else {
                                lowest
                            },
                            if high > highest {
                                high
                            } else {
                                highest
                            },
                        ),
                    ),
                    None => Some((low, high)),
                };
            },
            None => {},
        }
        i = i + 1;
    }
    span
}

/// Whether an instruction uses an address: it is a constant in the span, and not
/// the destination of a `memory.init`, which is a placement and not a use of what
/// is there.
pub open spec fn uses_at(body: Seq<Op>, i: int, address: i32, span: (int, int)) -> bool {
    &&& body[i] == Op::I32Const(address)
    &&& span.0 <= address < span.1
    &&& !(i + 3 < body.len() && body[i + 3] is MemoryInit)
}

/// Whether a body uses an address.
pub open spec fn uses(body: Seq<Op>, address: i32, span: (int, int)) -> bool {
    exists|i: int| 0 <= i < body.len() && #[trigger] uses_at(body, i, address, span)
}

/// How many functions use an address.
pub open spec fn users(funcs: Seq<Func>, address: i32, span: (int, int)) -> nat
    decreases funcs.len(),
{
    if funcs.len() == 0 {
        0
    } else {
        users(funcs.drop_last(), address, span) + if uses(funcs.last().body@, address, span) {
            1nat
        } else {
            0
        }
    }
}

/// The addresses that many functions use and that hold no text, each with how
/// many functions use it.
pub open spec fn are_hot(
    map: Map<i32, usize>,
    module: &Module,
    placements: Map<u32, Placement>,
) -> bool {
    match data_span(module, placements) {
        None => forall|address: i32| !#[trigger] map.contains_key(address),
        Some(span) => {
            &&& forall|address: i32| #[trigger]
                map.contains_key(address) == (users(module.funcs@, address, span)
                    >= HOT_ADDRESS_FUNCTIONS && message_at(
                    module,
                    placements,
                    address,
                    None,
                ) is None)
            &&& forall|address: i32| #[trigger]
                map.contains_key(address) ==> map[address] == users(module.funcs@, address, span)
        },
    }
}

/// The addresses a body uses.
fn used_by(body: &Vec<Op>, low: i128, high: i128) -> (used: BTreeSet<i32>)
    ensures
        forall|address: i32| #[trigger]
            used@.contains(address) == uses(body@, address, (low as int, high as int)),
{
    let mut used: BTreeSet<i32> = BTreeSet::new();
    let ghost span = (low as int, high as int);
    let mut i: usize = 0;
    while i < body.len()
        invariant
            i <= body@.len(),
            span == (low as int, high as int),
            forall|address: i32| #[trigger]
                used@.contains(address) == exists|j: int|
                    0 <= j < i && #[trigger] uses_at(body@, j, address, span),
        decreases body@.len() - i,
    {
        let ghost before = used@;
        match &body[i] {
            Op::I32Const(value) => {
                let places: bool = if body.len() - i > 3 {
                    match &body[i + 3] {
                        Op::MemoryInit(_) => true,
                        _ => false,
                    }
                } else {
                    false
                };
                if low <= *value as i128 && (*value as i128) < high && !places {
                    used.insert(*value);
                    assert(uses_at(body@, i as int, *value, span));
                }
            },
            _ => {},
        }
        proof {
            assert forall|address: i32| #[trigger]
                used@.contains(address) == exists|j: int|
                    0 <= j < i + 1 && #[trigger] uses_at(body@, j, address, span) by {
                if before.contains(address) {
                    let j = choose|j: int| 0 <= j < i && #[trigger] uses_at(body@, j, address, span);
                    assert(uses_at(body@, j, address, span));
                }
            }
        }
        i = i + 1;
    }
    used
}

/// The count a map has for an address, or zero.
pub open spec fn counted(map: Map<i32, usize>, address: i32) -> nat {
    if map.contains_key(address) {
        map[address] as nat
    } else {
        0
    }
}

/// There are no more users than functions.
proof fn lemma_users(funcs: Seq<Func>, address: i32, span: (int, int))
    ensures
        users(funcs, address, span) <= funcs.len(),
    decreases funcs.len(),
{
    if funcs.len() > 0 {
        lemma_users(funcs.drop_last(), address, span);
    }
}

/// Counts one more for each address of a set.
fn count_all(counts: &mut BTreeMap<i32, usize>, used: &BTreeSet<i32>)
    requires
        forall|address: i32| #[trigger] counted(old(counts)@, address) < usize::MAX,
    ensures
        forall|address: i32| #[trigger]
            counted(final(counts)@, address) == counted(old(counts)@, address) + if used@.contains(
                address,
            ) {
                1nat
            } else {
                0
            },
        forall|address: i32| #[trigger]
            final(counts)@.contains_key(address) ==> old(counts)@.contains_key(address)
                || used@.contains(address),
{
    let list: Vec<i32> = members_i32(used);
    let ghost before = counts@;
    let mut i: usize = 0;
    while i < list.len()
        invariant
            i <= list@.len(),
            list@.no_duplicates(),
            forall|address: i32| #[trigger] counted(before, address) < usize::MAX,
            forall|address: i32| #[trigger]
                counted(counts@, address) == counted(before, address) + if list@.take(
                    i as int,
                ).contains(address) {
                    1nat
                } else {
                    0
                },
            forall|address: i32| #[trigger]
                counts@.contains_key(address) ==> before.contains_key(address)
                    || list@.take(i as int).contains(address),
        decreases list@.len() - i,
    {
        let address: i32 = list[i];
        let ghost had = counts@;
        proof {
            if list@.take(i as int).contains(address) {
                let j = choose|j: int| 0 <= j < i && list@.take(i as int)[j] == address;
                assert(list@[j] == list@[i as int]);
            }
            assert(counted(before, address) < usize::MAX);
            assert(counted(had, address) == counted(before, address));
        }
        let count: usize = match counts.get(&address) {
            Some(count) => *count,
            None => 0,
        };
        counts.insert(address, count + 1);
        proof {
            assert forall|other: i32|
                list@.take(i + 1).contains(other) == (list@.take(i as int).contains(other) || other
                    == address) by {
                let next = list@.take(i + 1);
                let done = list@.take(i as int);
                if done.contains(other) {
                    let j = choose|j: int| 0 <= j < done.len() && done[j] == other;
                    assert(next[j] == other);
                }
                assert(next[i as int] == address);
                if next.contains(other) {
                    let j = choose|j: int| 0 <= j < next.len() && next[j] == other;
                    if j < i {
                        assert(done[j] == other);
                    }
                }
            }
            assert forall|other: i32| #[trigger]
                counted(counts@, other) == counted(before, other) + if list@.take(i + 1).contains(
                    other,
                ) {
                    1nat
                } else {
                    0
                } by {
                assert(counted(had, other) == counted(before, other) + if list@.take(
                    i as int,
                ).contains(other) {
                    1nat
                } else {
                    0
                });
            }
        }
        i = i + 1;
    }
    assert(list@.take(i as int) =~= list@);
}

/// Finds the addresses that many functions reference and that are not text.
///
/// "Address" is decided by the module's own layout rather than by size: a
/// constant counts only if it falls inside the span its data segments occupy.
pub fn find_hot_addresses(module: &Module, placements: &BTreeMap<u32, Placement>) -> (hot: BTreeMap<
    i32,
    usize,
>)
    ensures
        are_hot(hot@, module, placements@),
{
    let (low, high) = match static_data_span(module, placements) {
        Some(span) => span,
        None => {
            return BTreeMap::new();
        },
    };
    let ghost span = (low as int, high as int);
    let mut counts: BTreeMap<i32, usize> = BTreeMap::new();
    let mut f: usize = 0;
    assert(module.funcs@.take(0) =~= Seq::empty());
    while f < module.funcs.len()
        invariant
            f <= module.funcs@.len(),
            span == (low as int, high as int),
            forall|address: i32| #[trigger]
                counted(counts@, address) == users(module.funcs@.take(f as int), address, span),
            forall|address: i32| #[trigger]
                counts@.contains_key(address) ==> counts@[address] > 0,
        decreases module.funcs@.len() - f,
    {
        let ghost done = module.funcs@.take(f as int);
        let ghost next = module.funcs@.take(f + 1);
        let ghost had = counts@;
        proof {
            assert(next.drop_last() =~= done);
            assert(next.last() == module.funcs@[f as int]);
            assert forall|address: i32| #[trigger] counted(counts@, address) < usize::MAX by {
                lemma_users(done, address, span);
            }
        }
        let used: BTreeSet<i32> = used_by(&module.funcs[f].body, low, high);
        count_all(&mut counts, &used);
        proof {
            assert forall|address: i32| #[trigger]
                counts@.contains_key(address) implies counts@[address] > 0 by {
                assert(counted(counts@, address) == counted(had, address)
                    + if used@.contains(address) {
                    1nat
                } else {
                    0
                });
            }
        }
        f = f + 1;
    }
    assert(module.funcs@.take(f as int) =~= module.funcs@);
    let addresses: Vec<i32> = keys_i32(&counts);
    let mut hot: BTreeMap<i32, usize> = BTreeMap::new();
    let mut i: usize = 0;
    while i < addresses.len()
        invariant
            i <= addresses@.len(),
            span == (low as int, high as int),
            forall|address: i32| #[trigger]
                addresses@.contains(address) == counts@.contains_key(address),
            forall|address: i32| #[trigger]
                counted(counts@, address) == users(module.funcs@, address, span),
            forall|address: i32| #[trigger]
                hot@.contains_key(address) == (users(module.funcs@, address, span)
                    >= HOT_ADDRESS_FUNCTIONS && message_at(
                    module,
                    placements@,
                    address,
                    None,
                ) is None && addresses@.take(i as int).contains(address)),
            forall|address: i32| #[trigger]
                hot@.contains_key(address) ==> hot@[address] == users(
                    module.funcs@,
                    address,
                    span,
                ),
        decreases addresses@.len() - i,
    {
        let address: i32 = addresses[i];
        assert(addresses@.contains(addresses@[i as int]));
        match counts.get(&address) {
            Some(count) => {
                assert(counted(counts@, address) == *count);
                if *count >= HOT_ADDRESS_FUNCTIONS && placed_text(
                    module,
                    placements,
                    address,
                    None,
                ).is_none() {
                    hot.insert(address, *count);
                }
            },
            None => {},
        }
        proof {
            assert forall|other: i32|
                addresses@.take(i + 1).contains(other) == (addresses@.take(i as int).contains(
                    other,
                ) || other == address) by {
                let next = addresses@.take(i + 1);
                let done = addresses@.take(i as int);
                if done.contains(other) {
                    let j = choose|j: int| 0 <= j < done.len() && done[j] == other;
                    assert(next[j] == other);
                }
                assert(next[i as int] == address);
                if next.contains(other) {
                    let j = choose|j: int| 0 <= j < next.len() && next[j] == other;
                    if j < i {
                        assert(done[j] == other);
                    }
                }
            }
        }
        i = i + 1;
    }
    proof {
        assert(addresses@.take(i as int) =~= addresses@);
        assert forall|address: i32| #[trigger]
            hot@.contains_key(address) == (users(module.funcs@, address, span)
                >= HOT_ADDRESS_FUNCTIONS && message_at(
                module,
                placements@,
                address,
                None,
            ) is None) by {
            assert(counted(counts@, address) == users(module.funcs@, address, span));
            assert(addresses@.contains(address) == counts@.contains_key(address));
        }
    }
    hot
}

} // verus!
