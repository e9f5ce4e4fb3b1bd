//! What holds of tables of functions: the module's own, and those that are read out of its
//! data.

use vstd::prelude::*;
use crate::analysis::calls::{
    all_sites, body_sites, edge, filled, in_table, is_call_graph, leads_to, table_of, CallGraph,
};
use crate::analysis::hot::{segment_base, span_of, users, uses, uses_at};
use crate::analysis::image::{
    counted_slots, image_word, live, slots_before, word_at, zeros_from, PlacedModel, ADDRESSES,
    NULL_RUN,
};
use crate::analysis::nesting::{most_open, open_after};
use crate::analysis::placement::{placement_at, Placement};
use crate::module::types::{ConstExpr, ElemSegment, Func, Module, Op};

verus! {

// ---- tables in the data ----

/// Whether a slot is what a word says: a function whose table index the word is, or
/// nothing where it is zero.
pub open spec fn slot_is(table: Map<u32, u32>, word: i32, slot: Option<u32>) -> bool {
    match slot {
        Some(func) => word > 0 && table.contains_key(word as u32) && table[word as u32] == func,
        None => word == 0,
    }
}

proof fn lemma_zeros(image: Seq<PlacedModel>, at: int, n: int)
    requires
        1 <= n <= 5,
    ensures
        n <= zeros_from(image, at, n) <= 5,
        forall|k: int|
            n <= k < zeros_from(image, at, n) ==> #[trigger] word_at(image, at + 4 * k) == Some(
                0i32,
            ),
        zeros_from(image, at, n) < 5 ==> word_at(image, at + 4 * zeros_from(image, at, n))
            != Some(0i32),
    decreases 5 - n,
{
    if n <= 4 && word_at(image, at + 4 * n) == Some(0i32) {
        lemma_zeros(image, at, n + 1);
    }
}

/// How a table goes on: with a function, with nulls that a function follows, or not at all.
proof fn lemma_slots(image: Seq<PlacedModel>, table: Map<u32, u32>, at: int, end: int) -> (step: int)
    requires
        at < end,
    ensures
        0 <= step <= 4,
        step == 0 ==> slots_before(image, table, at, end).len() == 0 && (word_at(image, at) is Some
            ==> !slot_is_function(table, word_at(image, at)->0)),
        step > 0 ==> {
            let slots = slots_before(image, table, at, end);
            let rest = slots_before(image, table, at + 4 * step, end);
            let null = word_at(image, at) == Some(0i32);
            &&& slots.len() == step + rest.len()
            &&& forall|k: int| step <= k < slots.len() ==> #[trigger] slots[k] == rest[k - step]
            &&& !null ==> step == 1 && slots[0] is Some && word_at(image, at) is Some && slot_is(
                table,
                word_at(image, at)->0,
                slots[0],
            )
            &&& null ==> word_at(image, at + 4 * step) is Some && slot_is_function(
                table,
                word_at(image, at + 4 * step)->0,
            )
            &&& null ==> forall|k: int|
                0 <= k < step ==> #[trigger] slots[k] is None && word_at(image, at + 4 * k) == Some(
                    0i32,
                )
        },
{
    match word_at(image, at) {
        None => 0,
        Some(word) => match live(table, word) {
            Some(func) => 1,
            None => if word == 0 {
                let run = zeros_from(image, at, 1);
                lemma_zeros(image, at, 1);
                if word_at(image, at + 4 * run) is Some && run <= NULL_RUN && live(
                    table,
                    word_at(image, at + 4 * run)->0,
                ) is Some {
                    let slots = slots_before(image, table, at, end);
                    let nulls = Seq::new(run as nat, |i: int| None::<u32>);
                    let rest = slots_before(image, table, at + 4 * run, end);
                    assert(slots == nulls + rest);
                    assert forall|k: int| 0 <= k < run implies #[trigger] slots[k] is None
                        && word_at(image, at + 4 * k) == Some(0i32) by {
                        assert(slots[k] == nulls[k]);
                        if k == 0 {
                            assert(at + 4 * k == at);
                        }
                    }
                    run
                } else {
                    0
                }
            } else {
                0
            },
        },
    }
}

/// A table that is read out of the data has the function of each word in turn, and no
/// function where the word is zero.
pub proof fn every_slot_is_its_word(
    image: Seq<PlacedModel>,
    table: Map<u32, u32>,
    at: int,
    end: int,
    k: int,
)
    requires
        0 <= k < slots_before(image, table, at, end).len(),
    ensures
        word_at(image, at + 4 * k) is Some,
        slot_is(
            table,
            word_at(image, at + 4 * k)->0,
            slots_before(image, table, at, end)[k],
        ),
    decreases end + 16 - at,
{
    let slots = slots_before(image, table, at, end);
    if at < end {
        let step = lemma_slots(image, table, at, end);
        if k >= step {
            every_slot_is_its_word(image, table, at + 4 * step, end, k - step);
            assert(at + 4 * step + 4 * (k - step) == at + 4 * k);
        } else {
            assert(k == 0 ==> at + 4 * k == at);
            assert(slots[k] == slots[k]);
        }
    }
}

/// A table that is read out of the data does not end in a slot without a function, and no
/// word that is a table index follows it, unless it went all the way round.
pub proof fn a_table_ends_where_it_stops_looking_like_one(
    image: Seq<PlacedModel>,
    table: Map<u32, u32>,
    at: int,
    end: int,
)
    requires
        at + 4 * slots_before(image, table, at, end).len() < end,
    ensures
        ({
            let slots = slots_before(image, table, at, end);
            let next = at + 4 * slots.len();
            &&& slots.len() > 0 ==> slots.last() is Some
            &&& word_at(image, next) is Some ==> !slot_is_function(
                table,
                word_at(image, next)->0,
            )
        }),
    decreases end + 16 - at,
{
    let slots = slots_before(image, table, at, end);
    let step = lemma_slots(image, table, at, end);
    if step > 0 {
        let rest = slots_before(image, table, at + 4 * step, end);
        a_table_ends_where_it_stops_looking_like_one(image, table, at + 4 * step, end);
        if rest.len() == 0 {
            let _ = lemma_slots(image, table, at + 4 * step, end);
        } else {
            assert(slots[slots.len() - 1] == rest[rest.len() - 1]);
        }
        assert(at + 4 * step + 4 * rest.len() == at + 4 * slots.len());
    } else {
        assert(at + 4 * slots.len() == at);
    }
}

/// A table of a stated length is that many words, each a function or nothing, up to where
/// the data ends.
pub proof fn a_counted_table_is_its_words(
    image: Seq<PlacedModel>,
    table: Map<u32, u32>,
    address: i32,
    from: int,
    cap: int,
)
    requires
        0 <= from <= cap,
    ensures
        ({
            let slots = counted_slots(image, table, address, from, cap);
            &&& slots.len() <= cap - from
            &&& forall|k: int|
                0 <= k < slots.len() ==> {
                    let word = image_word(
                        image,
                        address.wrapping_add((4 * (from + k)) as i32) as u32,
                    );
                    &&& word is Some
                    &&& slot_is_function(table, word->0) ==> #[trigger] slots[k] == Some(
                        table[word->0 as u32],
                    )
                    &&& !slot_is_function(table, word->0) ==> slots[k] is None
                }
            &&& slots.len() < cap - from ==> image_word(
                image,
                address.wrapping_add((4 * (from + slots.len())) as i32) as u32,
            ) is None
        }),
    decreases cap - from,
{
    let slots = counted_slots(image, table, address, from, cap);
    if from < cap {
        let first = image_word(image, address.wrapping_add((4 * from) as i32) as u32);
        if first is Some {
            a_counted_table_is_its_words(image, table, address, from + 1, cap);
            let rest = counted_slots(image, table, address, from + 1, cap);
            assert(slots == seq![live(table, first->0)] + rest);
            assert forall|k: int| 0 <= k < slots.len() implies {
                let word = image_word(
                    image,
                    address.wrapping_add((4 * (from + k)) as i32) as u32,
                );
                &&& word is Some
                &&& slot_is_function(table, word->0) ==> #[trigger] slots[k] == Some(
                    table[word->0 as u32],
                )
                &&& !slot_is_function(table, word->0) ==> slots[k] is None
            } by {
                if k > 0 {
                    assert(slots[k] == rest[k - 1]);
                    assert(from + 1 + (k - 1) == from + k);
                }
            }
            assert(from + 1 + rest.len() == from + slots.len());
        } else {
            assert(from + slots.len() == from);
        }
    }
}

/// Whether a word is a table index.
pub open spec fn slot_is_function(table: Map<u32, u32>, word: i32) -> bool {
    word > 0 && table.contains_key(word as u32)
}

// ---- the module's table ----

/// Whether an element segment fills a slot, and with what.
pub open spec fn fills(segment: ElemSegment, slot: u32, j: int) -> bool {
    &&& 0 <= j < segment.funcs@.len()
    &&& match segment.offset {
        Some(ConstExpr::I32(base)) => (base as u32).wrapping_add(j as u32) == slot,
        _ => false,
    }
}

proof fn lemma_filled(table: Map<u32, u32>, base: u32, funcs: Seq<u32>, slot: u32)
    requires
        funcs.len() <= ADDRESSES,
    ensures
        forall|j: int|
            0 <= j < funcs.len() && #[trigger] base.wrapping_add(j as u32) == slot ==> filled(
                table,
                base,
                funcs,
            ).contains_key(slot) && filled(table, base, funcs)[slot] == funcs[j],
        (forall|j: int|
            0 <= j < funcs.len() ==> #[trigger] base.wrapping_add(j as u32) != slot) ==> filled(
            table,
            base,
            funcs,
        ).contains_key(slot) == table.contains_key(slot) && filled(table, base, funcs)[slot]
            == table[slot],
    decreases funcs.len(),
{
    if funcs.len() > 0 {
        let less = funcs.drop_last();
        lemma_filled(table, base, less, slot);
        let last = (funcs.len() - 1) as u32;
        assert forall|j: int|
            0 <= j < funcs.len() && #[trigger] base.wrapping_add(j as u32) == slot implies filled(
            table,
            base,
            funcs,
        ).contains_key(slot) && filled(table, base, funcs)[slot] == funcs[j] by {
            if j < less.len() {
                assert(less[j] == funcs[j]);
            }
        }
    }
}

/// A slot of the table has the function that the last segment to fill it puts there, as
/// far into the segment as the slot is past its start. A slot that no segment fills is
/// empty, and a segment that is not active fills none.
pub proof fn a_slot_has_what_its_segment_puts_there(
    segments: Seq<ElemSegment>,
    slot: u32,
    s: int,
    j: int,
)
    requires
        forall|i: int|
            0 <= i < segments.len() ==> (#[trigger] segments[i]).funcs@.len() <= ADDRESSES,
    ensures
        (forall|i: int, k: int|
            0 <= i < segments.len() ==> !#[trigger] fills(segments[i], slot, k)) ==> !table_of(
            segments,
        ).contains_key(slot),
        0 <= s < segments.len() && fills(segments[s], slot, j) && (forall|i: int, k: int|
            s < i < segments.len() ==> !#[trigger] fills(segments[i], slot, k)) ==> table_of(
            segments,
        ).contains_key(slot) && table_of(segments)[slot] == segments[s].funcs@[j],
    decreases segments.len(),
{
    if segments.len() > 0 {
        let less = segments.drop_last();
        let last = segments.last();
        assert(segments[segments.len() - 1] == last);
        assert(forall|i: int| 0 <= i < less.len() ==> less[i] == segments[i]);
        a_slot_has_what_its_segment_puts_there(less, slot, s, j);
        let table = table_of(less);
        match last.offset {
            Some(ConstExpr::I32(base)) => {
                lemma_filled(table, base as u32, last.funcs@, slot);
                if forall|k: int| !#[trigger] fills(last, slot, k) {
                    assert forall|k: int| 0 <= k < last.funcs@.len() implies #[trigger] (
                    base as u32).wrapping_add(k as u32) != slot by {
                        assert(!fills(last, slot, k));
                    }
                }
            },
            _ => {},
        }
        if (forall|i: int, k: int|
            0 <= i < segments.len() ==> !#[trigger] fills(segments[i], slot, k)) {
            assert forall|i: int, k: int| 0 <= i < less.len() implies !#[trigger] fills(
                less[i],
                slot,
                k,
            ) by {
                assert(!fills(segments[i], slot, k));
            }
            assert forall|k: int| !#[trigger] fills(last, slot, k) by {
                assert(!fills(segments[segments.len() - 1], slot, k));
            }
        }
        if 0 <= s < less.len() && fills(segments[s], slot, j) && (forall|i: int, k: int|
            s < i < segments.len() ==> !#[trigger] fills(segments[i], slot, k)) {
            assert forall|i: int, k: int| s < i < less.len() implies !#[trigger] fills(
                less[i],
                slot,
                k,
            ) by {
                assert(!fills(segments[i], slot, k));
            }
            assert forall|k: int| !#[trigger] fills(last, slot, k) by {
                assert(!fills(segments[segments.len() - 1], slot, k));
            }
        }
    }
}

// ---- call sites ----

/// A body has as many sites that call a function as it has such calls.
pub proof fn call_sites_are_the_calls(body: Seq<Op>, callee: u32)
    ensures
        body_sites(body, callee) == body.filter(|op: Op| op == Op::Call(callee)).len(),
    decreases body.len(),
{
    reveal(Seq::filter);
    if body.len() > 0 {
        call_sites_are_the_calls(body.drop_last(), callee);
    }
}

/// The sites of a module that call a function are those of each of its functions together.
pub proof fn sites_add_up(funcs: Seq<Func>, more: Seq<Func>, callee: u32)
    ensures
        all_sites(funcs + more, callee) == all_sites(funcs, callee) + all_sites(more, callee),
        funcs.len() == 1 ==> all_sites(funcs, callee) == body_sites(funcs[0].body@, callee),
    decreases more.len(),
{
    if funcs.len() == 1 {
        assert(funcs.drop_last() =~= Seq::empty());
        assert(all_sites(funcs.drop_last(), callee) == 0);
    }
    if more.len() == 0 {
        assert(funcs + more =~= funcs);
    } else {
        assert((funcs + more).drop_last() =~= funcs + more.drop_last());
        sites_add_up(funcs, more.drop_last(), callee);
    }
}

// ---- where a call may lead ----

/// A function may lead to another exactly where its body calls it, or, through the table,
/// where its body calls indirectly with the other's type and some slot holds the other.
pub proof fn a_call_leads_to_its_callee(
    graph: CallGraph,
    module: &Module,
    from: u32,
    to: u32,
)
    requires
        is_call_graph(graph, module),
        module.func_imports@.len() <= from,
        from - module.func_imports@.len() < module.funcs@.len(),
    ensures
        ({
            let body = module.funcs@[from - module.func_imports@.len()].body@;
            let table = table_of(module.elems@);
            let directly = exists|i: int|
                0 <= i < body.len() && #[trigger] body[i] == Op::Call(to);
            let of_its_type = exists|i: int, type_index: u32|
                0 <= i < body.len() && #[trigger] body[i] == (Op::CallIndirect { type_index })
                    && #[trigger] has_type(module, to, type_index);
            let held = exists|slot: u32| #[trigger] table.contains_key(slot) && table[slot] == to;
            &&& leads_to(graph, table, module, false, from, to) == directly
            &&& leads_to(graph, table, module, true, from, to) == (directly || of_its_type && held)
        }),
{
    let body = module.funcs@[from - module.func_imports@.len()].body@;
    let table = table_of(module.elems@);
    assert(edge(graph.calls@, from, to) == module.calls(from, to));
    if exists|ty: u32| #[trigger]
        edge(graph.calls_indirectly@, from, ty) && in_table(table, module, ty, to) {
        let ty = choose|ty: u32| #[trigger]
            edge(graph.calls_indirectly@, from, ty) && in_table(table, module, ty, to);
        assert(module.calls_type(from, ty));
        let i = choose|i: int|
            0 <= i < body.len() && #[trigger] body[i] == (Op::CallIndirect { type_index: ty });
        assert(body[i] == (Op::CallIndirect { type_index: ty }) && has_type(module, to, ty));
    }
    if exists|i: int, type_index: u32|
        0 <= i < body.len() && #[trigger] body[i] == (Op::CallIndirect { type_index })
            && #[trigger] has_type(module, to, type_index) {
        let (i, type_index) = choose|i: int, type_index: u32|
            0 <= i < body.len() && #[trigger] body[i] == (Op::CallIndirect { type_index })
                && #[trigger] has_type(module, to, type_index);
        assert(body[i] == (Op::CallIndirect { type_index }));
        assert(module.calls_type(from, type_index));
        assert(edge(graph.calls_indirectly@, from, type_index));
    }
}

/// Whether a function, by index, has a type: imports come first, and the functions that
/// are defined here after them.
pub open spec fn has_type(module: &Module, func: u32, type_index: u32) -> bool {
    let imports = module.func_imports@.len();
    if func < imports {
        module.func_imports@[func as int].type_index == type_index
    } else {
        func - imports < module.funcs@.len() && module.funcs@[func - imports].type_index
            == type_index
    }
}

/// The type of a function by index is that of the import, or of the function defined here
/// after the imports.
pub proof fn imports_come_first(module: &Module, func: u32, type_index: u32)
    ensures
        (module.type_index(func) == Some(type_index)) == has_type(module, func, type_index),
        match module.signature(func) {
            Some(ty) => exists|index: u32| #[trigger]
                has_type(module, func, index) && index < module.types@.len()
                    && module.types@[index as int] == ty,
            None => forall|index: u32| #[trigger]
                has_type(module, func, index) ==> index >= module.types@.len(),
        },
{
    match module.type_index(func) {
        Some(index) => {
            assert(has_type(module, func, index));
        },
        None => {},
    }
}

// ---- nesting ----

/// How many instructions of a body open a region.
pub open spec fn openings(body: Seq<Op>) -> nat {
    body.filter(|op: Op| op is Block || op is Loop || op is If).len()
}

/// How many close one.
pub open spec fn closings(body: Seq<Op>) -> nat {
    body.filter(|op: Op| op is End).len()
}

/// Where no region is closed that was not opened, as many are open as were opened and not
/// closed.
pub proof fn what_was_opened_and_not_closed_is_open(body: Seq<Op>)
    requires
        forall|n: int|
            0 <= n <= body.len() ==> closings(#[trigger] body.take(n)) <= openings(body.take(n)),
    ensures
        open_after(body) == openings(body) - closings(body),
    decreases body.len(),
{
    reveal(Seq::filter);
    assert(body.take(body.len() as int) =~= body);
    if body.len() > 0 {
        let less = body.drop_last();
        assert forall|n: int| 0 <= n <= less.len() implies closings(#[trigger] less.take(n))
            <= openings(less.take(n)) by {
            assert(less.take(n) =~= body.take(n));
        }
        what_was_opened_and_not_closed_is_open(less);
        assert(closings(body.take(body.len() as int)) <= openings(
            body.take(body.len() as int),
        ));
    }
}

/// The nesting of a body is the most regions that are open at any point of it.
pub proof fn nesting_is_the_most_that_are_open(body: Seq<Op>, n: int)
    requires
        0 <= n <= body.len(),
    ensures
        open_after(body.take(n)) <= most_open(body),
        exists|m: int| 0 <= m <= body.len() && #[trigger] open_after(body.take(m)) == most_open(
            body,
        ),
    decreases body.len(),
{
    assert(body.take(body.len() as int) =~= body);
    if body.len() > 0 {
        let less = body.drop_last();
        nesting_is_the_most_that_are_open(
            less,
            if n < body.len() {
                n
            } else {
                0
            },
        );
        assert(n < body.len() ==> less.take(n) =~= body.take(n));
        let m = choose|m: int|
            0 <= m <= less.len() && #[trigger] open_after(less.take(m)) == most_open(less);
        assert(less.take(m) =~= body.take(m));
        assert(open_after(body.take(body.len() as int)) == open_after(body));
        if most_open(body) == most_open(less) {
            assert(open_after(body.take(m)) == most_open(body));
        }
    } else {
        assert(open_after(body.take(0)) == most_open(body));
    }
}

// ---- addresses that are shared ----

/// Whether a function uses an address: it pushes it, and not as where a `memory.init`
/// copies to.
pub open spec fn pushes_it(func: Func, address: i32) -> bool {
    exists|p: int|
        0 <= p < func.body@.len() && #[trigger] func.body@[p] == Op::I32Const(address) && !(p + 3
            < func.body@.len() && func.body@[p + 3] is MemoryInit)
}

/// As many functions use an address of the data as push it.
pub proof fn users_are_the_functions_that_push_it(
    funcs: Seq<Func>,
    address: i32,
    span: (int, int),
)
    ensures
        users(funcs, address, span) == if span.0 <= address < span.1 {
            funcs.filter(|func: Func| pushes_it(func, address)).len()
        } else {
            0
        },
    decreases funcs.len(),
{
    reveal(Seq::filter);
    if funcs.len() > 0 {
        users_are_the_functions_that_push_it(funcs.drop_last(), address, span);
        let func = funcs.last();
        let body = func.body@;
        if uses(body, address, span) {
            let i = choose|i: int| 0 <= i < body.len() && #[trigger] uses_at(body, i, address, span);
            assert(body[i] == Op::I32Const(address));
        }
        if pushes_it(func, address) && span.0 <= address < span.1 {
            let p = choose|p: int|
                0 <= p < body.len() && #[trigger] body[p] == Op::I32Const(address) && !(p + 3
                    < body.len() && body[p + 3] is MemoryInit);
            assert(uses_at(body, p, address, span));
        }
    }
}

/// The span of the data is from its lowest segment to the end of its highest.
pub proof fn the_span_covers_every_segment(
    module: &Module,
    placements: Map<u32, Placement>,
    n: int,
    k: int,
)
    requires
        0 <= k < n <= module.datas@.len(),
        segment_base(module.datas@[k], placement_at(placements, k)) is Some,
    ensures
        ({
            let base = segment_base(module.datas@[k], placement_at(placements, k))->0;
            let span = span_of(module, placements, n);
            &&& span is Some
            &&& (span->0).0 <= base
            &&& base + module.datas@[k].bytes@.len() <= (span->0).1
        }),
    decreases n,
{
    if k < n - 1 {
        the_span_covers_every_segment(module, placements, n - 1, k);
    }
}

/// Each end of the span is that of a segment.
pub proof fn the_span_is_of_its_segments(module: &Module, placements: Map<u32, Placement>, n: int)
    requires
        0 <= n <= module.datas@.len(),
        span_of(module, placements, n) is Some,
    ensures
        exists|k: int|
            0 <= k < n && segment_base(
                #[trigger] module.datas@[k],
                placement_at(placements, k),
            ) is Some && (span_of(module, placements, n)->0).0 == segment_base(
                module.datas@[k],
                placement_at(placements, k),
            )->0,
        exists|k: int|
            0 <= k < n && segment_base(
                #[trigger] module.datas@[k],
                placement_at(placements, k),
            ) is Some && (span_of(module, placements, n)->0).1 == segment_base(
                module.datas@[k],
                placement_at(placements, k),
            )->0 + module.datas@[k].bytes@.len(),
    decreases n,
{
    if n > 0 {
        let last = module.datas@[n - 1];
        if span_of(module, placements, n - 1) is Some {
            the_span_is_of_its_segments(module, placements, n - 1);
            let low = choose|k: int|
                0 <= k < n - 1 && segment_base(
                    #[trigger] module.datas@[k],
                    placement_at(placements, k),
                ) is Some && (span_of(module, placements, n - 1)->0).0 == segment_base(
                    module.datas@[k],
                    placement_at(placements, k),
                )->0;
            let high = choose|k: int|
                0 <= k < n - 1 && segment_base(
                    #[trigger] module.datas@[k],
                    placement_at(placements, k),
                ) is Some && (span_of(module, placements, n - 1)->0).1 == segment_base(
                    module.datas@[k],
                    placement_at(placements, k),
                )->0 + module.datas@[k].bytes@.len();
            assert(module.datas@[low] == module.datas@[low]);
            assert(module.datas@[high] == module.datas@[high]);
        }
        assert(module.datas@[n - 1] == last);
    }
}

} // verus!
