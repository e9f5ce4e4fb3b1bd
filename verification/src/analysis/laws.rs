//! What holds of everything that is read out of a module.

use vstd::prelude::*;
use crate::analysis::access::{found_in, looked_for, picked, state_of, Access, Kind};
use crate::analysis::calls::{
    all_sites, body_calls, body_sites, edge, is_call_graph, is_way, leads_to, reachable, set_at,
    CallGraph,
};
use crate::analysis::classes::{adopted, are_classes, base_at, class_at, is_class, Class, Pair};
use crate::analysis::demangle::{components_of, demangled};
use crate::analysis::embind::{defines_type, types_of, Site};
use crate::analysis::frames::{promotable, FrameModel, slot_end};
use crate::analysis::image::PlacedModel;
use crate::analysis::names::{
    derived_name, identifier_of, named, offer, asserted, word_end, NameSource,
};
use crate::analysis::nesting::{deepest_of, most_open};
use crate::analysis::placement::{are_placements, places, Placement};
use crate::module::types::{Module, Op};
use vstd::utf8::encode_utf8;

verus! {

// ---- frames ----

/// Two slots that become variables share no byte, and each lies inside the frame.
pub proof fn promoted_slots_share_no_byte(frame: FrameModel, body: Seq<Op>, a: i32, b: i32)
    requires
        promotable(frame, body, a),
        promotable(frame, body, b),
        a < b,
    ensures
        a + (frame.slots[a].uniform->0).0 <= b,
        0 <= a,
        slot_end(a, (frame.slots[a].uniform->0).0) <= frame.size,
{
    assert(frame.slots.contains_key(b));
}

/// A frame whose address goes where it cannot be followed, that was copied, or that
/// is written through a computed address gives no variables.
pub proof fn what_cannot_be_followed_stays_in_memory(frame: FrameModel, body: Seq<Op>, offset: i32)
    requires
        frame.escapes || frame.copied || frame.computed_writes > 0,
    ensures
        !promotable(frame, body, offset),
{
}

// ---- calls ----

/// Who calls a function and what a function calls are two readings of the same
/// calls.
pub proof fn callers_and_callees_agree(graph: CallGraph, module: &Module, a: u32, b: u32)
    requires
        is_call_graph(graph, module),
    ensures
        set_at(graph.calls@, a).contains(b) == set_at(graph.called_by@, b).contains(a),
{
    assert(edge(graph.calls@, a, b) == module.calls(a, b));
    assert(edge(graph.called_by@, b, a) == module.calls(a, b));
}

/// A body that calls a function has a site that does.
proof fn lemma_a_call_is_a_site(body: Seq<Op>, callee: u32)
    ensures
        body_calls(body, callee) == (body_sites(body, callee) > 0),
    decreases body.len(),
{
    if body.len() > 0 {
        let less = body.drop_last();
        lemma_a_call_is_a_site(less, callee);
        if body_calls(body, callee) {
            let i = choose|i: int| 0 <= i < body.len() && #[trigger] body[i] == Op::Call(callee);
            if i < less.len() {
                assert(less[i] == Op::Call(callee));
            }
        }
        if body_calls(less, callee) {
            let i = choose|i: int| 0 <= i < less.len() && #[trigger] less[i] == Op::Call(callee);
            assert(body[i] == Op::Call(callee));
        }
        if body.last() == Op::Call(callee) {
            assert(body[body.len() - 1] == Op::Call(callee));
        }
    }
}

/// The functions among the first `n` that call another, by index.
spec fn callers_among(module: &Module, callee: u32, n: int) -> Set<u32>
    decreases n,
{
    if n <= 0 {
        Set::empty()
    } else {
        let before = callers_among(module, callee, n - 1);
        if body_calls(module.funcs@[n - 1].body@, callee) {
            before.insert((module.func_imports@.len() + n - 1) as u32)
        } else {
            before
        }
    }
}

proof fn lemma_callers_among(module: &Module, callee: u32, n: int)
    requires
        0 <= n <= module.funcs@.len(),
        module.func_imports@.len() + module.funcs@.len() <= u32::MAX,
    ensures
        callers_among(module, callee, n).finite(),
        callers_among(module, callee, n).len() <= all_sites(module.funcs@.take(n), callee),
        forall|a: u32| #[trigger]
            callers_among(module, callee, n).contains(a) == (module.calls(a, callee) && a
                - module.func_imports@.len() < n),
    decreases n,
{
    if n > 0 {
        lemma_callers_among(module, callee, n - 1);
        let next = module.funcs@.take(n);
        assert(next.drop_last() =~= module.funcs@.take(n - 1));
        assert(next.last() == module.funcs@[n - 1]);
        lemma_a_call_is_a_site(module.funcs@[n - 1].body@, callee);
    }
}

/// A function is reached from at least as many sites as it has callers: one caller
/// may call it at many sites, and none without one.
pub proof fn no_more_callers_than_sites(graph: CallGraph, module: &Module, func: u32)
    requires
        is_call_graph(graph, module),
        module.countable(),
    ensures
        set_at(graph.called_by@, func).len() <= graph.sites(func),
{
    let n = module.funcs@.len() as int;
    lemma_callers_among(module, func, n);
    assert(module.funcs@.take(n) =~= module.funcs@);
    let callers = callers_among(module, func, n);
    assert forall|a: u32| set_at(graph.called_by@, func).contains(a) == callers.contains(a) by {
        assert(edge(graph.called_by@, func, a) == module.calls(a, func));
    }
    assert(set_at(graph.called_by@, func) =~= callers);
}

/// Where a run starts is always reached.
pub proof fn the_start_is_reached(
    graph: CallGraph,
    table: Map<u32, u32>,
    module: &Module,
    through_the_table: bool,
    start: u32,
)
    ensures
        reachable(graph, table, module, through_the_table, start, start),
{
    assert(is_way(seq![start], graph, table, module, through_the_table, start, start));
}

/// What direct calls reach is reached.
pub proof fn direct_reach_is_reach(
    graph: CallGraph,
    table: Map<u32, u32>,
    module: &Module,
    from: u32,
    to: u32,
)
    requires
        reachable(graph, table, module, false, from, to),
    ensures
        reachable(graph, table, module, true, from, to),
{
    let way = choose|way: Seq<u32>| is_way(way, graph, table, module, false, from, to);
    assert forall|i: int| 0 <= i < way.len() - 1 implies leads_to(
        graph,
        table,
        module,
        true,
        #[trigger] way[i],
        way[i + 1],
    ) by {
        assert(leads_to(graph, table, module, false, way[i], way[i + 1]));
    }
    assert(is_way(way, graph, table, module, true, from, to));
}

/// What is reached from something reached is reached.
pub proof fn reach_goes_on(
    graph: CallGraph,
    table: Map<u32, u32>,
    module: &Module,
    through_the_table: bool,
    from: u32,
    via: u32,
    to: u32,
)
    requires
        reachable(graph, table, module, through_the_table, from, via),
        reachable(graph, table, module, through_the_table, via, to),
    ensures
        reachable(graph, table, module, through_the_table, from, to),
{
    let first = choose|way: Seq<u32>|
        is_way(way, graph, table, module, through_the_table, from, via);
    let second = choose|way: Seq<u32>|
        is_way(way, graph, table, module, through_the_table, via, to);
    let both = first + second.drop_first();
    assert forall|i: int| 0 <= i < both.len() - 1 implies leads_to(
        graph,
        table,
        module,
        through_the_table,
        #[trigger] both[i],
        both[i + 1],
    ) by {
        if i < first.len() - 1 {
            assert(both[i] == first[i]);
            assert(both[i + 1] == first[i + 1]);
        } else {
            let k = i - first.len() + 1;
            assert(both[i] == second[k]);
            assert(both[i + 1] == second[k + 1]);
        }
    }
    assert(is_way(both, graph, table, module, through_the_table, from, to));
}

// ---- placements ----

/// A segment that is placed in two ways is placed nowhere: both are true, so
/// neither can be used.
pub proof fn a_segment_placed_twice_is_dropped(
    map: Map<u32, Placement>,
    module: &Module,
    segment: u32,
    one: Placement,
    other: Placement,
)
    requires
        are_placements(map, module),
        places(module, segment, one),
        places(module, segment, other),
        one != other,
    ensures
        !map.contains_key(segment),
{
    if map.contains_key(segment) {
        let chosen = map[segment];
        assert(map.contains_key(segment) && map[segment] == chosen);
        assert(places(module, segment, chosen));
    }
}

// ---- names ----

/// The compiler's own name for a function beats what the function logs.
pub proof fn an_assertion_beats_a_message(
    module: &Module,
    placements: Map<u32, Placement>,
    at: int,
)
    requires
        derived_name(module, placements, at) is Some,
        asserted(
            module,
            placements,
            module.funcs@[at].body@,
            module.funcs@[at].body@.len() as int,
        ) is Some,
    ensures
        (derived_name(module, placements, at)->0).source == NameSource::Assert,
        asserted(
            module,
            placements,
            module.funcs@[at].body@,
            module.funcs@[at].body@.len() as int,
        ) == Some((derived_name(module, placements, at)->0).name),
{
}

/// A function that the module names gets no other name.
pub proof fn a_name_of_its_own_is_not_overridden(
    module: &Module,
    placements: Map<u32, Placement>,
    at: int,
)
    requires
        named(module, (module.func_imports@.len() + at) as u32),
    ensures
        derived_name(module, placements, at) is None,
{
}

/// A message that a function references once and others reference too names none of
/// them: nothing there tells them apart.
pub proof fn a_shared_message_logged_once_names_nothing(
    text: Seq<char>,
    owners: Map<Seq<char>, usize>,
)
    requires
        owners.contains_key(text),
        owners[text] > 1,
    ensures
        offer(text, 1, owners) is None,
{
}

/// A module path names nothing.
pub proof fn a_module_path_names_nothing(text: Seq<char>)
    requires
        word_end(text, 0) + 1 < text.len(),
        text[word_end(text, 0)] == ':',
        text[word_end(text, 0) + 1] == ':',
    ensures
        identifier_of(text) is None,
{
}

// ---- embind ----

/// Whether a registration says something of a type's id.
pub open spec fn speaks_of(site: Site, id: i32) -> bool {
    &&& defines_type(site.kind)
    &&& site.name is Some
    &&& site.arguments is Some
    &&& {
        let ids = site.arguments->0;
        let class = site.kind == "_embind_register_class"@;
        ||| ids.len() > 0 && ids[0] == id
        ||| class && ids.len() > 1 && ids[1] == id
        ||| class && ids.len() > 2 && ids[2] == id
    }
}

/// A type has the name it was registered under in every signature, whether that was
/// before or after what uses it, unless a later registration speaks of its id.
pub proof fn a_type_is_named_wherever_it_is_registered(sites: Seq<Site>, i: int, id: i32)
    requires
        0 <= i < sites.len(),
        sites[i].kind != "_embind_register_class"@,
        speaks_of(sites[i], id),
        forall|j: int| i < j < sites.len() ==> !speaks_of(#[trigger] sites[j], id),
    ensures
        types_of(sites).contains_key(id),
        types_of(sites)[id] == sites[i].name->0,
    decreases sites.len(),
{
    let less = sites.drop_last();
    if i < less.len() {
        assert(less[i] == sites[i]);
        assert forall|j: int| i < j < less.len() implies !speaks_of(#[trigger] less[j], id) by {
            assert(less[j] == sites[j]);
        }
        a_type_is_named_wherever_it_is_registered(less, i, id);
        assert(!speaks_of(sites[sites.len() - 1], id));
    }
}

// ---- classes ----

/// A class that another names as its base is itself reported.
pub proof fn every_base_is_a_class(
    list: Seq<Class>,
    image: Seq<PlacedModel>,
    table: Map<u32, u32>,
    pairs: Seq<Pair>,
    i: int,
)
    requires
        are_classes(list, image, table, pairs),
        0 <= i < list.len(),
        list[i].base is Some,
    ensures
        exists|j: int| 0 <= j < list.len() && (#[trigger] list[j]).type_info == list[i].base->0,
{
    let at = list[i].type_info;
    let base = list[i].base->0;
    assert(list[i]@ == class_at(image, table, pairs, at));
    assert(list[i]@.base == list[i].base);
    assert(base_at(image, pairs, at) == Some(base));
    assert(adopted(image, pairs, base));
    assert(is_class(image, pairs, base));
}

/// A type name that cannot be read in full stays as the module wrote it.
pub proof fn an_unreadable_name_stays_as_it_is(mangled: Seq<char>)
    requires
        components_of(encode_utf8(mangled)) is None,
    ensures
        demangled(mangled) == (mangled, mangled),
{
}

// ---- accesses ----

/// Asking for both kinds of access finds what asking for each would.
pub proof fn both_is_loads_and_stores(
    access: Access,
    offset: i64,
    width: Option<u32>,
    exact: bool,
)
    ensures
        looked_for(access, offset, width, Kind::Both, exact) == (looked_for(
            access,
            offset,
            width,
            Kind::Load,
            exact,
        ) || looked_for(access, offset, width, Kind::Store, exact)),
{
}

// ---- nesting ----

/// No function nests deeper than the deepest, and none before it as deep.
pub proof fn the_deepest_is_the_first_of_the_deepest(module: &Module, n: int, at: int)
    requires
        0 <= at < n <= module.funcs@.len(),
        module.func_imports@.len() + module.funcs@.len() <= u32::MAX,
    ensures
        deepest_of(module, n) is Some,
        most_open(module.funcs@[at].body@) <= (deepest_of(module, n)->0).1,
        most_open(module.funcs@[at].body@) == (deepest_of(module, n)->0).1 ==> (deepest_of(
            module,
            n,
        )->0).0 <= module.func_imports@.len() + at,
    decreases n,
{
    if at < n - 1 {
        the_deepest_is_the_first_of_the_deepest(module, n - 1, at);
    } else if n > 1 {
        lemma_deepest_is_before(module, n - 1);
    }
}

/// The deepest of the first functions is one of them.
proof fn lemma_deepest_is_before(module: &Module, n: int)
    requires
        0 < n <= module.funcs@.len(),
        module.func_imports@.len() + module.funcs@.len() <= u32::MAX,
    ensures
        deepest_of(module, n) is Some,
        (deepest_of(module, n)->0).0 < module.func_imports@.len() + n,
    decreases n,
{
    if n > 1 {
        lemma_deepest_is_before(module, n - 1);
    } else {
        assert(deepest_of(module, 0) is None);
    }
}

// ---- what was found ----

/// Of a list, exactly the accesses that are looked for are picked.
proof fn lemma_picked(
    accesses: Seq<Access>,
    offset: i64,
    width: Option<u32>,
    kind: Kind,
    exact: bool,
    access: Access,
)
    ensures
        picked(accesses, offset, width, kind, exact).contains(access) == (accesses.contains(access)
            && looked_for(access, offset, width, kind, exact)),
    decreases accesses.len(),
{
    let out = picked(accesses, offset, width, kind, exact);
    if accesses.len() > 0 {
        let less = accesses.drop_last();
        let before = picked(less, offset, width, kind, exact);
        lemma_picked(less, offset, width, kind, exact, access);
        assert(accesses =~= less.push(accesses.last()));
        lemma_contains_push(less, accesses.last(), access);
        lemma_contains_push(before, accesses.last(), access);
    }
}

/// What a list with one more holds.
proof fn lemma_contains_push<T>(list: Seq<T>, last: T, item: T)
    ensures
        list.push(last).contains(item) == (list.contains(item) || item == last),
{
    let more = list.push(last);
    if list.contains(item) {
        let i = choose|i: int| 0 <= i < list.len() && list[i] == item;
        assert(more[i] == item);
    }
    if more.contains(item) {
        let i = choose|i: int| 0 <= i < more.len() && more[i] == item;
        if i < list.len() {
            assert(list[i] == item);
        }
    }
    assert(more[list.len() as int] == last);
}

/// What two lists together hold.
proof fn lemma_contains_both<T>(left: Seq<T>, right: Seq<T>, item: T)
    ensures
        (left + right).contains(item) == (left.contains(item) || right.contains(item)),
{
    let both = left + right;
    if both.contains(item) {
        let i = choose|i: int| 0 <= i < both.len() && both[i] == item;
        if i < left.len() {
            assert(left[i] == item);
        } else {
            assert(right[i - left.len()] == item);
        }
    }
    if left.contains(item) {
        let i = choose|i: int| 0 <= i < left.len() && left[i] == item;
        assert(both[i] == item);
    }
    if right.contains(item) {
        let i = choose|i: int| 0 <= i < right.len() && right[i] == item;
        assert(both[left.len() + i] == item);
    }
}

/// A search finds an access exactly if some function makes it and it is one that was
/// looked for: nothing is passed over and nothing is made up.
pub proof fn a_search_finds_exactly_what_is_there(
    module: &Module,
    n: int,
    offset: i64,
    width: Option<u32>,
    kind: Kind,
    exact: bool,
    access: Access,
)
    requires
        0 <= n <= module.funcs@.len(),
    ensures
        found_in(module, n, offset, width, kind, exact).contains(access) == (looked_for(
            access,
            offset,
            width,
            kind,
            exact,
        ) && exists|at: int| 0 <= at < n && (#[trigger] state_of(module, at)).found.contains(access)),
    decreases n,
{
    if n > 0 {
        let before = found_in(module, n - 1, offset, width, kind, exact);
        let here = picked(state_of(module, n - 1).found, offset, width, kind, exact);
        let both = found_in(module, n, offset, width, kind, exact);
        a_search_finds_exactly_what_is_there(module, n - 1, offset, width, kind, exact, access);
        lemma_picked(state_of(module, n - 1).found, offset, width, kind, exact, access);
        assert(both == before + here);
        lemma_contains_both(before, here, access);
        if exists|at: int|
            0 <= at < n - 1 && (#[trigger] state_of(module, at)).found.contains(access) {
            let at = choose|at: int|
                0 <= at < n - 1 && (#[trigger] state_of(module, at)).found.contains(access);
            assert(state_of(module, at).found.contains(access));
        }
    }
}

} // verus!
