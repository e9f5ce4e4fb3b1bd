//! Who calls whom.

use vstd::prelude::*;
use std::collections::{BTreeMap, BTreeSet};
use crate::analysis::sets::{keys_u32, members_u32};
use crate::module::types::{ConstExpr, ElemSegment, Func, Module, Op};

verus! {

/// Who calls whom.
///
/// A call site says which function it calls; nothing says who calls *this* one,
/// and that is the direction a reader wants.
#[derive(Debug, Clone)]
pub struct CallGraph {
    /// For each function, the functions it calls directly.
    pub calls: BTreeMap<u32, BTreeSet<u32>>,
    /// For each function, the functions that call it directly.
    pub called_by: BTreeMap<u32, BTreeSet<u32>>,
    /// For each function, the signatures it calls through the table.
    ///
    /// An indirect call names a type, not a target. Which functions that could
    /// reach is the table's business.
    pub calls_indirectly: BTreeMap<u32, BTreeSet<u32>>,
    /// For each function, how many call *sites* reach it.
    ///
    /// Not the same number as how many functions call it: one caller that calls
    /// a function forty times is forty sites.
    pub call_sites: BTreeMap<u32, usize>,
}

impl Default for CallGraph {
    fn default() -> (graph: Self)
        ensures
            graph.calls@ == Map::<u32, BTreeSet<u32>>::empty(),
            graph.called_by@ == Map::<u32, BTreeSet<u32>>::empty(),
            graph.calls_indirectly@ == Map::<u32, BTreeSet<u32>>::empty(),
            graph.call_sites@ == Map::<u32, usize>::empty(),
    {
        CallGraph {
            calls: BTreeMap::new(),
            called_by: BTreeMap::new(),
            calls_indirectly: BTreeMap::new(),
            call_sites: BTreeMap::new(),
        }
    }
}

/// Whether a map of sets holds a pair.
pub open spec fn edge(map: Map<u32, BTreeSet<u32>>, from: u32, to: u32) -> bool {
    map.contains_key(from) && map[from]@.contains(to)
}

/// Whether every key of a map of sets has something in its set.
pub open spec fn none_empty(map: Map<u32, BTreeSet<u32>>) -> bool {
    forall|from: u32| #[trigger] map.contains_key(from) ==> exists|to: u32| edge(map, from, to)
}

/// The set a key of a map of sets has, or the empty one.
pub open spec fn set_at(map: Map<u32, BTreeSet<u32>>, from: u32) -> Set<u32> {
    if map.contains_key(from) {
        map[from]@
    } else {
        Set::empty()
    }
}

/// The count a map has for a key, or zero.
pub open spec fn count_at(map: Map<u32, usize>, key: u32) -> nat {
    if map.contains_key(key) {
        map[key] as nat
    } else {
        0
    }
}

impl CallGraph {
    /// How many call sites reach a function.
    pub open spec fn sites(&self, func: u32) -> nat {
        count_at(self.call_sites@, func)
    }

    /// The functions this one calls directly.
    pub fn calls_from(&self, func: u32) -> (callees: BTreeSet<u32>)
        ensures
            callees@ == set_at(self.calls@, func),
    {
        match self.calls.get(&func) {
            Some(callees) => callees.clone(),
            None => BTreeSet::new(),
        }
    }

    /// How many call sites reach this function.
    pub fn sites_reaching(&self, func: u32) -> (count: usize)
        ensures
            count == self.sites(func),
    {
        match self.call_sites.get(&func) {
            Some(count) => *count,
            None => 0,
        }
    }

    /// The functions that call this one directly.
    pub fn callers_of(&self, func: u32) -> (callers: BTreeSet<u32>)
        ensures
            callers@ == set_at(self.called_by@, func),
    {
        match self.called_by.get(&func) {
            Some(callers) => callers.clone(),
            None => BTreeSet::new(),
        }
    }
}

/// Adds a pair to a map of sets.
fn add_edge(map: &mut BTreeMap<u32, BTreeSet<u32>>, from: u32, to: u32)
    ensures
        forall|a: u32, b: u32|
            edge(final(map)@, a, b) == (edge(old(map)@, a, b) || (a == from && b == to)),
        none_empty(old(map)@) ==> none_empty(final(map)@),
{
    let ghost before = map@;
    let mut set: BTreeSet<u32> = match map.remove(&from) {
        Some(set) => set,
        None => BTreeSet::new(),
    };
    let ghost had = set@;
    set.insert(to);
    map.insert(from, set);
    proof {
        assert(map@[from]@ == had.insert(to));
        assert forall|a: u32, b: u32|
            edge(map@, a, b) == (edge(before, a, b) || (a == from && b == to)) by {}
        if none_empty(before) {
            assert forall|a: u32| #[trigger] map@.contains_key(a) implies exists|b: u32|
                edge(map@, a, b) by {
                if a == from {
                    assert(edge(map@, a, to));
                } else {
                    assert(before.contains_key(a));
                    let b = choose|b: u32| edge(before, a, b);
                    assert(edge(map@, a, b));
                }
            }
        }
    }
}

/// Whether a body calls a function directly.
pub open spec fn body_calls(body: Seq<Op>, callee: u32) -> bool {
    exists|i: int| 0 <= i < body.len() && #[trigger] body[i] == Op::Call(callee)
}

/// Whether a body calls through the table with a type.
pub open spec fn body_calls_type(body: Seq<Op>, type_index: u32) -> bool {
    exists|i: int|
        0 <= i < body.len() && #[trigger] body[i] == (Op::CallIndirect { type_index })
}

/// How many sites of a body call a function.
pub open spec fn body_sites(body: Seq<Op>, callee: u32) -> nat
    decreases body.len(),
{
    if body.len() == 0 {
        0
    } else {
        body_sites(body.drop_last(), callee) + if body.last() == Op::Call(callee) {
            1nat
        } else {
            0
        }
    }
}

/// How many sites of some functions call a function.
pub open spec fn all_sites(funcs: Seq<Func>, callee: u32) -> nat
    decreases funcs.len(),
{
    if funcs.len() == 0 {
        0
    } else {
        all_sites(funcs.drop_last(), callee) + body_sites(funcs.last().body@, callee)
    }
}

/// How many instructions some functions have.
pub open spec fn all_ops(funcs: Seq<Func>) -> nat
    decreases funcs.len(),
{
    if funcs.len() == 0 {
        0
    } else {
        all_ops(funcs.drop_last()) + funcs.last().body@.len()
    }
}

impl Module {
    /// Function indices are 32-bit numbers, and the instructions can be counted.
    pub open spec fn countable(&self) -> bool {
        &&& self.func_imports@.len() + self.funcs@.len() <= u32::MAX
        &&& all_ops(self.funcs@) <= usize::MAX
    }

    /// Whether a function, by index, is defined here and its body calls another.
    pub open spec fn calls(&self, caller: u32, callee: u32) -> bool {
        let at = caller - self.func_imports@.len();
        0 <= at < self.funcs@.len() && body_calls(self.funcs@[at].body@, callee)
    }

    /// Whether a function, by index, is defined here and its body calls through
    /// the table with a type.
    pub open spec fn calls_type(&self, caller: u32, type_index: u32) -> bool {
        let at = caller - self.func_imports@.len();
        0 <= at < self.funcs@.len() && body_calls_type(self.funcs@[at].body@, type_index)
    }
}

/// What a call graph of a module is.
pub open spec fn is_call_graph(graph: CallGraph, module: &Module) -> bool {
    &&& forall|a: u32, b: u32| #[trigger] edge(graph.calls@, a, b) == module.calls(a, b)
    &&& forall|a: u32, b: u32| #[trigger] edge(graph.called_by@, b, a) == module.calls(a, b)
    &&& forall|a: u32, ty: u32| #[trigger]
        edge(graph.calls_indirectly@, a, ty) == module.calls_type(a, ty)
    &&& forall|b: u32| #[trigger] graph.sites(b) == all_sites(module.funcs@, b)
    &&& forall|b: u32| #[trigger]
        graph.call_sites@.contains_key(b) == (all_sites(module.funcs@, b) > 0)
    &&& none_empty(graph.calls@)
    &&& none_empty(graph.called_by@)
    &&& none_empty(graph.calls_indirectly@)
}

/// A body has no more call sites than instructions.
proof fn lemma_body_sites(body: Seq<Op>, callee: u32)
    ensures
        body_sites(body, callee) <= body.len(),
    decreases body.len(),
{
    if body.len() > 0 {
        lemma_body_sites(body.drop_last(), callee);
    }
}

/// Some functions have no more call sites than instructions.
proof fn lemma_all_sites(funcs: Seq<Func>, callee: u32)
    ensures
        all_sites(funcs, callee) <= all_ops(funcs),
    decreases funcs.len(),
{
    if funcs.len() > 0 {
        lemma_all_sites(funcs.drop_last(), callee);
        lemma_body_sites(funcs.last().body@, callee);
    }
}

/// The first functions have no more instructions than all of them.
proof fn lemma_all_ops_prefix(funcs: Seq<Func>, n: int)
    requires
        0 <= n <= funcs.len(),
    ensures
        all_ops(funcs.take(n)) <= all_ops(funcs),
    decreases funcs.len() - n,
{
    if n < funcs.len() {
        assert(funcs.take(n + 1).drop_last() =~= funcs.take(n));
        lemma_all_ops_prefix(funcs, n + 1);
    } else {
        assert(funcs.take(n) =~= funcs);
    }
}

/// Reads the calls of one body into a graph.
fn read_calls(graph: &mut CallGraph, caller: u32, body: &Vec<Op>)
    requires
        forall|b: u32| #[trigger] count_at(old(graph).call_sites@, b) + body@.len() <= usize::MAX,
    ensures
        forall|a: u32, b: u32|
            #[trigger] edge(final(graph).calls@, a, b) == (edge(old(graph).calls@, a, b) || (a == caller
                && body_calls(body@, b))),
        forall|a: u32, b: u32|
            #[trigger] edge(final(graph).called_by@, b, a) == (edge(old(graph).called_by@, b, a) || (a
                == caller && body_calls(body@, b))),
        forall|a: u32, ty: u32|
            #[trigger] edge(final(graph).calls_indirectly@, a, ty) == (edge(
                old(graph).calls_indirectly@,
                a,
                ty,
            ) || (a == caller && body_calls_type(body@, ty))),
        forall|b: u32| #[trigger]
            count_at(final(graph).call_sites@, b) == count_at(old(graph).call_sites@, b) + body_sites(body@, b),
        forall|b: u32| #[trigger]
            final(graph).call_sites@.contains_key(b) == (old(graph).call_sites@.contains_key(b)
                || body_sites(body@, b) > 0),
        none_empty(old(graph).calls@) ==> none_empty(final(graph).calls@),
        none_empty(old(graph).called_by@) ==> none_empty(final(graph).called_by@),
        none_empty(old(graph).calls_indirectly@) ==> none_empty(final(graph).calls_indirectly@),
{
    let mut i: usize = 0;
    assert(body@.take(0) =~= Seq::empty());
    while i < body.len()
        invariant
            i <= body@.len(),
            forall|b: u32| #[trigger] count_at(old(graph).call_sites@, b) + body@.len() <= usize::MAX,
            forall|a: u32, b: u32|
                #[trigger] edge(graph.calls@, a, b) == (edge(old(graph).calls@, a, b) || (a == caller
                    && body_calls(body@.take(i as int), b))),
            forall|a: u32, b: u32|
                #[trigger] edge(graph.called_by@, b, a) == (edge(old(graph).called_by@, b, a) || (a == caller
                    && body_calls(body@.take(i as int), b))),
            forall|a: u32, ty: u32|
                #[trigger] edge(graph.calls_indirectly@, a, ty) == (edge(
                    old(graph).calls_indirectly@,
                    a,
                    ty,
                ) || (a == caller && body_calls_type(body@.take(i as int), ty))),
            forall|b: u32| #[trigger]
                count_at(graph.call_sites@, b) == count_at(old(graph).call_sites@, b) + body_sites(body@.take(i as int), b),
            forall|b: u32| #[trigger]
                graph.call_sites@.contains_key(b) == (old(graph).call_sites@.contains_key(b)
                    || body_sites(body@.take(i as int), b) > 0),
            none_empty(old(graph).calls@) ==> none_empty(graph.calls@),
            none_empty(old(graph).called_by@) ==> none_empty(graph.called_by@),
            none_empty(old(graph).calls_indirectly@) ==> none_empty(graph.calls_indirectly@),
        decreases body@.len() - i,
    {
        let ghost done = body@.take(i as int);
        let ghost next = body@.take(i + 1);
        proof {
            assert(next.drop_last() =~= done);
            assert(next.last() == body@[i as int]);
            assert forall|b: u32|
                body_calls(next, b) == (body_calls(done, b) || body@[i as int] == Op::Call(b)) by {
                lemma_calls_push(done, body@[i as int], b);
                assert(next =~= done.push(body@[i as int]));
            }
            assert forall|ty: u32|
                body_calls_type(next, ty) == (body_calls_type(done, ty) || body@[i as int] == (
                Op::CallIndirect { type_index: ty })) by {
                lemma_calls_type_push(done, body@[i as int], ty);
                assert(next =~= done.push(body@[i as int]));
            }
        }
        match &body[i] {
            Op::Call(callee) => {
                let callee: u32 = *callee;
                add_edge(&mut graph.calls, caller, callee);
                add_edge(&mut graph.called_by, callee, caller);
                let count: usize = match graph.call_sites.get(&callee) {
                    Some(count) => *count,
                    None => 0,
                };
                let ghost counted = *graph;
                proof {
                    lemma_body_sites(done, callee);
                    assert(count_at(graph.call_sites@, callee) == count);
                    assert(count_at(old(graph).call_sites@, callee) + body@.len() <= usize::MAX);
                }
                graph.call_sites.insert(callee, count + 1);
                proof {
                    assert forall|b: u32| #[trigger]
                        count_at(graph.call_sites@, b) == count_at(old(graph).call_sites@, b) + body_sites(next, b) by {
                        assert(count_at(counted.call_sites@, b) == count_at(old(graph).call_sites@, b) + body_sites(done, b));
                    }
                }
            },
            Op::CallIndirect { type_index } => {
                add_edge(&mut graph.calls_indirectly, caller, *type_index);
            },
            _ => {},
        }
        i = i + 1;
    }
    assert(body@.take(i as int) =~= body@);
}

/// One more instruction calls what it calls.
proof fn lemma_calls_push(body: Seq<Op>, op: Op, callee: u32)
    ensures
        body_calls(body.push(op), callee) == (body_calls(body, callee) || op == Op::Call(callee)),
{
    let more = body.push(op);
    if body_calls(body, callee) {
        let i = choose|i: int| 0 <= i < body.len() && #[trigger] body[i] == Op::Call(callee);
        assert(more[i] == Op::Call(callee));
    }
    if op == Op::Call(callee) {
        assert(more[body.len() as int] == Op::Call(callee));
    }
    if body_calls(more, callee) {
        let i = choose|i: int| 0 <= i < more.len() && #[trigger] more[i] == Op::Call(callee);
        if i < body.len() {
            assert(body[i] == Op::Call(callee));
        }
    }
}

/// One more instruction calls the type it calls.
proof fn lemma_calls_type_push(body: Seq<Op>, op: Op, type_index: u32)
    ensures
        body_calls_type(body.push(op), type_index) == (body_calls_type(body, type_index) || op == (
        Op::CallIndirect { type_index })),
{
    let more = body.push(op);
    let wanted = Op::CallIndirect { type_index };
    if body_calls_type(body, type_index) {
        let i = choose|i: int| 0 <= i < body.len() && #[trigger] body[i] == wanted;
        assert(more[i] == wanted);
    }
    if op == wanted {
        assert(more[body.len() as int] == wanted);
    }
    if body_calls_type(more, type_index) {
        let i = choose|i: int| 0 <= i < more.len() && #[trigger] more[i] == wanted;
        if i < body.len() {
            assert(body[i] == wanted);
        }
    }
}

/// Reads the call graph out of the function bodies.
pub fn read_call_graph(module: &Module) -> (graph: CallGraph)
    requires
        module.countable(),
    ensures
        is_call_graph(graph, module),
{
    let import_count: u32 = module.func_imports.len() as u32;
    let mut graph: CallGraph = CallGraph::default();
    let mut at: usize = 0;
    assert(module.funcs@.take(0) =~= Seq::empty());
    while at < module.funcs.len()
        invariant
            module.countable(),
            import_count == module.func_imports@.len(),
            at <= module.funcs@.len(),
            forall|a: u32, b: u32|
                #[trigger] edge(graph.calls@, a, b) == (module.calls(a, b) && a - import_count < at),
            forall|a: u32, b: u32|
                #[trigger] edge(graph.called_by@, b, a) == (module.calls(a, b) && a - import_count < at),
            forall|a: u32, ty: u32|
                #[trigger] edge(graph.calls_indirectly@, a, ty) == (module.calls_type(a, ty) && a
                    - import_count < at),
            forall|b: u32| #[trigger]
                count_at(graph.call_sites@, b) == all_sites(module.funcs@.take(at as int), b),
            forall|b: u32| #[trigger]
                graph.call_sites@.contains_key(b) == (all_sites(module.funcs@.take(at as int), b)
                    > 0),
            none_empty(graph.calls@),
            none_empty(graph.called_by@),
            none_empty(graph.calls_indirectly@),
        decreases module.funcs@.len() - at,
    {
        let ghost done = module.funcs@.take(at as int);
        let ghost next = module.funcs@.take(at + 1);
        let ghost body = module.funcs@[at as int].body@;
        proof {
            assert(next.drop_last() =~= done);
            assert(next.last() == module.funcs@[at as int]);
            lemma_all_ops_prefix(module.funcs@, at + 1);
            assert forall|b: u32| #[trigger] count_at(graph.call_sites@, b) + body.len() <= usize::MAX by {
                lemma_all_sites(done, b);
            }
        }
        let caller: u32 = import_count + at as u32;
        let ghost had = graph;
        read_calls(&mut graph, caller, &module.funcs[at].body);
        proof {
            assert forall|a: u32, b: u32|
                #[trigger] edge(graph.calls@, a, b) == (module.calls(a, b) && a - import_count < at + 1) by {
                assert(a == caller ==> module.calls(a, b) == body_calls(body, b));
            }
            assert forall|a: u32, b: u32|
                #[trigger] edge(graph.called_by@, b, a) == (module.calls(a, b) && a - import_count < at
                    + 1) by {
                assert(a == caller ==> module.calls(a, b) == body_calls(body, b));
            }
            assert forall|a: u32, ty: u32|
                #[trigger] edge(graph.calls_indirectly@, a, ty) == (module.calls_type(a, ty) && a
                    - import_count < at + 1) by {
                assert(a == caller ==> module.calls_type(a, ty) == body_calls_type(body, ty));
            }
        }
        at = at + 1;
    }
    assert(module.funcs@.take(at as int) =~= module.funcs@);
    graph
}

/// The type index of a function, whether imported or defined.
pub fn type_index_of(module: &Module, func: u32) -> (index: Option<u32>)
    ensures
        index == module.type_index(func),
{
    let at: usize = func as usize;
    let imports: usize = module.func_imports.len();
    if at < imports {
        Some(module.func_imports[at].type_index)
    } else if at - imports < module.funcs.len() {
        Some(module.funcs[at - imports].type_index)
    } else {
        None
    }
}

// ---- the table ----

/// The table after a segment was copied into it.
pub open spec fn filled(table: Map<u32, u32>, base: u32, funcs: Seq<u32>) -> Map<u32, u32>
    decreases funcs.len(),
{
    if funcs.len() == 0 {
        table
    } else {
        filled(table, base, funcs.drop_last()).insert(
            base.wrapping_add((funcs.len() - 1) as u32),
            funcs.last(),
        )
    }
}

/// The table the element segments make. A passive or declared segment is not in
/// the table until something puts it there.
pub open spec fn table_of(segments: Seq<ElemSegment>) -> Map<u32, u32>
    decreases segments.len(),
{
    if segments.len() == 0 {
        Map::empty()
    } else {
        let table = table_of(segments.drop_last());
        match segments.last().offset {
            Some(ConstExpr::I32(base)) => filled(table, base as u32, segments.last().funcs@),
            _ => table,
        }
    }
}

/// Reads the function table's contents from the element segments: slot to
/// function.
pub fn read_table(module: &Module) -> (table: BTreeMap<u32, u32>)
    ensures
        table@ == table_of(module.elems@),
{
    let mut table: BTreeMap<u32, u32> = BTreeMap::new();
    let mut at: usize = 0;
    assert(module.elems@.take(0) =~= Seq::empty());
    while at < module.elems.len()
        invariant
            at <= module.elems@.len(),
            table@ == table_of(module.elems@.take(at as int)),
        decreases module.elems@.len() - at,
    {
        let ghost before = table@;
        let ghost segment = module.elems@[at as int];
        proof {
            let next = module.elems@.take(at + 1);
            assert(next.drop_last() =~= module.elems@.take(at as int));
            assert(next.last() == segment);
        }
        match module.elems[at].offset {
            Some(ConstExpr::I32(base)) => {
                let mut i: usize = 0;
                assert(segment.funcs@.take(0) =~= Seq::empty());
                while i < module.elems[at].funcs.len()
                    invariant
                        at < module.elems@.len(),
                        segment == module.elems@[at as int],
                        i <= segment.funcs@.len(),
                        table@ == filled(before, base as u32, segment.funcs@.take(i as int)),
                    decreases segment.funcs@.len() - i,
                {
                    proof {
                        let next = segment.funcs@.take(i + 1);
                        assert(next.drop_last() =~= segment.funcs@.take(i as int));
                    }
                    table.insert((base as u32).wrapping_add(i as u32), module.elems[at].funcs[i]);
                    i = i + 1;
                }
                assert(segment.funcs@.take(i as int) =~= segment.funcs@);
            },
            _ => {},
        }
        at = at + 1;
    }
    assert(module.elems@.take(at as int) =~= module.elems@);
    table
}

// ---- what is reachable ----

/// Whether running one function can lead straight to another: by a direct call,
/// or, through the table, by an indirect call with the other's type.
pub open spec fn leads_to(
    graph: CallGraph,
    table: Map<u32, u32>,
    module: &Module,
    through_the_table: bool,
    from: u32,
    to: u32,
) -> bool {
    ||| edge(graph.calls@, from, to)
    ||| through_the_table && exists|ty: u32| #[trigger]
        edge(graph.calls_indirectly@, from, ty) && in_table(table, module, ty, to)
}

/// Whether the table holds a function, of a type.
pub open spec fn in_table(table: Map<u32, u32>, module: &Module, ty: u32, func: u32) -> bool {
    module.type_index(func) == Some(ty) && exists|slot: u32| #[trigger]
        table.contains_key(slot) && table[slot] == func
}

/// Whether a list of functions is a way from one to another.
pub open spec fn is_way(
    way: Seq<u32>,
    graph: CallGraph,
    table: Map<u32, u32>,
    module: &Module,
    through_the_table: bool,
    from: u32,
    to: u32,
) -> bool {
    &&& way.len() > 0
    &&& way[0] == from
    &&& way.last() == to
    &&& forall|i: int|
        0 <= i < way.len() - 1 ==> leads_to(
            graph,
            table,
            module,
            through_the_table,
            #[trigger] way[i],
            way[i + 1],
        )
}

/// Whether one function can be reached from another, itself included.
pub open spec fn reachable(
    graph: CallGraph,
    table: Map<u32, u32>,
    module: &Module,
    through_the_table: bool,
    from: u32,
    to: u32,
) -> bool {
    exists|way: Seq<u32>| is_way(way, graph, table, module, through_the_table, from, to)
}

/// One more step goes one further.
proof fn lemma_way_step(
    graph: CallGraph,
    table: Map<u32, u32>,
    module: &Module,
    through_the_table: bool,
    from: u32,
    via: u32,
    to: u32,
)
    requires
        reachable(graph, table, module, through_the_table, from, via),
        leads_to(graph, table, module, through_the_table, via, to),
    ensures
        reachable(graph, table, module, through_the_table, from, to),
{
    let way = choose|way: Seq<u32>|
        is_way(way, graph, table, module, through_the_table, from, via);
    let longer = way.push(to);
    assert forall|i: int| 0 <= i < longer.len() - 1 implies leads_to(
        graph,
        table,
        module,
        through_the_table,
        #[trigger] longer[i],
        longer[i + 1],
    ) by {
        if i < way.len() - 1 {
            assert(longer[i] == way[i]);
            assert(longer[i + 1] == way[i + 1]);
        }
    }
    assert(is_way(longer, graph, table, module, through_the_table, from, to));
}

/// A set that holds the start and everything its members lead to holds every way.
proof fn lemma_closed(
    set: Set<u32>,
    graph: CallGraph,
    table: Map<u32, u32>,
    module: &Module,
    through_the_table: bool,
    way: Seq<u32>,
    from: u32,
    to: u32,
)
    requires
        set.contains(from),
        forall|a: u32, b: u32|
            set.contains(a) && leads_to(graph, table, module, through_the_table, a, b)
                ==> set.contains(b),
        is_way(way, graph, table, module, through_the_table, from, to),
    ensures
        set.contains(to),
    decreases way.len(),
{
    if way.len() > 1 {
        let shorter = way.drop_last();
        let via = shorter.last();
        assert forall|i: int| 0 <= i < shorter.len() - 1 implies leads_to(
            graph,
            table,
            module,
            through_the_table,
            #[trigger] shorter[i],
            shorter[i + 1],
        ) by {
            assert(way[i] == shorter[i]);
        }
        lemma_closed(set, graph, table, module, through_the_table, shorter, from, via);
        assert(way[way.len() - 2] == via);
    }
}

/// A set of 32-bit numbers has no more members than there are.
proof fn lemma_u32_set(set: Set<u32>)
    requires
        set.finite(),
    ensures
        set.len() <= 0x1_0000_0000,
{
    let all = vstd::set_lib::set_int_range(0, 0x1_0000_0000);
    vstd::set_lib::lemma_int_range(0, 0x1_0000_0000);
    let numbers = set.map(|n: u32| n as int);
    assert(numbers.subset_of(all));
    vstd::set_lib::lemma_len_subset(numbers, all);
    vstd::set_lib::lemma_map_size(set, numbers, |n: u32| n as int);
}

/// The functions the table holds, by type.
fn by_type(module: &Module, table: &BTreeMap<u32, u32>) -> (types: BTreeMap<u32, BTreeSet<u32>>)
    ensures
        forall|ty: u32, func: u32|
            edge(types@, ty, func) == in_table(table@, module, ty, func),
{
    let slots: Vec<u32> = keys_u32(table);
    let mut types: BTreeMap<u32, BTreeSet<u32>> = BTreeMap::new();
    let mut i: usize = 0;
    while i < slots.len()
        invariant
            i <= slots@.len(),
            forall|slot: u32| #[trigger] slots@.contains(slot) == table@.contains_key(slot),
            forall|ty: u32, func: u32|
                edge(types@, ty, func) == (module.type_index(func) == Some(ty) && exists|j: int|
                    0 <= j < i && table@[#[trigger] slots@[j]] == func),
        decreases slots@.len() - i,
    {
        let ghost before = types@;
        assert(slots@.contains(slots@[i as int]));
        match table.get(&slots[i]) {
            Some(func) => {
                let func: u32 = *func;
                assert(table@[slots@[i as int]] == func);
                match type_index_of(module, func) {
                    Some(ty) => {
                        add_edge(&mut types, ty, func);
                    },
                    None => {},
                }
                assert forall|ty: u32, other: u32|
                    edge(types@, ty, other) == (module.type_index(other) == Some(ty)
                        && exists|j: int|
                        0 <= j < i + 1 && table@[#[trigger] slots@[j]] == other) by {
                    if edge(before, ty, other) {
                        let j = choose|j: int| 0 <= j < i && table@[#[trigger] slots@[j]] == other;
                        assert(table@[slots@[j]] == other);
                    }
                }
            },
            None => {},
        }
        i = i + 1;
    }
    proof {
        assert forall|ty: u32, func: u32|
            edge(types@, ty, func) == in_table(table@, module, ty, func) by {
            if in_table(table@, module, ty, func) {
                let slot = choose|slot: u32| #[trigger]
                    table@.contains_key(slot) && table@[slot] == func;
                assert(slots@.contains(slot));
                let j = choose|j: int| 0 <= j < slots@.len() && slots@[j] == slot;
                assert(table@[slots@[j]] == func);
            }
            if edge(types@, ty, func) {
                let j = choose|j: int|
                    0 <= j < slots@.len() && table@[#[trigger] slots@[j]] == func;
                assert(slots@.contains(slots@[j]));
            }
        }
    }
    types
}

/// Adds the members of a set to a list.
fn push_all(list: &mut Vec<u32>, set: &BTreeSet<u32>)
    ensures
        forall|n: u32| #[trigger]
            final(list)@.contains(n) == (old(list)@.contains(n) || set@.contains(n)),
{
    let mut more: Vec<u32> = members_u32(set);
    let ghost left = list@;
    let ghost right = more@;
    list.append(&mut more);
    proof {
        assert forall|n: u32| #[trigger]
            list@.contains(n) == (left.contains(n) || right.contains(n)) by {
            lemma_contains_append(left, right, n);
        }
    }
}

/// What two lists hold together.
proof fn lemma_contains_append(left: Seq<u32>, right: Seq<u32>, n: u32)
    ensures
        (left + right).contains(n) == (left.contains(n) || right.contains(n)),
{
    let both = left + right;
    if left.contains(n) {
        let i = choose|i: int| 0 <= i < left.len() && left[i] == n;
        assert(both[i] == n);
    }
    if right.contains(n) {
        let i = choose|i: int| 0 <= i < right.len() && right[i] == n;
        assert(both[left.len() + i] == n);
    }
    if both.contains(n) {
        let i = choose|i: int| 0 <= i < both.len() && both[i] == n;
        if i < left.len() {
            assert(left[i] == n);
        } else {
            assert(right[i - left.len()] == n);
        }
    }
}

/// Every function a run of one leads to, itself included.
pub fn reached(
    graph: &CallGraph,
    table: &BTreeMap<u32, u32>,
    module: &Module,
    start: u32,
    through_the_table: bool,
) -> (found: BTreeSet<u32>)
    ensures
        forall|func: u32| #[trigger]
            found@.contains(func) == reachable(
                *graph,
                table@,
                module,
                through_the_table,
                start,
                func,
            ),
{
    let types: BTreeMap<u32, BTreeSet<u32>> = by_type(module, table);
    let mut found: BTreeSet<u32> = BTreeSet::new();
    let mut pending: Vec<u32> = vec![start];
    proof {
        let way = seq![start];
        assert(is_way(way, *graph, table@, module, through_the_table, start, start));
        assert(pending@ =~= seq![start]);
        assert(pending@[0] == start);
    }
    while pending.len() > 0
        invariant
            forall|ty: u32, func: u32|
                edge(types@, ty, func) == in_table(table@, module, ty, func),
            found@.finite(),
            found@.contains(start) || pending@.contains(start),
            forall|func: u32|
                #![trigger found@.contains(func)]
                #![trigger pending@.contains(func)]
                found@.contains(func) || pending@.contains(func) ==> reachable(
                    *graph,
                    table@,
                    module,
                    through_the_table,
                    start,
                    func,
                ),
            forall|a: u32, b: u32|
                found@.contains(a) && #[trigger] leads_to(
                    *graph,
                    table@,
                    module,
                    through_the_table,
                    a,
                    b,
                ) ==> found@.contains(b) || pending@.contains(b),
        decreases 0x1_0000_0000 - found@.len(), pending@.len(),
    {
        let ghost all = pending@;
        let ghost had = found@;
        let func: u32 = pending.pop().unwrap();
        let ghost rest = pending@;
        proof {
            assert(all =~= rest.push(func));
            assert forall|n: u32| all.contains(n) == (rest.contains(n) || n == func) by {
                lemma_contains_append(rest, seq![func], n);
                assert(rest + seq![func] =~= all);
                assert(seq![func].contains(n) == (n == func)) by {
                    assert(seq![func][0] == func);
                }
            }
            assert(all.contains(func));
        }
        if found.insert(func) {
            proof {
                lemma_u32_set(found@);
            }
            match graph.calls.get(&func) {
                Some(callees) => {
                    push_all(&mut pending, callees);
                },
                None => {},
            }
            let ghost direct = pending@;
            proof {
                assert forall|b: u32|
                    direct.contains(b) == (rest.contains(b) || edge(graph.calls@, func, b)) by {}
            }
            if through_the_table {
                match graph.calls_indirectly.get(&func) {
                    Some(called) => {
                        let list: Vec<u32> = members_u32(called);
                        let mut i: usize = 0;
                        while i < list.len()
                            invariant
                                i <= list@.len(),
                                forall|b: u32| #[trigger]
                                    pending@.contains(b) == (direct.contains(b) || exists|j: int|
                                        0 <= j < i && edge(types@, #[trigger] list@[j], b)),
                            decreases list@.len() - i,
                        {
                            let ghost before = pending@;
                            match types.get(&list[i]) {
                                Some(funcs) => {
                                    push_all(&mut pending, funcs);
                                },
                                None => {},
                            }
                            proof {
                                assert forall|b: u32| #[trigger]
                                    pending@.contains(b) == (direct.contains(b) || exists|j: int|
                                        0 <= j < i + 1 && edge(types@, #[trigger] list@[j], b)) by {
                                    assert(pending@.contains(b) == (before.contains(b) || edge(
                                        types@,
                                        list@[i as int],
                                        b,
                                    )));
                                    if before.contains(b) && !direct.contains(b) {
                                        let j = choose|j: int|
                                            0 <= j < i && edge(types@, #[trigger] list@[j], b);
                                        assert(edge(types@, list@[j], b));
                                    }
                                }
                            }
                            i = i + 1;
                        }
                        proof {
                            assert forall|b: u32| #[trigger]
                                pending@.contains(b) == (rest.contains(b) || leads_to(
                                    *graph,
                                    table@,
                                    module,
                                    through_the_table,
                                    func,
                                    b,
                                )) by {
                                if leads_to(
                                    *graph,
                                    table@,
                                    module,
                                    through_the_table,
                                    func,
                                    b,
                                ) && !edge(graph.calls@, func, b) {
                                    let ty = choose|ty: u32| #[trigger]
                                        edge(graph.calls_indirectly@, func, ty) && in_table(
                                            table@,
                                            module,
                                            ty,
                                            b,
                                        );
                                    assert(list@.contains(ty));
                                    let j = choose|j: int| 0 <= j < list@.len() && list@[j] == ty;
                                    assert(edge(types@, list@[j], b));
                                }
                                if pending@.contains(b) && !direct.contains(b) {
                                    let j = choose|j: int|
                                        0 <= j < list@.len() && edge(
                                            types@,
                                            #[trigger] list@[j],
                                            b,
                                        );
                                    assert(list@.contains(list@[j]));
                                    assert(edge(graph.calls_indirectly@, func, list@[j]));
                                }
                            }
                        }
                    },
                    None => {
                        assert forall|ty: u32| !edge(graph.calls_indirectly@, func, ty) by {}
                    },
                }
            }
            proof {
                assert forall|b: u32| #[trigger]
                    pending@.contains(b) == (rest.contains(b) || leads_to(
                        *graph,
                        table@,
                        module,
                        through_the_table,
                        func,
                        b,
                    )) by {}
                assert forall|n: u32|
                    #![trigger found@.contains(n)]
                    #![trigger pending@.contains(n)]
                    found@.contains(n) || pending@.contains(n) implies reachable(
                    *graph,
                    table@,
                    module,
                    through_the_table,
                    start,
                    n,
                ) by {
                    if !had.contains(n) && !all.contains(n) {
                        lemma_way_step(
                            *graph,
                            table@,
                            module,
                            through_the_table,
                            start,
                            func,
                            n,
                        );
                    }
                }
            }
        } else {
            assert(found@ =~= had);
        }
    }
    proof {
        assert forall|func: u32| #[trigger]
            found@.contains(func) == reachable(
                *graph,
                table@,
                module,
                through_the_table,
                start,
                func,
            ) by {
            assert(pending@.len() == 0);
            if reachable(*graph, table@, module, through_the_table, start, func) {
                let way = choose|way: Seq<u32>|
                    is_way(way, *graph, table@, module, through_the_table, start, func);
                lemma_closed(
                    found@,
                    *graph,
                    table@,
                    module,
                    through_the_table,
                    way,
                    start,
                    func,
                );
            }
        }
    }
    found
}

} // verus!
