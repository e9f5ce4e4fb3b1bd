//! What holds of the stack pointer and of the glue that are found in a module.

use vstd::prelude::*;
use crate::analysis::frames::{frame_of, prologue_of, Evidence, StackPointer};
use crate::analysis::glue::{
    exported_func, import_named, init_main_thread_of, invoke_at, invokes_of, mmap_of, spawn_of,
    type_shaped, Invoke,
};
use crate::analysis::stack::{
    addressers, any_published, exported_from, most_evident, named_from, publishers,
    stack_pointer_of, tally,
};
use crate::module::types::{ExportKind, Func, Module, ValType};

verus! {

// ---- the stack pointer ----

/// Whether an export says that a global is the stack pointer.
pub open spec fn export_says(module: &Module, i: int) -> bool {
    let export = module.exports@[i];
    &&& export.kind == ExportKind::Global
    &&& export.name@ == "__stack_pointer"@ || export.name@ == "_stack_pointer"@ || export.name@
        == "stackPointer"@
    &&& export.index < module.globals@.len()
}

/// Whether the name section says so.
pub open spec fn name_says(module: &Module, i: int) -> bool {
    let (index, name) = module.global_names@[i];
    &&& name@ == "__stack_pointer"@ || name@ == "_stack_pointer"@ || name@ == "stackPointer"@
    &&& index < module.globals@.len()
}

proof fn lemma_exported_from(module: &Module, i: int, at: int)
    requires
        0 <= i <= at < module.exports@.len(),
        export_says(module, at),
        forall|j: int| i <= j < at ==> !#[trigger] export_says(module, j),
    ensures
        exported_from(module, i) == Some(module.exports@[at].index),
    decreases at - i,
{
    if i < at {
        assert(!export_says(module, i));
        lemma_exported_from(module, i + 1, at);
    }
}

proof fn lemma_not_exported(module: &Module, i: int)
    requires
        0 <= i <= module.exports@.len(),
        forall|j: int| i <= j < module.exports@.len() ==> !#[trigger] export_says(module, j),
    ensures
        exported_from(module, i) is None,
    decreases module.exports@.len() - i,
{
    if i < module.exports@.len() {
        assert(!export_says(module, i));
        lemma_not_exported(module, i + 1);
    }
}

proof fn lemma_named_from(module: &Module, i: int, at: int)
    requires
        0 <= i <= at < module.global_names@.len(),
        name_says(module, at),
        forall|j: int| i <= j < at ==> !#[trigger] name_says(module, j),
    ensures
        named_from(module, i) == Some(module.global_names@[at].0),
    decreases at - i,
{
    if i < at {
        assert(!name_says(module, i));
        lemma_named_from(module, i + 1, at);
    }
}

proof fn lemma_not_named(module: &Module, i: int)
    requires
        0 <= i <= module.global_names@.len(),
        forall|j: int| i <= j < module.global_names@.len() ==> !#[trigger] name_says(module, j),
    ensures
        named_from(module, i) is None,
    decreases module.global_names@.len() - i,
{
    if i < module.global_names@.len() {
        assert(!name_says(module, i));
        lemma_not_named(module, i + 1);
    }
}

/// The first global that is exported under the stack pointer's name is it, whatever else
/// the module says.
pub proof fn an_export_settles_the_stack_pointer(module: &Module, at: int)
    requires
        0 <= at < module.exports@.len(),
        export_says(module, at),
        forall|j: int| 0 <= j < at ==> !#[trigger] export_says(module, j),
    ensures
        stack_pointer_of(module) == Some(
            StackPointer { global: module.exports@[at].index, evidence: Evidence::Exported },
        ),
{
    lemma_exported_from(module, 0, at);
}

/// Where none is exported, the first that the name section names so is it.
pub proof fn a_name_settles_the_stack_pointer(module: &Module, at: int)
    requires
        forall|j: int| 0 <= j < module.exports@.len() ==> !#[trigger] export_says(module, j),
        0 <= at < module.global_names@.len(),
        name_says(module, at),
        forall|j: int| 0 <= j < at ==> !#[trigger] name_says(module, j),
    ensures
        stack_pointer_of(module) == Some(
            StackPointer { global: module.global_names@[at].0, evidence: Evidence::Named },
        ),
{
    lemma_not_exported(module, 0);
    lemma_named_from(module, 0, at);
}

/// Whether a function opens by reserving a frame from a global and writing it back.
pub open spec fn reserves_and_writes_back(func: Func, global: int) -> bool {
    match prologue_of(func.body@) {
        Some((from, prologue)) => from == global && prologue.publishes,
        None => false,
    }
}

/// Whether a function opens by taking a frame from a global that it does not write back,
/// and goes on to address memory through it.
pub open spec fn reserves_and_uses(module: &Module, func: Func, global: int) -> bool {
    match prologue_of(func.body@) {
        Some((from, prologue)) => {
            &&& from == global
            &&& !prologue.publishes
            &&& exists|offset: i32| #[trigger]
                (frame_of(module, func.body@, from)->0).slots.contains_key(offset)
        },
        None => false,
    }
}

/// How many functions speak for a global: those that write it back, or, where no function
/// of the module writes any back, those that use what they take.
pub open spec fn votes(module: &Module, global: int) -> nat {
    if exists|g: int, f: int|
        0 <= g < module.globals@.len() && 0 <= f < module.funcs@.len()
            && #[trigger] reserves_and_writes_back(module.funcs@[f], g) {
        module.funcs@.filter(|func: Func| reserves_and_writes_back(func, global)).len()
    } else {
        module.funcs@.filter(|func: Func| reserves_and_uses(module, func, global)).len()
    }
}

proof fn lemma_publishers_are(funcs: Seq<Func>, global: int)
    ensures
        publishers(funcs, global) == funcs.filter(
            |func: Func| reserves_and_writes_back(func, global),
        ).len(),
        (publishers(funcs, global) > 0) == exists|f: int|
            0 <= f < funcs.len() && #[trigger] reserves_and_writes_back(funcs[f], global),
    decreases funcs.len(),
{
    reveal(Seq::filter);
    if funcs.len() > 0 {
        let less = funcs.drop_last();
        lemma_publishers_are(less, global);
        assert(funcs[funcs.len() - 1] == funcs.last());
        if exists|f: int| 0 <= f < less.len() && #[trigger] reserves_and_writes_back(less[f], global) {
            let f = choose|f: int|
                0 <= f < less.len() && #[trigger] reserves_and_writes_back(less[f], global);
            assert(reserves_and_writes_back(funcs[f], global));
        }
        if exists|f: int| 0 <= f < funcs.len() && #[trigger] reserves_and_writes_back(
            funcs[f],
            global,
        ) {
            let f = choose|f: int|
                0 <= f < funcs.len() && #[trigger] reserves_and_writes_back(funcs[f], global);
            if f < less.len() {
                assert(reserves_and_writes_back(less[f], global));
            } else {
                assert(reserves_and_writes_back(funcs.last(), global));
            }
        }
    }
}

proof fn lemma_addressers_are(module: &Module, funcs: Seq<Func>, global: int)
    requires
        forall|f: int| 0 <= f < funcs.len() ==> (#[trigger] funcs[f]).body@.len() <= usize::MAX,
    ensures
        addressers(module, funcs, global) == funcs.filter(
            |func: Func| reserves_and_uses(module, func, global),
        ).len(),
    decreases funcs.len(),
{
    reveal(Seq::filter);
    if funcs.len() > 0 {
        let less = funcs.drop_last();
        assert forall|f: int| 0 <= f < less.len() implies (#[trigger] less[f]).body@.len()
            <= usize::MAX by {
            assert(less[f] == funcs[f]);
        }
        lemma_addressers_are(module, less, global);
        let last = funcs.last();
        assert(funcs[funcs.len() - 1] == last);
        match prologue_of(last.body@) {
            Some((from, prologue)) => {
                if from == global {
                    assert(frame_of(module, last.body@, from) is Some);
                    let slots = (frame_of(module, last.body@, from)->0).slots;
                    if !slots.is_empty() {
                        if forall|offset: i32| !#[trigger] slots.contains_key(offset) {
                            assert(slots =~= Map::empty());
                        }
                    } else {
                        assert(slots.dom() =~= Set::empty());
                    }
                }
            },
            None => {},
        }
    }
}

proof fn lemma_votes(module: &Module, global: int)
    requires
        forall|f: int|
            0 <= f < module.funcs@.len() ==> (#[trigger] module.funcs@[f]).body@.len()
                <= usize::MAX,
    ensures
        tally(module, global) == votes(module, global),
{
    lemma_publishers_are(module.funcs@, global);
    lemma_addressers_are(module, module.funcs@, global);
    if any_published(module) {
        let g = choose|g: int|
            0 <= g < module.globals@.len() && #[trigger] publishers(module.funcs@, g) > 0;
        lemma_publishers_are(module.funcs@, g);
        let f = choose|f: int|
            0 <= f < module.funcs@.len() && #[trigger] reserves_and_writes_back(
                module.funcs@[f],
                g,
            );
        assert(reserves_and_writes_back(module.funcs@[f], g));
    }
    if exists|g: int, f: int|
        0 <= g < module.globals@.len() && 0 <= f < module.funcs@.len()
            && #[trigger] reserves_and_writes_back(module.funcs@[f], g) {
        let (g, f) = choose|g: int, f: int|
            0 <= g < module.globals@.len() && 0 <= f < module.funcs@.len()
                && #[trigger] reserves_and_writes_back(module.funcs@[f], g);
        lemma_publishers_are(module.funcs@, g);
        assert(publishers(module.funcs@, g) > 0);
    }
}

proof fn lemma_most(module: &Module, n: int)
    requires
        0 < n <= module.globals@.len(),
    ensures
        most_evident(module, n) is Some,
        0 <= (most_evident(module, n)->0).0 < n,
        (most_evident(module, n)->0).1 == tally(module, (most_evident(module, n)->0).0),
        forall|g: int|
            0 <= g < n ==> #[trigger] tally(module, g) <= (most_evident(module, n)->0).1,
        forall|g: int|
            (most_evident(module, n)->0).0 < g < n ==> #[trigger] tally(module, g) < (
            most_evident(module, n)->0).1,
    decreases n,
{
    if n > 1 {
        lemma_most(module, n - 1);
    } else {
        assert(most_evident(module, 0) is None);
    }
}

/// Where neither an export nor a name says, the global that most functions speak for is
/// the stack pointer, the last of those that as many speak for, if at least two do and it
/// is written to. Else there is none.
pub proof fn most_prologues_settle_the_stack_pointer(module: &Module)
    requires
        forall|j: int| 0 <= j < module.exports@.len() ==> !#[trigger] export_says(module, j),
        forall|j: int| 0 <= j < module.global_names@.len() ==> !#[trigger] name_says(module, j),
        forall|f: int|
            0 <= f < module.funcs@.len() ==> (#[trigger] module.funcs@[f]).body@.len()
                <= usize::MAX,
        module.funcs@.len() <= usize::MAX,
        module.globals@.len() <= u32::MAX,
    ensures
        match stack_pointer_of(module) {
            Some(pointer) => {
                let global = pointer.global as int;
                &&& global < module.globals@.len()
                &&& module.globals@[global].mutable
                &&& votes(module, global) >= 2
                &&& pointer.evidence == Evidence::Prologue {
                    functions: votes(module, global) as usize,
                }
                &&& forall|g: int|
                    0 <= g < module.globals@.len() ==> #[trigger] votes(module, g) <= votes(
                        module,
                        global,
                    )
                &&& forall|g: int|
                    global < g < module.globals@.len() ==> #[trigger] votes(module, g) < votes(
                        module,
                        global,
                    )
            },
            None => forall|g: int|
                0 <= g < module.globals@.len() && module.globals@[g].mutable && #[trigger] votes(
                    module,
                    g,
                ) >= 2 ==> exists|h: int|
                    0 <= h < module.globals@.len() && h != g && #[trigger] votes(module, h)
                        >= votes(module, g),
        },
{
    lemma_not_exported(module, 0);
    lemma_not_named(module, 0);
    assert forall|g: int| #[trigger] votes(module, g) == tally(module, g) by {
        lemma_votes(module, g);
    }
    assert forall|g: int| #[trigger] tally(module, g) == votes(module, g) by {
        lemma_votes(module, g);
    }
    let n = module.globals@.len() as int;
    if n > 0 {
        lemma_most(module, n);
        let (global, most) = most_evident(module, n)->0;
        assert(most == tally(module, global));
        assert(votes(module, global) == most);
        if stack_pointer_of(module) is None {
            assert forall|g: int|
                0 <= g < module.globals@.len() && module.globals@[g].mutable && #[trigger] votes(
                    module,
                    g,
                ) >= 2 implies exists|h: int|
                0 <= h < module.globals@.len() && h != g && #[trigger] votes(module, h) >= votes(
                    module,
                    g,
                ) by {
                assert(tally(module, g) <= most);
                assert(votes(module, global) >= votes(module, g));
            }
        }
    } else {
        assert(most_evident(module, 0) is None);
    }
}

// ---- exports and imports by name ----

/// Whether an export is of a function under one of two names.
pub open spec fn exports_it(module: &Module, one: Seq<char>, other: Seq<char>, i: int) -> bool {
    let export = module.exports@[i];
    export.kind == ExportKind::Func && (export.name@ == one || export.name@ == other)
}

/// The function that is found by name is the first that is exported under one of the two.
pub proof fn an_exported_function_is_found_by_name(
    module: &Module,
    one: Seq<char>,
    other: Seq<char>,
)
    ensures
        match exported_func(module, one, other, 0) {
            Some(func) => exists|i: int|
                0 <= i < module.exports@.len() && #[trigger] exports_it(module, one, other, i)
                    && module.exports@[i].index == func && forall|j: int|
                    0 <= j < i ==> !#[trigger] exports_it(module, one, other, j),
            None => forall|i: int|
                0 <= i < module.exports@.len() ==> !#[trigger] exports_it(module, one, other, i),
        },
{
    lemma_exported_func(module, one, other, 0);
}

proof fn lemma_exported_func(module: &Module, one: Seq<char>, other: Seq<char>, from: int)
    requires
        0 <= from <= module.exports@.len(),
        forall|j: int| 0 <= j < from ==> !#[trigger] exports_it(module, one, other, j),
    ensures
        match exported_func(module, one, other, from) {
            Some(func) => exists|i: int|
                0 <= i < module.exports@.len() && #[trigger] exports_it(module, one, other, i)
                    && module.exports@[i].index == func && forall|j: int|
                    0 <= j < i ==> !#[trigger] exports_it(module, one, other, j),
            None => forall|i: int|
                0 <= i < module.exports@.len() ==> !#[trigger] exports_it(module, one, other, i),
        },
    decreases module.exports@.len() - from,
{
    if from < module.exports@.len() {
        if exports_it(module, one, other, from) {
            assert(exported_func(module, one, other, from) == Some(module.exports@[from].index));
        } else {
            lemma_exported_func(module, one, other, from + 1);
        }
    }
}

/// Whether an import has one of two names.
pub open spec fn imports_it(module: &Module, one: Seq<char>, other: Seq<char>, i: int) -> bool {
    module.func_imports@[i].field@ == one || module.func_imports@[i].field@ == other
}

/// The import that is found by name is the first with one of the two.
pub proof fn an_import_is_found_by_name(
    module: &Module,
    one: Seq<char>,
    other: Seq<char>,
    from: int,
)
    requires
        0 <= from <= module.func_imports@.len(),
        forall|j: int| 0 <= j < from ==> !#[trigger] imports_it(module, one, other, j),
    ensures
        match import_named(module, one, other, from) {
            Some(at) => 0 <= at < module.func_imports@.len() && imports_it(module, one, other, at)
                && forall|j: int| 0 <= j < at ==> !#[trigger] imports_it(module, one, other, j),
            None => forall|j: int|
                0 <= j < module.func_imports@.len() ==> !#[trigger] imports_it(
                    module,
                    one,
                    other,
                    j,
                ),
        },
    decreases module.func_imports@.len() - from,
{
    if from < module.func_imports@.len() && !imports_it(module, one, other, from) {
        an_import_is_found_by_name(module, one, other, from + 1);
    }
}

/// The type that is found by signature is the first with it.
pub proof fn a_type_is_found_by_signature(
    module: &Module,
    params: Seq<ValType>,
    results: Seq<ValType>,
    from: int,
)
    requires
        0 <= from,
        forall|j: int|
            0 <= j < from && j < module.types@.len() ==> !((
            #[trigger] module.types@[j]).params@ == params && module.types@[j].results@ == results),
    ensures
        match type_shaped(module, params, results, from) {
            Some(at) => {
                &&& 0 <= at < module.types@.len()
                &&& module.types@[at].params@ == params
                &&& module.types@[at].results@ == results
                &&& forall|j: int|
                    0 <= j < at ==> !((#[trigger] module.types@[j]).params@ == params
                        && module.types@[j].results@ == results)
            },
            None => forall|j: int|
                0 <= j < module.types@.len() ==> !((#[trigger] module.types@[j]).params@ == params
                    && module.types@[j].results@ == results),
        },
    decreases module.types@.len() - from,
{
    if from < module.types@.len() && !(module.types@[from].params@ == params
        && module.types@[from].results@ == results) {
        a_type_is_found_by_signature(module, params, results, from + 1);
    }
}

// ---- trampolines ----

/// Whether a trampoline stands for an import: its name starts with `invoke_`, it takes a
/// table index, and what is left of its signature is that of the type.
#[verifier::opaque]
pub open spec fn stands_for(module: &Module, invoke: Invoke) -> bool {
    let prefix = "invoke_"@;
    let field = module.func_imports@[invoke.import as int].field@;
    let index = module.func_imports@[invoke.import as int].type_index;
    &&& invoke.import < module.func_imports@.len()
    &&& field.len() >= prefix.len() && field.take(prefix.len() as int) == prefix
    &&& index < module.types@.len()
    &&& invoke.callee_type < module.types@.len()
    &&& module.types@[index as int].params@ == seq![ValType::I32]
        + module.types@[invoke.callee_type as int].params@
    &&& module.types@[index as int].results@ == module.types@[invoke.callee_type as int].results@
}

/// Every trampoline stands for its import, and every import that one can stand for has
/// one, in the order of the imports.
pub proof fn trampolines_are_those_that_can_be_made(module: &Module, n: int)
    requires
        0 <= n <= module.func_imports@.len() <= u32::MAX,
        module.types@.len() <= u32::MAX,
    ensures
        forall|k: int|
            0 <= k < invokes_of(module, n).len() ==> stands_for(
                module,
                #[trigger] invokes_of(module, n)[k],
            ) && invokes_of(module, n)[k].import < n,
        forall|j: int, k: int|
            0 <= j < k < invokes_of(module, n).len() ==> (
            #[trigger] invokes_of(module, n)[j]).import < (
            #[trigger] invokes_of(module, n)[k]).import,
        forall|invoke: Invoke| #[trigger]
            stands_for(module, invoke) && invoke.import < n ==> exists|k: int|
                0 <= k < invokes_of(module, n).len() && (
                #[trigger] invokes_of(module, n)[k]).import == invoke.import,
    decreases n,
{
    if n > 0 {
        trampolines_are_those_that_can_be_made(module, n - 1);
        let before = invokes_of(module, n - 1);
        let after = invokes_of(module, n);
        lemma_invoke(module, n - 1);
        assert(forall|k: int| 0 <= k < before.len() ==> after[k] == #[trigger] before[k]);
        assert forall|invoke: Invoke| #[trigger]
            stands_for(module, invoke) && invoke.import < n implies exists|k: int|
            0 <= k < after.len() && (#[trigger] after[k]).import == invoke.import by {
            if invoke.import < n - 1 {
                let k = choose|k: int|
                    0 <= k < before.len() && (#[trigger] before[k]).import == invoke.import;
                assert(after[k].import == invoke.import);
            } else {
                assert(invoke_at(module, n - 1) is Some);
                assert(after[after.len() - 1].import == invoke.import);
            }
        }
        assert forall|k: int| 0 <= k < after.len() implies stands_for(module, #[trigger] after[k])
            && after[k].import < n by {
            if k < before.len() {
                assert(after[k] == before[k]);
                assert(stands_for(module, before[k]));
            }
        }
        assert forall|j: int, k: int| 0 <= j < k < after.len() implies (
        #[trigger] after[j]).import < (#[trigger] after[k]).import by {
            assert(after[j] == before[j]);
            if k < before.len() {
                assert(after[k] == before[k]);
            }
        }
    }
}

proof fn lemma_invoke(module: &Module, at: int)
    requires
        0 <= at < module.func_imports@.len() <= u32::MAX,
        module.types@.len() <= u32::MAX,
    ensures
        match invoke_at(module, at) {
            Some(invoke) => stands_for(module, invoke) && invoke.import == at,
            None => forall|invoke: Invoke| #[trigger]
                stands_for(module, invoke) ==> invoke.import != at,
        },
{
    reveal(stands_for);
    let prefix = "invoke_"@;
    let field = module.func_imports@[at].field@;
    let index = module.func_imports@[at].type_index;
    if crate::text::pieces::begins_with(field, prefix) {
        assert(field.take(prefix.len() as int) =~= prefix);
    }
    if field.len() >= prefix.len() && field.take(prefix.len() as int) == prefix {
        assert(field.subrange(0, prefix.len() as int) =~= prefix);
    }
    if index < module.types@.len() {
        let ty = module.types@[index as int];
        if ty.params@.len() > 0 && ty.params@[0] == ValType::I32 {
            let rest = ty.params@.drop_first();
            assert(seq![ValType::I32] + rest =~= ty.params@);
            a_type_is_found_by_signature(module, rest, ty.results@, 0);
            assert forall|invoke: Invoke| #[trigger]
                stands_for(module, invoke) && invoke.import == at implies
                module.types@[invoke.callee_type as int].params@ == rest by {
                let callee = module.types@[invoke.callee_type as int];
                assert((seq![ValType::I32] + callee.params@).drop_first() =~= callee.params@);
            }
        } else {
            assert forall|invoke: Invoke| #[trigger] stands_for(module, invoke) implies
                invoke.import != at by {
                if invoke.import == at {
                    let callee = module.types@[invoke.callee_type as int];
                    assert((seq![ValType::I32] + callee.params@)[0] == ValType::I32);
                }
            }
        }
    }
}

// ---- threads and mappings ----

/// Threads are only answered for where the memory is shared, the import that starts one
/// has four `i32` and returns one, the initialiser the module exports takes only `i32`,
/// and a type is that of a start routine.
pub proof fn a_thread_needs_all_its_parts(module: &Module)
    requires
        spawn_of(module) is Some,
        module.func_imports@.len() <= u32::MAX,
        module.types@.len() <= u32::MAX,
    ensures
        ({
            let spawn = spawn_of(module)->0;
            let import = module.func_imports@[spawn.import as int];
            let start = module.types@[import.type_index as int];
            let routine = module.types@[spawn.entry_type as int];
            &&& module.memory is Some && (module.memory->0).shared
            &&& spawn.import < module.func_imports@.len()
            &&& import.field@ == "__pthread_create_js"@ || import.field@ == "_pthread_create_js"@
            &&& start.params@ == seq![ValType::I32, ValType::I32, ValType::I32, ValType::I32]
            &&& start.results@ == seq![ValType::I32]
            &&& routine.params@ == seq![ValType::I32]
            &&& routine.results@ == seq![ValType::I32]
            &&& exists|i: int|
                0 <= i < module.exports@.len() && #[trigger] exports_it(
                    module,
                    "_emscripten_thread_init"@,
                    "_emscripten_thread_init"@,
                    i,
                ) && module.exports@[i].index == spawn.thread_init
            &&& module.signature(spawn.thread_init) is Some
            &&& (module.signature(spawn.thread_init)->0).params@.len() > 0
            &&& spawn.thread_init_arity == (module.signature(
                spawn.thread_init,
            )->0).params@.len() as usize
            &&& forall|i: int|
                0 <= i < (module.signature(spawn.thread_init)->0).params@.len() ==> (
                module.signature(spawn.thread_init)->0).params@[i] == ValType::I32
        }),
{
    let spawn = spawn_of(module)->0;
    let one = "__pthread_create_js"@;
    let other = "_pthread_create_js"@;
    an_import_is_found_by_name(module, one, other, 0);
    let init = "_emscripten_thread_init"@;
    an_exported_function_is_found_by_name(module, init, init);
    let single = seq![ValType::I32];
    a_type_is_found_by_signature(module, single, single, 0);
    let import = module.func_imports@[spawn.import as int];
    let start = module.types@[import.type_index as int];
    assert(start.params@ =~= seq![ValType::I32, ValType::I32, ValType::I32, ValType::I32]);
}

/// The main thread is initialised by the same export, through an import that takes one
/// `i32` and returns nothing.
pub proof fn the_main_thread_needs_its_parts(module: &Module)
    requires
        init_main_thread_of(module) is Some,
        module.func_imports@.len() <= u32::MAX,
    ensures
        ({
            let init = init_main_thread_of(module)->0;
            let import = module.func_imports@[init.import as int];
            let ty = module.types@[import.type_index as int];
            &&& init.import < module.func_imports@.len()
            &&& import.field@ == "__emscripten_init_main_thread_js"@ || import.field@
                == "_emscripten_init_main_thread_js"@
            &&& ty.params@ == seq![ValType::I32]
            &&& ty.results@.len() == 0
            &&& exists|i: int|
                0 <= i < module.exports@.len() && #[trigger] exports_it(
                    module,
                    "_emscripten_thread_init"@,
                    "_emscripten_thread_init"@,
                    i,
                ) && module.exports@[i].index == init.thread_init
            &&& module.signature(init.thread_init) is Some
            &&& init.thread_init_arity == (module.signature(
                init.thread_init,
            )->0).params@.len() as usize
        }),
{
    an_import_is_found_by_name(
        module,
        "__emscripten_init_main_thread_js"@,
        "_emscripten_init_main_thread_js"@,
        0,
    );
    let init = "_emscripten_thread_init"@;
    an_exported_function_is_found_by_name(module, init, init);
}

/// Mappings are only answered for where the module allocates and frees itself and a file
/// can be read at an offset; writing one back needs a file to be written at one too.
pub proof fn a_mapping_needs_all_its_parts(module: &Module)
    requires
        mmap_of(module) is Some,
        module.func_imports@.len() <= u32::MAX,
    ensures
        ({
            let mmap = mmap_of(module)->0;
            let named = |import: Option<u32>, name: Seq<char>|
                import is Some ==> import->0 < module.func_imports@.len()
                    && module.func_imports@[import->0 as int].field@ == name;
            let exported = |func: u32, one: Seq<char>, other: Seq<char>|
                exists|i: int|
                    0 <= i < module.exports@.len() && #[trigger] exports_it(module, one, other, i)
                        && module.exports@[i].index == func;
            &&& named(mmap.map, "_mmap_js"@)
            &&& named(mmap.unmap, "_munmap_js"@)
            &&& named(mmap.sync, "_msync_js"@)
            &&& named(Some(mmap.pread), "fd_pread"@)
            &&& named(mmap.pwrite, "fd_pwrite"@)
            &&& exported(mmap.memalign, "emscripten_builtin_memalign"@, "memalign"@)
            &&& exported(mmap.free, "free"@, "free"@)
            &&& mmap.pwrite is None ==> mmap.unmap is None && mmap.sync is None
            &&& mmap.map is Some || mmap.unmap is Some || mmap.sync is Some
            &&& module.signature(mmap.free) is Some
            &&& (module.signature(mmap.free)->0).params@ == seq![ValType::I32]
            &&& (module.signature(mmap.free)->0).results@.len() == 0
            &&& module.signature(mmap.memalign) is Some
            &&& (module.signature(mmap.memalign)->0).params@ == seq![ValType::I32, ValType::I32]
            &&& (module.signature(mmap.memalign)->0).results@ == seq![ValType::I32]
        }),
{
    an_import_is_found_by_name(module, "_mmap_js"@, "_mmap_js"@, 0);
    an_import_is_found_by_name(module, "_munmap_js"@, "_munmap_js"@, 0);
    an_import_is_found_by_name(module, "_msync_js"@, "_msync_js"@, 0);
    an_import_is_found_by_name(module, "fd_pread"@, "fd_pread"@, 0);
    an_import_is_found_by_name(module, "fd_pwrite"@, "fd_pwrite"@, 0);
    an_exported_function_is_found_by_name(module, "emscripten_builtin_memalign"@, "memalign"@);
    an_exported_function_is_found_by_name(module, "free"@, "free"@);
}

} // verus!
