//! Which global the C stack hangs from.

use vstd::prelude::*;
use std::collections::BTreeMap;
use crate::analysis::frames::{
    Evidence, Frame, StackPointer, frame_of, match_prologue, prologue_of, read_frame,
};
use crate::module::types::{Export, ExportKind, Func, Module, Op};
use crate::text::pieces::same_text;

verus! {

/// Whether a name is one a linker gives the stack pointer when it keeps names at
/// all.
pub open spec fn is_stack_name(name: Seq<char>) -> bool {
    name == "__stack_pointer"@ || name == "_stack_pointer"@ || name == "stackPointer"@
}

fn names_the_stack(name: &str) -> (yes: bool)
    ensures
        yes == is_stack_name(name@),
{
    same_text(name, "__stack_pointer") || same_text(name, "_stack_pointer") || same_text(
        name,
        "stackPointer",
    )
}

/// The global the first export from `i` on exports as the stack pointer. An
/// index past the end names nothing.
pub open spec fn exported_from(module: &Module, i: int) -> Option<u32>
    decreases module.exports@.len() - i,
{
    if i < 0 || i >= module.exports@.len() {
        None
    } else {
        let export = module.exports@[i];
        if export.kind == ExportKind::Global && is_stack_name(export.name@) && export.index
            < module.globals@.len() {
            Some(export.index)
        } else {
            exported_from(module, i + 1)
        }
    }
}

/// The global the name section, from `i` on, names as the stack pointer.
pub open spec fn named_from(module: &Module, i: int) -> Option<u32>
    decreases module.global_names@.len() - i,
{
    if i < 0 || i >= module.global_names@.len() {
        None
    } else {
        let (index, name) = module.global_names@[i];
        if is_stack_name(name@) && index < module.globals@.len() {
            Some(index)
        } else {
            named_from(module, i + 1)
        }
    }
}

/// Whether a body reserves its frame from a global and writes it back.
pub open spec fn publishes_from(body: Seq<Op>, global: int) -> bool {
    match prologue_of(body) {
        Some((from, prologue)) => from == global && prologue.publishes,
        None => false,
    }
}

/// Whether a body only takes its frame from a global, and goes on to address
/// memory through it: otherwise it is just arithmetic on a global.
pub open spec fn addresses_from(module: &Module, body: Seq<Op>, global: int) -> bool {
    match prologue_of(body) {
        Some((from, prologue)) => from == global && !prologue.publishes && match frame_of(
            module,
            body,
            from,
        ) {
            Some(frame) => !frame.slots.is_empty(),
            None => false,
        },
        None => false,
    }
}

/// How many functions reserve from a global and write it back.
pub open spec fn publishers(funcs: Seq<Func>, global: int) -> nat
    decreases funcs.len(),
{
    if funcs.len() == 0 {
        0
    } else {
        publishers(funcs.drop_last(), global) + if publishes_from(funcs.last().body@, global) {
            1nat
        } else {
            0
        }
    }
}

/// How many functions address memory through a reservation they never write back.
pub open spec fn addressers(module: &Module, funcs: Seq<Func>, global: int) -> nat
    decreases funcs.len(),
{
    if funcs.len() == 0 {
        0
    } else {
        addressers(module, funcs.drop_last(), global) + if addresses_from(
            module,
            funcs.last().body@,
            global,
        ) {
            1nat
        } else {
            0
        }
    }
}

/// Whether any global is reserved from and written back.
pub open spec fn any_published(module: &Module) -> bool {
    exists|global: int|
        0 <= global < module.globals@.len() && #[trigger] publishers(module.funcs@, global) > 0
}

/// How many functions are evidence for a global. The published reservations
/// decide it whenever there are any; the bare ones answer only for a build where
/// nothing writes it back at all.
pub open spec fn tally(module: &Module, global: int) -> nat {
    if any_published(module) {
        publishers(module.funcs@, global)
    } else {
        addressers(module, module.funcs@, global)
    }
}

/// The last of the first `n` globals with the most evidence.
pub open spec fn most_evident(module: &Module, n: int) -> Option<(int, nat)>
    decreases n,
{
    if n <= 0 {
        None
    } else {
        let count = tally(module, n - 1);
        match most_evident(module, n - 1) {
            None => Some((n - 1, count)),
            Some((global, most)) => if count >= most {
                Some((n - 1, count))
            } else {
                Some((global, most))
            },
        }
    }
}

/// The stack pointer of a module, if it gives a reason to name one: an export, a
/// name, or at least two prologues on a global that is written to.
pub open spec fn stack_pointer_of(module: &Module) -> Option<StackPointer> {
    match exported_from(module, 0) {
        Some(global) => Some(StackPointer { global, evidence: Evidence::Exported }),
        None => match named_from(module, 0) {
            Some(global) => Some(StackPointer { global, evidence: Evidence::Named }),
            None => match most_evident(module, module.globals@.len() as int) {
                Some((global, functions)) => if functions >= 2 && module.globals@[global].mutable {
                    Some(
                        StackPointer {
                            global: global as u32,
                            evidence: Evidence::Prologue { functions: functions as usize },
                        },
                    )
                } else {
                    None
                },
                None => None,
            },
        },
    }
}

/// There are no more publishers than functions.
proof fn lemma_publishers(funcs: Seq<Func>, global: int)
    ensures
        publishers(funcs, global) <= funcs.len(),
    decreases funcs.len(),
{
    if funcs.len() > 0 {
        lemma_publishers(funcs.drop_last(), global);
    }
}

/// There are no more addressers than functions.
proof fn lemma_addressers(module: &Module, funcs: Seq<Func>, global: int)
    ensures
        addressers(module, funcs, global) <= funcs.len(),
    decreases funcs.len(),
{
    if funcs.len() > 0 {
        lemma_addressers(module, funcs.drop_last(), global);
    }
}

fn exported_stack(module: &Module) -> (global: Option<u32>)
    ensures
        global == exported_from(module, 0),
{
    let mut i: usize = 0;
    while i < module.exports.len()
        invariant
            i <= module.exports@.len(),
            exported_from(module, 0) == exported_from(module, i as int),
        decreases module.exports@.len() - i,
    {
        let export: &Export = &module.exports[i];
        if export.kind == ExportKind::Global && names_the_stack(export.name.as_str()) && (
        export.index as usize) < module.globals.len() {
            return Some(export.index);
        }
        i = i + 1;
    }
    None
}

fn named_stack(module: &Module) -> (global: Option<u32>)
    ensures
        global == named_from(module, 0),
{
    let mut i: usize = 0;
    while i < module.global_names.len()
        invariant
            i <= module.global_names@.len(),
            named_from(module, 0) == named_from(module, i as int),
        decreases module.global_names@.len() - i,
    {
        let index: u32 = module.global_names[i].0;
        if names_the_stack(module.global_names[i].1.as_str()) && (index as usize)
            < module.globals.len() {
            return Some(index);
        }
        i = i + 1;
    }
    None
}

/// A count for each global, all zero.
fn zeros(n: usize) -> (counts: Vec<usize>)
    ensures
        counts@.len() == n,
        forall|i: int| 0 <= i < n ==> counts@[i] == 0,
{
    let mut counts: Vec<usize> = Vec::new();
    while counts.len() < n
        invariant
            counts@.len() <= n,
            forall|i: int| 0 <= i < counts@.len() ==> counts@[i] == 0,
        decreases n - counts@.len(),
    {
        counts.push(0);
    }
    counts
}

/// Counts the publishers of each global.
fn count_publishers(module: &Module) -> (counts: Vec<usize>)
    ensures
        counts@.len() == module.globals@.len(),
        forall|global: int|
            0 <= global < counts@.len() ==> counts@[global] == #[trigger] publishers(
                module.funcs@,
                global,
            ),
{
    let mut counts: Vec<usize> = zeros(module.globals.len());
    let mut f: usize = 0;
    assert(module.funcs@.take(0) =~= Seq::empty());
    while f < module.funcs.len()
        invariant
            f <= module.funcs@.len(),
            counts@.len() == module.globals@.len(),
            forall|global: int|
                0 <= global < counts@.len() ==> counts@[global] == #[trigger] publishers(
                    module.funcs@.take(f as int),
                    global,
                ),
        decreases module.funcs@.len() - f,
    {
        let ghost done = module.funcs@.take(f as int);
        let ghost next = module.funcs@.take(f + 1);
        let ghost before = counts@;
        proof {
            assert(next.drop_last() =~= done);
            assert(next.last() == module.funcs@[f as int]);
        }
        match match_prologue(&module.funcs[f].body) {
            Some((global, prologue)) => {
                if prologue.publishes && (global as usize) < counts.len() {
                    proof {
                        lemma_publishers(done, global as int);
                    }
                    let count: usize = counts[global as usize];
                    counts.set(global as usize, count + 1);
                }
            },
            None => {},
        }
        proof {
            assert forall|global: int| 0 <= global < counts@.len() implies counts@[global]
                == #[trigger] publishers(next, global) by {
                assert(before[global] == publishers(done, global));
            }
        }
        f = f + 1;
    }
    assert(module.funcs@.take(f as int) =~= module.funcs@);
    counts
}

/// Counts the addressers of each global.
fn count_addressers(module: &Module) -> (counts: Vec<usize>)
    ensures
        counts@.len() == module.globals@.len(),
        forall|global: int|
            0 <= global < counts@.len() ==> counts@[global] == #[trigger] addressers(
                module,
                module.funcs@,
                global,
            ),
{
    let mut counts: Vec<usize> = zeros(module.globals.len());
    let mut f: usize = 0;
    assert(module.funcs@.take(0) =~= Seq::empty());
    while f < module.funcs.len()
        invariant
                f <= module.funcs@.len(),
            counts@.len() == module.globals@.len(),
            forall|global: int|
                0 <= global < counts@.len() ==> counts@[global] == #[trigger] addressers(
                    module,
                    module.funcs@.take(f as int),
                    global,
                ),
        decreases module.funcs@.len() - f,
    {
        let ghost done = module.funcs@.take(f as int);
        let ghost next = module.funcs@.take(f + 1);
        let ghost before = counts@;
        proof {
            assert(next.drop_last() =~= done);
            assert(next.last() == module.funcs@[f as int]);
        }
        match match_prologue(&module.funcs[f].body) {
            Some((global, prologue)) => {
                if !prologue.publishes && (global as usize) < counts.len() {
                    match read_frame(module, &module.funcs[f].body, global) {
                        Some(frame) => {
                            if !frame.slots.is_empty() {
                                proof {
                                    lemma_addressers(module, done, global as int);
                                }
                                let count: usize = counts[global as usize];
                                counts.set(global as usize, count + 1);
                            }
                        },
                        None => {},
                    }
                }
            },
            None => {},
        }
        proof {
            assert forall|global: int| 0 <= global < counts@.len() implies counts@[global]
                == #[trigger] addressers(module, next, global) by {
                assert(before[global] == addressers(module, done, global));
            }
        }
        f = f + 1;
    }
    assert(module.funcs@.take(f as int) =~= module.funcs@);
    counts
}

/// Whether any count is more than zero.
fn any_positive(counts: &Vec<usize>) -> (yes: bool)
    ensures
        yes == exists|i: int| 0 <= i < counts@.len() && #[trigger] counts@[i] > 0,
{
    let mut i: usize = 0;
    while i < counts.len()
        invariant
            i <= counts@.len(),
            forall|j: int| 0 <= j < i ==> counts@[j] == 0,
        decreases counts@.len() - i,
    {
        if counts[i] > 0 {
            return true;
        }
        i = i + 1;
    }
    false
}

/// Counts the evidence for each global.
fn count_evidence(module: &Module) -> (counts: Vec<usize>)
    ensures
        counts@.len() == module.globals@.len(),
        forall|global: int|
            0 <= global < counts@.len() ==> counts@[global] == #[trigger] tally(module, global),
{
    let published: Vec<usize> = count_publishers(module);
    if any_positive(&published) {
        proof {
            let i = choose|i: int| 0 <= i < published@.len() && #[trigger] published@[i] > 0;
            assert(publishers(module.funcs@, i) > 0);
            assert(any_published(module));
        }
        published
    } else {
        proof {
            if any_published(module) {
                let global = choose|global: int|
                    0 <= global < module.globals@.len() && #[trigger] publishers(
                        module.funcs@,
                        global,
                    ) > 0;
                assert(published@[global] > 0);
            }
        }
        count_addressers(module)
    }
}

/// Finds the stack pointer.
///
/// A name settles it without any guessing, but only for a global that is there.
/// Otherwise prologues are counted: a minified module keeps no names, but it
/// still has to reserve stack frames, and only one global is used that way. One
/// function reserving a frame proves nothing; two is the smallest number that is
/// a convention. And a stack pointer is written to.
pub fn find_stack_pointer(module: &Module) -> (found: Option<StackPointer>)
    ensures
        found == stack_pointer_of(module),
{
    if let Some(global) = exported_stack(module) {
        return Some(StackPointer { global, evidence: Evidence::Exported });
    }
    if let Some(global) = named_stack(module) {
        return Some(StackPointer { global, evidence: Evidence::Named });
    }
    let counts: Vec<usize> = count_evidence(module);
    let mut best: Option<(usize, usize)> = None;
    let mut i: usize = 0;
    while i < counts.len()
        invariant
            i <= counts@.len(),
            counts@.len() == module.globals@.len(),
            forall|global: int|
                0 <= global < counts@.len() ==> counts@[global] == #[trigger] tally(
                    module,
                    global,
                ),
            match best {
                Some((global, most)) => most_evident(module, i as int) == Some(
                    (global as int, most as nat),
                ) && global < i,
                None => i == 0 && most_evident(module, 0) is None,
            },
        decreases counts@.len() - i,
    {
        let count: usize = counts[i];
        assert(counts@[i as int] == tally(module, i as int));
        best = match best {
            Some((global, most)) => if count >= most {
                Some((i, count))
            } else {
                Some((global, most))
            },
            None => Some((i, count)),
        };
        i = i + 1;
    }
    match best {
        Some((global, functions)) => {
            if functions < 2 || !module.globals[global].mutable {
                return None;
            }
            Some(
                StackPointer { global: global as u32, evidence: Evidence::Prologue { functions } },
            )
        },
        None => None,
    }
}

/// The frames of a module's functions, by function index.
pub open spec fn are_frames(frames: Map<u32, Frame>, module: &Module, stack_pointer: u32) -> bool {
    &&& forall|index: u32| #[trigger]
        frames.contains_key(index) ==> index >= module.func_imports@.len() && index
            - module.func_imports@.len() < module.funcs@.len() && frame_of(
            module,
            module.funcs@[index - module.func_imports@.len()].body@,
            stack_pointer,
        ) == Some(frames[index]@)
    &&& forall|at: int|
        0 <= at < module.funcs@.len() && frame_of(
            module,
            (#[trigger] module.funcs@[at]).body@,
            stack_pointer,
        ) is Some ==> frames.contains_key((module.func_imports@.len() + at) as u32)
}

/// Reads the frames of a module's functions.
pub fn find_frames(module: &Module, stack_pointer: StackPointer) -> (frames: BTreeMap<u32, Frame>)
    requires
        module.func_imports@.len() + module.funcs@.len() <= u32::MAX,
    ensures
        are_frames(frames@, module, stack_pointer.global),
{
    let import_count: u32 = module.func_imports.len() as u32;
    let mut frames: BTreeMap<u32, Frame> = BTreeMap::new();
    let mut at: usize = 0;
    while at < module.funcs.len()
        invariant
                import_count == module.func_imports@.len(),
            module.func_imports@.len() + module.funcs@.len() <= u32::MAX,
            at <= module.funcs@.len(),
            forall|index: u32| #[trigger]
                frames@.contains_key(index) ==> index >= import_count && index - import_count < at
                    && frame_of(
                    module,
                    module.funcs@[index - import_count].body@,
                    stack_pointer.global,
                ) == Some(frames@[index]@),
            forall|i: int|
                0 <= i < at && frame_of(
                    module,
                    (#[trigger] module.funcs@[i]).body@,
                    stack_pointer.global,
                ) is Some ==> frames@.contains_key((import_count + i) as u32),
        decreases module.funcs@.len() - at,
    {
        match read_frame(module, &module.funcs[at].body, stack_pointer.global) {
            Some(frame) => {
                frames.insert(import_count + at as u32, frame);
            },
            None => {},
        }
        at = at + 1;
    }
    frames
}

} // verus!
