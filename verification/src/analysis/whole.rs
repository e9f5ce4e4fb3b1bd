//! Everything that is read out of a module.

use vstd::prelude::*;
use std::collections::{BTreeMap, BTreeSet};
use crate::analysis::calls::{
    is_call_graph, reachable, reached, read_call_graph, read_table, table_of, CallGraph,
};
use crate::analysis::embind::{find_registrations, registered, registrations_of, Registration};
use crate::analysis::frames::{Frame, StackPointer};
use crate::analysis::glue::{
    exported_func, find_export, find_init_main_thread, find_invokes, find_mmap, find_spawn,
    init_main_thread_of, invokes_of, mmap_of, spawn_of, InitMainThread, Invoke, Mmap, Spawn,
};
use crate::analysis::hot::{are_hot, find_hot_addresses};
use crate::analysis::names::{are_derived_names, derive_names, DerivedName};
use crate::analysis::placement::{are_placements, find_placements, Placement};
use crate::analysis::stack::{are_frames, find_frames, find_stack_pointer, stack_pointer_of};
use crate::module::types::Module;

verus! {

/// What could be read out of a module.
#[derive(Debug, Clone)]
pub struct Analysis {
    /// The C stack pointer, if the module gave a reason to name one.
    pub stack_pointer: Option<StackPointer>,
    /// Frames, by function index. Absent for a function with no prologue.
    pub frames: BTreeMap<u32, Frame>,
    /// The `invoke_*` trampolines that can be generated.
    pub invokes: Vec<Invoke>,
    /// The module's exported `setThrew`, which a trampoline needs to report a
    /// caught exception back to the guest.
    pub set_threw: Option<u32>,
    /// The pthread glue, when every part of it is present.
    pub spawn: Option<Spawn>,
    /// The main thread's own initialisation, when the module asks for it.
    pub init_main_thread: Option<InitMainThread>,
    /// The `mmap` glue, when the module supplies the allocator and the reads it
    /// needs.
    pub mmap: Option<Mmap>,
    /// Where each passive data segment is placed, by segment index, when the module
    /// places it at a constant address.
    pub placements: BTreeMap<u32, Placement>,
    /// Names guessed from the strings a function references, by function index.
    /// Only for functions the module did not name itself.
    pub derived_names: BTreeMap<u32, DerivedName>,
    /// What the module registers with embind, in the order it registers it.
    pub registrations: Vec<Registration>,
    /// Addresses that many functions reference and that hold no text: the module's
    /// shared state. Address to the number of functions using it.
    pub hot_addresses: BTreeMap<i32, usize>,
    /// Who calls whom.
    pub call_graph: CallGraph,
    /// What the function table holds: slot to function index.
    pub table: BTreeMap<u32, u32>,
}

/// Whether an analysis is what can be read out of a module.
pub open spec fn is_analysis(analysis: Analysis, module: &Module) -> bool {
    &&& analysis.stack_pointer == stack_pointer_of(module)
    &&& match analysis.stack_pointer {
        Some(pointer) => are_frames(analysis.frames@, module, pointer.global),
        None => analysis.frames@ == Map::<u32, Frame>::empty(),
    }
    &&& analysis.set_threw == exported_func(module, "setThrew"@, "_setThrew"@, 0)
    &&& analysis.invokes@ == if analysis.set_threw is Some && analysis.stack_pointer is Some {
        invokes_of(module, module.func_imports@.len() as int)
    } else {
        Seq::empty()
    }
    &&& analysis.spawn == spawn_of(module)
    &&& analysis.init_main_thread == init_main_thread_of(module)
    &&& analysis.mmap == mmap_of(module)
    &&& are_placements(analysis.placements@, module)
    &&& are_derived_names(analysis.derived_names@, module, analysis.placements@)
    &&& registered(analysis.registrations@) == registrations_of(module, analysis.placements@)
    &&& are_hot(analysis.hot_addresses@, module, analysis.placements@)
    &&& is_call_graph(analysis.call_graph, module)
    &&& analysis.table@ == table_of(module.elems@)
}

/// Reads a module for the things worth naming.
pub fn analyse(module: &Module) -> (analysis: Analysis)
    requires
        module.countable(),
    ensures
        is_analysis(analysis, module),
{
    let stack_pointer: Option<StackPointer> = find_stack_pointer(module);
    let set_threw: Option<u32> = find_export(module, "setThrew", "_setThrew");
    // A trampoline needs somewhere to report the exception it caught and a stack
    // pointer to restore.
    let invokes: Vec<Invoke> = if set_threw.is_some() && stack_pointer.is_some() {
        find_invokes(module)
    } else {
        Vec::new()
    };
    let frames: BTreeMap<u32, Frame> = match stack_pointer {
        Some(pointer) => find_frames(module, pointer),
        None => BTreeMap::new(),
    };
    let placements: BTreeMap<u32, Placement> = find_placements(module);
    let derived_names: BTreeMap<u32, DerivedName> = derive_names(module, &placements);
    let registrations: Vec<Registration> = find_registrations(module, &placements);
    let hot_addresses: BTreeMap<i32, usize> = find_hot_addresses(module, &placements);
    Analysis {
        stack_pointer,
        frames,
        invokes,
        set_threw,
        spawn: find_spawn(module),
        init_main_thread: find_init_main_thread(module),
        mmap: find_mmap(module),
        placements,
        derived_names,
        registrations,
        hot_addresses,
        call_graph: read_call_graph(module),
        table: read_table(module),
    }
}

impl Default for Analysis {
    /// An analysis that found nothing.
    fn default() -> (analysis: Self)
        ensures
            analysis.stack_pointer is None,
            analysis.frames@ == Map::<u32, Frame>::empty(),
            analysis.invokes@ == Seq::<Invoke>::empty(),
            analysis.set_threw is None,
            analysis.spawn is None,
            analysis.init_main_thread is None,
            analysis.mmap is None,
            analysis.placements@ == Map::<u32, Placement>::empty(),
            analysis.derived_names@ == Map::<u32, DerivedName>::empty(),
            analysis.registrations@ == Seq::<Registration>::empty(),
            analysis.hot_addresses@ == Map::<i32, usize>::empty(),
            analysis.call_graph.calls@ == Map::<u32, BTreeSet<u32>>::empty(),
            analysis.call_graph.called_by@ == Map::<u32, BTreeSet<u32>>::empty(),
            analysis.call_graph.calls_indirectly@ == Map::<u32, BTreeSet<u32>>::empty(),
            analysis.call_graph.call_sites@ == Map::<u32, usize>::empty(),
            analysis.table@ == Map::<u32, u32>::empty(),
    {
        Analysis {
            stack_pointer: None,
            frames: BTreeMap::new(),
            invokes: Vec::new(),
            set_threw: None,
            spawn: None,
            init_main_thread: None,
            mmap: None,
            placements: BTreeMap::new(),
            derived_names: BTreeMap::new(),
            registrations: Vec::new(),
            hot_addresses: BTreeMap::new(),
            call_graph: CallGraph::default(),
            table: BTreeMap::new(),
        }
    }
}

impl Analysis {
    /// Where a pthread struct keeps its stack: `(stack, stack_size)`, in bytes from
    /// the start of the struct.
    ///
    /// It is a layout rather than something the wasm says, so it is
    /// version-specific, and it is the number to check first if a threaded module
    /// misbehaves.
    pub const PTHREAD_STACK_OFFSETS: (u64, u64) = (48, 52);

    /// Every function reachable from `start`, including through the table.
    ///
    /// A direct call names its callee; an indirect one names only a type, so
    /// everything in the table with that type joins the set.
    pub fn reachable_from(&self, module: &Module, start: u32) -> (found: BTreeSet<u32>)
        ensures
            forall|func: u32| #[trigger]
                found@.contains(func) == reachable(
                    self.call_graph,
                    self.table@,
                    module,
                    true,
                    start,
                    func,
                ),
    {
        reached(&self.call_graph, &self.table, module, start, true)
    }

    /// Every function reachable from `start` by direct calls only.
    ///
    /// A smaller set, and an incomplete one: an indirect call from inside it can
    /// land anywhere in the table.
    pub fn directly_reachable_from(&self, module: &Module, start: u32) -> (found: BTreeSet<u32>)
        ensures
            forall|func: u32| #[trigger]
                found@.contains(func) == reachable(
                    self.call_graph,
                    self.table@,
                    module,
                    false,
                    start,
                    func,
                ),
    {
        reached(&self.call_graph, &self.table, module, start, false)
    }
}

} // verus!
