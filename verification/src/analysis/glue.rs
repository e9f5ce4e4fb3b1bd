//! The imports that can be answered with the module's own parts.

use vstd::prelude::*;
use crate::module::types::{ExportKind, FuncType, Module, ValType};
use crate::text::pieces::{begins_with, same_text, text_begins};

verus! {

/// An `invoke_*` import that can be generated instead of asked of the host.
///
/// Emscripten routes any call that might throw through one of these: the first
/// argument is a table index, the rest are the callee's own arguments.
#[derive(Debug, Clone, Copy, PartialEq, Eq, Structural)]
pub struct Invoke {
    /// The imported function's index.
    pub import: u32,
    /// The type of what it dispatches to: the import's signature without its
    /// leading table index.
    pub callee_type: u32,
}

/// What it takes to answer `__pthread_create_js` without inventing anything.
///
/// The memory is shared, the table holds the routine, and
/// `_emscripten_thread_init` is one of the module's own exports.
#[derive(Debug, Clone, Copy, PartialEq, Eq, Structural)]
pub struct Spawn {
    /// The imported `__pthread_create_js`.
    pub import: u32,
    /// The exported `_emscripten_thread_init` the new thread calls.
    pub thread_init: u32,
    /// How many arguments that takes.
    pub thread_init_arity: usize,
    /// The exported `_emscripten_stack_set_limits`, which the thread calls
    /// with the stack it found in its own pthread struct.
    pub stack_set_limits: Option<u32>,
    /// The exported `_emscripten_thread_exit`, which the thread calls with
    /// what its start routine returned.
    pub thread_exit: Option<u32>,
    /// The type of the start routine: `(i32) -> i32`, by index.
    pub entry_type: u32,
}

/// The `mmap` family, when the module supplies everything they need.
///
/// Emscripten's glue answers `__mmap_js` by allocating with the module's *own*
/// allocator and reading the file into it. If any part is missing the import
/// stays the host's.
#[derive(Debug, Clone, Copy, PartialEq, Eq, Structural)]
pub struct Mmap {
    /// `env::_mmap_js`, if the module imports it.
    pub map: Option<u32>,
    /// `env::_munmap_js`.
    pub unmap: Option<u32>,
    /// `env::_msync_js`.
    pub sync: Option<u32>,
    /// The exported `emscripten_builtin_memalign`, which is where the mapping
    /// comes from. Without it there is nowhere to put a file.
    pub memalign: u32,
    /// The exported `free`.
    pub free: u32,
    /// The imported `fd_pread`, which is how the bytes get in.
    pub pread: u32,
    /// The imported `fd_pwrite`, which is how `msync` gets them out.
    pub pwrite: Option<u32>,
}

/// `__emscripten_init_main_thread_js`, which is the main thread's version of
/// what a worker does before it runs anything.
#[derive(Debug, Clone, Copy, PartialEq, Eq, Structural)]
pub struct InitMainThread {
    /// The import.
    pub import: u32,
    /// The exported `_emscripten_thread_init` it calls.
    pub thread_init: u32,
    /// How many arguments that takes.
    pub thread_init_arity: usize,
}

/// The function the first export from `i` on exports under one of two names.
pub open spec fn exported_func(module: &Module, one: Seq<char>, other: Seq<char>, i: int) -> Option<
    u32,
>
    decreases module.exports@.len() - i,
{
    if i < 0 || i >= module.exports@.len() {
        None
    } else {
        let export = module.exports@[i];
        if export.kind == ExportKind::Func && (export.name@ == one || export.name@ == other) {
            Some(export.index)
        } else {
            exported_func(module, one, other, i + 1)
        }
    }
}

/// Finds a function exported under one of two names.
pub fn find_export(module: &Module, one: &str, other: &str) -> (index: Option<u32>)
    ensures
        index == exported_func(module, one@, other@, 0),
{
    let mut i: usize = 0;
    while i < module.exports.len()
        invariant
            i <= module.exports@.len(),
            exported_func(module, one@, other@, 0) == exported_func(module, one@, other@, i as int),
        decreases module.exports@.len() - i,
    {
        if module.exports[i].kind == ExportKind::Func && (same_text(
            module.exports[i].name.as_str(),
            one,
        ) || same_text(module.exports[i].name.as_str(), other)) {
            return Some(module.exports[i].index);
        }
        i = i + 1;
    }
    None
}

/// The first import from `i` on whose field is one of two names.
pub open spec fn import_named(module: &Module, one: Seq<char>, other: Seq<char>, i: int) -> Option<int>
    decreases module.func_imports@.len() - i,
{
    if i < 0 || i >= module.func_imports@.len() {
        None
    } else if module.func_imports@[i].field@ == one || module.func_imports@[i].field@ == other {
        Some(i)
    } else {
        import_named(module, one, other, i + 1)
    }
}

fn find_import(module: &Module, one: &str, other: &str) -> (at: Option<usize>)
    ensures
        match at {
            Some(at) => at < module.func_imports@.len() && import_named(module, one@, other@, 0)
                == Some(at as int),
            None => import_named(module, one@, other@, 0) is None,
        },
{
    let mut i: usize = 0;
    while i < module.func_imports.len()
        invariant
            i <= module.func_imports@.len(),
            import_named(module, one@, other@, 0) == import_named(module, one@, other@, i as int),
        decreases module.func_imports@.len() - i,
    {
        let field: &str = module.func_imports[i].field.as_str();
        if same_text(field, one) || same_text(field, other) {
            return Some(i);
        }
        i = i + 1;
    }
    None
}

/// The type an import has, if it is there.
pub open spec fn import_type(module: &Module, at: int) -> Option<FuncType> {
    let index = module.func_imports@[at].type_index;
    if index < module.types@.len() {
        Some(module.types@[index as int])
    } else {
        None
    }
}

fn type_of_import(module: &Module, at: usize) -> (ty: Option<&FuncType>)
    requires
        at < module.func_imports@.len(),
    ensures
        match ty {
            Some(ty) => import_type(module, at as int) == Some(*ty),
            None => import_type(module, at as int) is None,
        },
{
    let index: usize = module.func_imports[at].type_index as usize;
    if index < module.types.len() {
        Some(&module.types[index])
    } else {
        None
    }
}

/// Whether a list of types is another.
fn same_types(left: &Vec<ValType>, right: &Vec<ValType>) -> (same: bool)
    ensures
        same == (left@ == right@),
{
    if left.len() != right.len() {
        return false;
    }
    let mut i: usize = 0;
    while i < left.len()
        invariant
            left@.len() == right@.len(),
            i <= left@.len(),
            forall|j: int| 0 <= j < i ==> left@[j] == right@[j],
        decreases left@.len() - i,
    {
        if left[i] != right[i] {
            return false;
        }
        i = i + 1;
    }
    assert(left@ =~= right@);
    true
}

/// Whether every one of a list of types is `i32`.
pub open spec fn all_i32(types: Seq<ValType>) -> bool {
    forall|i: int| 0 <= i < types.len() ==> #[trigger] types[i] == ValType::I32
}

fn only_i32(types: &Vec<ValType>) -> (yes: bool)
    ensures
        yes == all_i32(types@),
{
    let mut i: usize = 0;
    while i < types.len()
        invariant
            i <= types@.len(),
            forall|j: int| 0 <= j < i ==> #[trigger] types@[j] == ValType::I32,
        decreases types@.len() - i,
    {
        if types[i] != ValType::I32 {
            return false;
        }
        i = i + 1;
    }
    true
}

/// The import of a name, if it has the shape it must have. A different shape is a
/// different function, and reading the wrong argument as a file descriptor is the
/// kind of mistake a signature check exists to stop.
pub open spec fn import_shaped(
    module: &Module,
    field: Seq<char>,
    params: Seq<ValType>,
    results: Seq<ValType>,
) -> Option<u32> {
    match import_named(module, field, field, 0) {
        Some(at) => match import_type(module, at) {
            Some(ty) => if ty.params@ == params && ty.results@ == results {
                Some(at as u32)
            } else {
                None
            },
            None => None,
        },
        None => None,
    }
}

fn find_shaped(module: &Module, field: &str, params: &Vec<ValType>, results: &Vec<ValType>) -> (at:
    Option<u32>)
    ensures
        at == import_shaped(module, field@, params@, results@),
{
    match find_import(module, field, field) {
        Some(at) => match type_of_import(module, at) {
            Some(ty) => if same_types(&ty.params, params) && same_types(&ty.results, results) {
                Some(at as u32)
            } else {
                None
            },
            None => None,
        },
        None => None,
    }
}

/// Whether a function has a signature.
pub open spec fn shaped(
    module: &Module,
    func: u32,
    params: Seq<ValType>,
    results: Seq<ValType>,
) -> bool {
    match module.signature(func) {
        Some(ty) => ty.params@ == params && ty.results@ == results,
        None => false,
    }
}

fn is_shaped(module: &Module, func: u32, params: &Vec<ValType>, results: &Vec<ValType>) -> (yes:
    bool)
    ensures
        yes == shaped(module, func, params@, results@),
{
    match module.func_type(func) {
        Some(ty) => same_types(&ty.params, params) && same_types(&ty.results, results),
        None => false,
    }
}

/// The signature of `__mmap_js(len, prot, flags, fd, offset, allocated, addr)`.
pub open spec fn mmap_params() -> Seq<ValType> {
    seq![
        ValType::I32,
        ValType::I32,
        ValType::I32,
        ValType::I32,
        ValType::I64,
        ValType::I32,
        ValType::I32,
    ]
}

/// The signature of the two that unwind it.
pub open spec fn unmap_params() -> Seq<ValType> {
    seq![
        ValType::I32,
        ValType::I32,
        ValType::I32,
        ValType::I32,
        ValType::I32,
        ValType::I64,
    ]
}

/// The signature of a read or write at an offset.
pub open spec fn positional_params() -> Seq<ValType> {
    seq![ValType::I32, ValType::I32, ValType::I32, ValType::I64, ValType::I32]
}

/// One `i32`.
pub open spec fn one_i32() -> Seq<ValType> {
    seq![ValType::I32]
}

/// The `mmap` glue of a module, if every part of it is there. Writing a mapping
/// back needs `fd_pwrite`; without it those two stay the host's.
pub open spec fn mmap_of(module: &Module) -> Option<Mmap> {
    let map = import_shaped(module, "_mmap_js"@, mmap_params(), one_i32());
    let unmap = import_shaped(module, "_munmap_js"@, unmap_params(), one_i32());
    let sync = import_shaped(module, "_msync_js"@, unmap_params(), one_i32());
    let pread = import_shaped(module, "fd_pread"@, positional_params(), one_i32());
    let pwrite = import_shaped(module, "fd_pwrite"@, positional_params(), one_i32());
    match (
        exported_func(module, "emscripten_builtin_memalign"@, "memalign"@, 0),
        exported_func(module, "free"@, "free"@, 0),
        pread,
    ) {
        (Some(memalign), Some(free), Some(pread)) => if shaped(
            module,
            memalign,
            seq![ValType::I32, ValType::I32],
            one_i32(),
        ) && shaped(module, free, one_i32(), Seq::empty()) && (map is Some || (pwrite is Some && (
        unmap is Some || sync is Some))) {
            Some(
                Mmap {
                    map,
                    unmap: if pwrite is Some {
                        unmap
                    } else {
                        None
                    },
                    sync: if pwrite is Some {
                        sync
                    } else {
                        None
                    },
                    memalign,
                    free,
                    pread,
                    pwrite,
                },
            )
        } else {
            None
        },
        _ => None,
    }
}

/// Finds the `mmap` glue, if every part of it is there.
pub fn find_mmap(module: &Module) -> (found: Option<Mmap>)
    ensures
        found == mmap_of(module),
{
    let one: Vec<ValType> = vec![ValType::I32];
    let two: Vec<ValType> = vec![ValType::I32, ValType::I32];
    let none: Vec<ValType> = Vec::new();
    let mapping: Vec<ValType> = vec![
        ValType::I32,
        ValType::I32,
        ValType::I32,
        ValType::I32,
        ValType::I64,
        ValType::I32,
        ValType::I32,
    ];
    let unmapping: Vec<ValType> = vec![
        ValType::I32,
        ValType::I32,
        ValType::I32,
        ValType::I32,
        ValType::I32,
        ValType::I64,
    ];
    let positional: Vec<ValType> = vec![
        ValType::I32,
        ValType::I32,
        ValType::I32,
        ValType::I64,
        ValType::I32,
    ];
    proof {
        assert(one@ =~= one_i32());
        assert(two@ =~= seq![ValType::I32, ValType::I32]);
        assert(none@ =~= Seq::<ValType>::empty());
        assert(mapping@ =~= mmap_params());
        assert(unmapping@ =~= unmap_params());
        assert(positional@ =~= positional_params());
    }
    let map: Option<u32> = find_shaped(module, "_mmap_js", &mapping, &one);
    let unmap: Option<u32> = find_shaped(module, "_munmap_js", &unmapping, &one);
    let sync: Option<u32> = find_shaped(module, "_msync_js", &unmapping, &one);
    if map.is_none() && unmap.is_none() && sync.is_none() {
        return None;
    }
    let memalign: u32 = match find_export(module, "emscripten_builtin_memalign", "memalign") {
        Some(memalign) => memalign,
        None => {
            return None;
        },
    };
    let free: u32 = match find_export(module, "free", "free") {
        Some(free) => free,
        None => {
            return None;
        },
    };
    if !is_shaped(module, memalign, &two, &one) || !is_shaped(module, free, &one, &none) {
        return None;
    }
    let pread: u32 = match find_shaped(module, "fd_pread", &positional, &one) {
        Some(pread) => pread,
        None => {
            return None;
        },
    };
    let pwrite: Option<u32> = find_shaped(module, "fd_pwrite", &positional, &one);
    let (sync, unmap) = if pwrite.is_some() {
        (sync, unmap)
    } else {
        (None, None)
    };
    if map.is_none() && sync.is_none() && unmap.is_none() {
        return None;
    }
    Some(Mmap { map, unmap, sync, memalign, free, pread, pwrite })
}

/// The thread initialiser a module exports, with how many arguments it takes, all
/// of which are `i32` and of which there is at least one.
pub open spec fn thread_init_of(module: &Module) -> Option<(u32, usize)> {
    match exported_func(module, "_emscripten_thread_init"@, "_emscripten_thread_init"@, 0) {
        Some(func) => match module.signature(func) {
            Some(ty) => if ty.params@.len() > 0 && all_i32(ty.params@) {
                Some((func, ty.params@.len() as usize))
            } else {
                None
            },
            None => None,
        },
        None => None,
    }
}

fn find_thread_init(module: &Module) -> (found: Option<(u32, usize)>)
    ensures
        found == thread_init_of(module),
{
    match find_export(module, "_emscripten_thread_init", "_emscripten_thread_init") {
        Some(func) => match module.func_type(func) {
            Some(ty) => if ty.params.len() > 0 && only_i32(&ty.params) {
                Some((func, ty.params.len()))
            } else {
                None
            },
            None => None,
        },
        None => None,
    }
}

/// The main thread's initialisation, if the module has both halves of it.
pub open spec fn init_main_thread_of(module: &Module) -> Option<InitMainThread> {
    match import_named(
        module,
        "__emscripten_init_main_thread_js"@,
        "_emscripten_init_main_thread_js"@,
        0,
    ) {
        Some(at) => match import_type(module, at) {
            Some(ty) => if ty.params@ == one_i32() && ty.results@.len() == 0 {
                match thread_init_of(module) {
                    Some((thread_init, thread_init_arity)) => Some(
                        InitMainThread { import: at as u32, thread_init, thread_init_arity },
                    ),
                    None => None,
                }
            } else {
                None
            },
            None => None,
        },
        None => None,
    }
}

/// Finds the main thread's initialisation.
pub fn find_init_main_thread(module: &Module) -> (found: Option<InitMainThread>)
    ensures
        found == init_main_thread_of(module),
{
    let one: Vec<ValType> = vec![ValType::I32];
    assert(one@ =~= one_i32());
    let at: usize = match find_import(
        module,
        "__emscripten_init_main_thread_js",
        "_emscripten_init_main_thread_js",
    ) {
        Some(at) => at,
        None => {
            return None;
        },
    };
    match type_of_import(module, at) {
        Some(ty) => {
            if !same_types(&ty.params, &one) || ty.results.len() > 0 {
                return None;
            }
        },
        None => {
            return None;
        },
    }
    match find_thread_init(module) {
        Some((thread_init, thread_init_arity)) => Some(
            InitMainThread { import: at as u32, thread_init, thread_init_arity },
        ),
        None => None,
    }
}

/// The first type from `i` on with a signature.
pub open spec fn type_shaped(
    module: &Module,
    params: Seq<ValType>,
    results: Seq<ValType>,
    i: int,
) -> Option<int>
    decreases module.types@.len() - i,
{
    if i < 0 || i >= module.types@.len() {
        None
    } else if module.types@[i].params@ == params && module.types@[i].results@ == results {
        Some(i)
    } else {
        type_shaped(module, params, results, i + 1)
    }
}

fn find_type(module: &Module, params: &Vec<ValType>, results: &Vec<ValType>) -> (at: Option<usize>)
    ensures
        match at {
            Some(at) => type_shaped(module, params@, results@, 0) == Some(at as int),
            None => type_shaped(module, params@, results@, 0) is None,
        },
{
    let mut i: usize = 0;
    while i < module.types.len()
        invariant
            i <= module.types@.len(),
            type_shaped(module, params@, results@, 0) == type_shaped(
                module,
                params@,
                results@,
                i as int,
            ),
        decreases module.types@.len() - i,
    {
        if same_types(&module.types[i].params, params) && same_types(
            &module.types[i].results,
            results,
        ) {
            return Some(i);
        }
        i = i + 1;
    }
    None
}

/// The pthread glue of a module, if all of it is there. A thread is another
/// instance over the same memory: without a shared one there is nothing to join.
/// The start routine is `void *(*)(void *)`, which is `(i32) -> i32`.
pub open spec fn spawn_of(module: &Module) -> Option<Spawn> {
    let shared = match module.memory {
        Some(memory) => memory.shared,
        None => false,
    };
    match import_named(module, "__pthread_create_js"@, "_pthread_create_js"@, 0) {
        Some(at) => match (
            import_type(module, at),
            thread_init_of(module),
            type_shaped(module, one_i32(), one_i32(), 0),
        ) {
            (Some(ty), Some((thread_init, thread_init_arity)), Some(entry_type)) => if shared
                && ty.params@.len() == 4 && all_i32(ty.params@) && ty.results@ == one_i32() {
                Some(
                    Spawn {
                        import: at as u32,
                        thread_init,
                        thread_init_arity,
                        stack_set_limits: exported_func(
                            module,
                            "emscripten_stack_set_limits"@,
                            "_emscripten_stack_set_limits"@,
                            0,
                        ),
                        thread_exit: exported_func(
                            module,
                            "_emscripten_thread_exit"@,
                            "_emscripten_thread_exit"@,
                            0,
                        ),
                        entry_type: entry_type as u32,
                    },
                )
            } else {
                None
            },
            _ => None,
        },
        None => None,
    }
}

/// Finds the pthread glue, if all of it is there.
pub fn find_spawn(module: &Module) -> (found: Option<Spawn>)
    ensures
        found == spawn_of(module),
{
    let one: Vec<ValType> = vec![ValType::I32];
    assert(one@ =~= one_i32());
    match &module.memory {
        Some(memory) => {
            if !memory.shared {
                return None;
            }
        },
        None => {
            return None;
        },
    }
    let at: usize = match find_import(module, "__pthread_create_js", "_pthread_create_js") {
        Some(at) => at,
        None => {
            return None;
        },
    };
    match type_of_import(module, at) {
        Some(ty) => {
            if ty.params.len() != 4 || !only_i32(&ty.params) || !same_types(&ty.results, &one) {
                return None;
            }
        },
        None => {
            return None;
        },
    }
    let (thread_init, thread_init_arity) = match find_thread_init(module) {
        Some(found) => found,
        None => {
            return None;
        },
    };
    match find_type(module, &one, &one) {
        Some(entry_type) => Some(
            Spawn {
                import: at as u32,
                thread_init,
                thread_init_arity,
                stack_set_limits: find_export(
                    module,
                    "emscripten_stack_set_limits",
                    "_emscripten_stack_set_limits",
                ),
                thread_exit: find_export(
                    module,
                    "_emscripten_thread_exit",
                    "_emscripten_thread_exit",
                ),
                entry_type: entry_type as u32,
            },
        ),
        None => None,
    }
}

/// The trampoline an import can be generated as: it is called `invoke_`
/// something, its first parameter is a table index, and the rest match a type the
/// module declares.
pub open spec fn invoke_at(module: &Module, at: int) -> Option<Invoke> {
    if !begins_with(module.func_imports@[at].field@, "invoke_"@) {
        None
    } else {
        match import_type(module, at) {
            Some(ty) => if ty.params@.len() > 0 && ty.params@[0] == ValType::I32 {
                match type_shaped(module, ty.params@.drop_first(), ty.results@, 0) {
                    Some(callee_type) => Some(
                        Invoke { import: at as u32, callee_type: callee_type as u32 },
                    ),
                    None => None,
                }
            } else {
                None
            },
            None => None,
        }
    }
}

/// The trampolines among the first `n` imports.
pub open spec fn invokes_of(module: &Module, n: int) -> Seq<Invoke>
    decreases n,
{
    if n <= 0 {
        Seq::empty()
    } else {
        match invoke_at(module, n - 1) {
            Some(invoke) => invokes_of(module, n - 1).push(invoke),
            None => invokes_of(module, n - 1),
        }
    }
}

fn read_invoke(module: &Module, at: usize) -> (invoke: Option<Invoke>)
    requires
        at < module.func_imports@.len(),
    ensures
        invoke == invoke_at(module, at as int),
{
    if !text_begins(module.func_imports[at].field.as_str(), "invoke_") {
        return None;
    }
    match type_of_import(module, at) {
        Some(ty) => {
            if ty.params.len() == 0 || ty.params[0] != ValType::I32 {
                return None;
            }
            let rest: Vec<ValType> = vstd::slice::slice_to_vec(
                vstd::slice::slice_subrange(ty.params.as_slice(), 1, ty.params.len()),
            );
            assert(rest@ =~= ty.params@.drop_first());
            match find_type(module, &rest, &ty.results) {
                Some(callee_type) => Some(
                    Invoke { import: at as u32, callee_type: callee_type as u32 },
                ),
                None => None,
            }
        },
        None => None,
    }
}

/// Finds the `invoke_*` imports whose dispatch target the module already has a
/// type for.
///
/// The name is the signal, and a reliable one: import names are the module's
/// interface to its host. The signature is then checked rather than trusted.
pub fn find_invokes(module: &Module) -> (invokes: Vec<Invoke>)
    ensures
        invokes@ == invokes_of(module, module.func_imports@.len() as int),
{
    let mut invokes: Vec<Invoke> = Vec::new();
    let mut at: usize = 0;
    while at < module.func_imports.len()
        invariant
            at <= module.func_imports@.len(),
            invokes@ == invokes_of(module, at as int),
        decreases module.func_imports@.len() - at,
    {
        match read_invoke(module, at) {
            Some(invoke) => {
                invokes.push(invoke);
            },
            None => {},
        }
        at = at + 1;
    }
    invokes
}

} // verus!
