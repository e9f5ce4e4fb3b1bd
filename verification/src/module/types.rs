//! The parts of a decoded module.

use vstd::prelude::*;
use crate::ops::table::NumOp;

verus! {

/// A wasm value type. The four the MVP defines; a reference or a vector is
/// reported as unsupported rather than approximated.
#[derive(Debug, Clone, Copy, PartialEq, Eq, Hash, Structural)]
pub enum ValType {
    /// 32-bit integer, signed or unsigned depending on the operator.
    I32,
    /// 64-bit integer.
    I64,
    /// 32-bit float.
    F32,
    /// 64-bit float.
    F64,
}

impl ValType {
    /// How the type is spelled in generated Rust.
    pub fn rust_name(self) -> (name: &'static str)
        ensures
            name@ == match self {
                ValType::I32 => "i32"@,
                ValType::I64 => "i64"@,
                ValType::F32 => "f32"@,
                ValType::F64 => "f64"@,
            },
    {
        match self {
            ValType::I32 => "i32",
            ValType::I64 => "i64",
            ValType::F32 => "f32",
            ValType::F64 => "f64",
        }
    }

    /// The literal a local of this type is initialised with. wasm zeroes every
    /// local on entry, and so must the generated function.
    pub fn zero(self) -> (literal: &'static str)
        ensures
            literal@ == match self {
                ValType::I32 | ValType::I64 => "0"@,
                ValType::F32 | ValType::F64 => "0.0"@,
            },
    {
        match self {
            ValType::I32 | ValType::I64 => "0",
            ValType::F32 | ValType::F64 => "0.0",
        }
    }
}

/// A function signature.
#[derive(Debug, Clone, PartialEq, Eq)]
pub struct FuncType {
    /// Parameter types, in order.
    pub params: Vec<ValType>,
    /// Result types. wasm allows several.
    pub results: Vec<ValType>,
}

impl Default for FuncType {
    fn default() -> (signature: Self)
        ensures
            signature.params@ == Seq::<ValType>::empty(),
            signature.results@ == Seq::<ValType>::empty(),
    {
        FuncType { params: Vec::new(), results: Vec::new() }
    }
}

/// The type a block, loop or `if` produces.
#[derive(Debug, Clone, Copy, PartialEq, Eq, Structural)]
pub enum BlockType {
    /// Produces nothing.
    Empty,
    /// Produces one value.
    Value(ValType),
    /// Refers to a signature in the type section: parameters, several results,
    /// or both.
    Func(u32),
}

/// The immediate of a load or store: a static offset.
#[derive(Debug, Clone, Copy, PartialEq, Eq, Structural)]
pub struct MemArg {
    /// Added to the dynamic address. Part of the address, not an index.
    pub offset: u64,
}

/// Which load, at which width, with which sign extension.
#[derive(Debug, Clone, Copy, PartialEq, Eq, Structural)]
#[allow(missing_docs)]
pub enum LoadKind {
    I32,
    I64,
    F32,
    F64,
    I32Load8S,
    I32Load8U,
    I32Load16S,
    I32Load16U,
    I64Load8S,
    I64Load8U,
    I64Load16S,
    I64Load16U,
    I64Load32S,
    I64Load32U,
}

impl LoadKind {
    /// The type the load pushes.
    pub open spec fn pushes(self) -> ValType {
        match self {
            LoadKind::I32
            | LoadKind::I32Load8S
            | LoadKind::I32Load8U
            | LoadKind::I32Load16S
            | LoadKind::I32Load16U => ValType::I32,
            LoadKind::I64
            | LoadKind::I64Load8S
            | LoadKind::I64Load8U
            | LoadKind::I64Load16S
            | LoadKind::I64Load16U
            | LoadKind::I64Load32S
            | LoadKind::I64Load32U => ValType::I64,
            LoadKind::F32 => ValType::F32,
            LoadKind::F64 => ValType::F64,
        }
    }

    /// The type the load pushes.
    pub fn result(self) -> (ty: ValType)
        ensures
            ty == self.pushes(),
    {
        match self {
            LoadKind::I32
            | LoadKind::I32Load8S
            | LoadKind::I32Load8U
            | LoadKind::I32Load16S
            | LoadKind::I32Load16U => ValType::I32,
            LoadKind::I64
            | LoadKind::I64Load8S
            | LoadKind::I64Load8U
            | LoadKind::I64Load16S
            | LoadKind::I64Load16U
            | LoadKind::I64Load32S
            | LoadKind::I64Load32U => ValType::I64,
            LoadKind::F32 => ValType::F32,
            LoadKind::F64 => ValType::F64,
        }
    }
}

/// Which store, at which width.
#[derive(Debug, Clone, Copy, PartialEq, Eq, Structural)]
#[allow(missing_docs)]
pub enum StoreKind {
    I32,
    I64,
    F32,
    F64,
    I32Store8,
    I32Store16,
    I64Store8,
    I64Store16,
    I64Store32,
}

/// What an atomic instruction does, apart from the width it does it at.
#[derive(Debug, Clone, Copy, PartialEq, Eq, Structural)]
pub enum AtomicKind {
    /// `*.atomic.load*`
    Load,
    /// `*.atomic.store*`
    Store,
    /// `*.atomic.rmw*.{add,sub,and,or,xor,xchg}`
    Rmw(RmwKind),
    /// `*.atomic.rmw*.cmpxchg*`
    Cmpxchg,
    /// `memory.atomic.wait32` / `wait64`
    Wait,
    /// `memory.atomic.notify`
    Notify,
}

/// The arithmetic in a read-modify-write.
#[derive(Debug, Clone, Copy, PartialEq, Eq, Structural)]
#[allow(missing_docs)]
pub enum RmwKind {
    Add,
    Sub,
    And,
    Or,
    Xor,
    Xchg,
}

impl RmwKind {
    /// The name of the matching runtime variant.
    pub open spec fn called(self) -> Seq<char> {
        match self {
            RmwKind::Add => "Add"@,
            RmwKind::Sub => "Sub"@,
            RmwKind::And => "And"@,
            RmwKind::Or => "Or"@,
            RmwKind::Xor => "Xor"@,
            RmwKind::Xchg => "Xchg"@,
        }
    }

    /// The name of the matching runtime variant.
    pub fn rt_name(self) -> (name: &'static str)
        ensures
            name@ == self.called(),
    {
        match self {
            RmwKind::Add => "Add",
            RmwKind::Sub => "Sub",
            RmwKind::And => "And",
            RmwKind::Or => "Or",
            RmwKind::Xor => "Xor",
            RmwKind::Xchg => "Xchg",
        }
    }
}

/// An atomic memory instruction.
///
/// There are sixty-six of them, and they vary in only three ways: what they do,
/// the type they do it to, and how many bytes they touch.
#[derive(Debug, Clone, Copy, PartialEq, Eq, Structural)]
pub struct Atomic {
    /// What it does.
    pub kind: AtomicKind,
    /// The value type: `i32` or `i64`. Also the type of the result.
    pub ty: ValType,
    /// Bytes accessed: 1, 2, 4 or 8. Narrower than the type means the value is
    /// truncated going in and zero-extended coming out.
    pub width: u32,
}

/// One instruction, narrowed to what can be written out again.
///
/// Structure stays implicit, as it is in the binary: `Block`/`Loop`/`If` open a
/// region and `End` closes it. A float constant is its bit pattern.
#[derive(Debug, Clone, PartialEq)]
#[allow(missing_docs)]
pub enum Op {
    Unreachable,
    Nop,
    Block(BlockType),
    Loop(BlockType),
    If(BlockType),
    Else,
    End,
    Br(u32),
    BrIf(u32),
    BrTable { targets: Vec<u32>, default: u32 },
    Return,
    Call(u32),
    CallIndirect { type_index: u32 },
    Drop,
    Select,
    LocalGet(u32),
    LocalSet(u32),
    LocalTee(u32),
    GlobalGet(u32),
    GlobalSet(u32),
    I32Const(i32),
    I64Const(i64),
    F32Const(u32),
    F64Const(u64),
    Load { kind: LoadKind, mem: MemArg },
    Store { kind: StoreKind, mem: MemArg },
    MemorySize,
    MemoryGrow,
    MemoryCopy,
    MemoryFill,
    MemoryInit(u32),
    DataDrop(u32),
    Atomic { op: Atomic, mem: MemArg },
    /// `atomic.fence`. Orders nothing that a single thread can observe.
    AtomicFence,
    /// Everything arithmetic.
    Num(NumOp),
}

/// A function defined in this module.
#[derive(Debug, Clone)]
pub struct Func {
    /// Index into [`Module::types`].
    pub type_index: u32,
    /// Declared locals, after the parameters, already flattened from the
    /// run-length encoding the binary uses.
    pub locals: Vec<ValType>,
    /// The body, without the implicit outer block.
    pub body: Vec<Op>,
    /// Where each operator of [`Self::body`] sits in the wasm file, as
    /// `(offset, length)`.
    pub offsets: Vec<(u32, u32)>,
}

/// A function imported from the host.
#[derive(Debug, Clone)]
pub struct ImportedFunc {
    /// The two-level name: module, then field.
    pub module: String,
    /// The field name.
    pub field: String,
    /// Index into [`Module::types`].
    pub type_index: u32,
}

/// A constant expression, as far as one can appear in an initialiser. A float is
/// its bit pattern.
#[derive(Debug, Clone, Copy, PartialEq, Eq, Structural)]
pub enum ConstExpr {
    /// A literal.
    I32(i32),
    /// A literal.
    I64(i64),
    /// A literal.
    F32(u32),
    /// A literal.
    F64(u64),
    /// Another global's value. Legal for imported globals only, and rare.
    GlobalGet(u32),
}

/// A global variable defined in this module.
#[derive(Debug, Clone, Copy, PartialEq, Eq, Structural)]
pub struct GlobalDef {
    /// Its type.
    pub ty: ValType,
    /// Whether the module writes to it. The C stack pointer is the mutable one.
    pub mutable: bool,
    /// Its initial value.
    pub init: ConstExpr,
}

/// The module's memory.
#[derive(Debug, Clone)]
pub struct MemoryDef {
    /// Pages present at instantiation.
    pub min_pages: u32,
    /// Page ceiling, if declared.
    pub max_pages: Option<u32>,
    /// Declared shared. A shared memory is what a threaded module asks for.
    pub shared: bool,
    /// Where it comes from, when the host supplies it rather than the module.
    pub imported: Option<(String, String)>,
}

/// A data segment.
#[derive(Debug, Clone)]
pub struct DataSegment {
    /// Where it is copied at instantiation, or `None` if it is passive and only
    /// `memory.init` places it.
    pub offset: Option<ConstExpr>,
    /// The bytes.
    pub bytes: Vec<u8>,
    /// Where the bytes start in the wasm file.
    pub file_offset: u32,
}

/// An element segment: the function table's contents.
#[derive(Debug, Clone)]
pub struct ElemSegment {
    /// Where in the table it starts, or `None` if passive.
    pub offset: Option<ConstExpr>,
    /// Function indices, in table order.
    pub funcs: Vec<u32>,
}

/// What an export points at.
#[derive(Debug, Clone, Copy, PartialEq, Eq, Structural)]
pub enum ExportKind {
    /// A function.
    Func,
    /// The memory.
    Memory,
    /// A global.
    Global,
    /// The table.
    Table,
}

/// An exported name.
#[derive(Debug, Clone)]
pub struct Export {
    /// The name as the host sees it. Minified modules export single letters.
    pub name: String,
    /// What kind of thing it names.
    pub kind: ExportKind,
    /// Index into the matching index space.
    pub index: u32,
}

/// A decoded module.
#[derive(Debug, Clone)]
pub struct Module {
    /// Signatures, indexed as the type section indexes them.
    pub types: Vec<FuncType>,
    /// Imported functions, which occupy the low function indices.
    pub func_imports: Vec<ImportedFunc>,
    /// Functions defined here, in order after the imports.
    pub funcs: Vec<Func>,
    /// The memory, if the module defines one.
    pub memory: Option<MemoryDef>,
    /// Globals defined here.
    pub globals: Vec<GlobalDef>,
    /// Data segments.
    pub datas: Vec<DataSegment>,
    /// Element segments.
    pub elems: Vec<ElemSegment>,
    /// Exports.
    pub exports: Vec<Export>,
    /// The start function, run at instantiation.
    pub start: Option<u32>,
    /// Function names from the name section, indexed by function index. Empty
    /// for a stripped module, which is the normal case for shipped code.
    pub func_names: Vec<(u32, String)>,
    /// Global names from the name section, indexed by global index.
    pub global_names: Vec<(u32, String)>,
}

impl Default for Module {
    fn default() -> (module: Self)
        ensures
            module.types@.len() == 0,
            module.func_imports@.len() == 0,
            module.funcs@.len() == 0,
            module.memory is None,
            module.globals@.len() == 0,
            module.datas@.len() == 0,
            module.elems@.len() == 0,
            module.exports@.len() == 0,
            module.start is None,
            module.func_names@.len() == 0,
            module.global_names@.len() == 0,
    {
        Module {
            types: Vec::new(),
            func_imports: Vec::new(),
            funcs: Vec::new(),
            memory: None,
            globals: Vec::new(),
            datas: Vec::new(),
            elems: Vec::new(),
            exports: Vec::new(),
            start: None,
            func_names: Vec::new(),
            global_names: Vec::new(),
        }
    }
}

impl Module {
    /// The type index of a function by index, imports included.
    pub open spec fn type_index(&self, index: u32) -> Option<u32> {
        let imports = self.func_imports@.len();
        if index < imports {
            Some(self.func_imports@[index as int].type_index)
        } else if index - imports < self.funcs@.len() {
            Some(self.funcs@[index - imports].type_index)
        } else {
            None
        }
    }

    /// The signature of a function by index, imports included.
    pub open spec fn signature(&self, index: u32) -> Option<FuncType> {
        match self.type_index(index) {
            Some(at) => if at < self.types@.len() {
                Some(self.types@[at as int])
            } else {
                None
            },
            None => None,
        }
    }

    /// The signature of a function by index, imports included.
    pub fn func_type(&self, index: u32) -> (signature: Option<&FuncType>)
        ensures
            match signature {
                Some(signature) => self.signature(index) == Some(*signature),
                None => self.signature(index) is None,
            },
    {
        let at: usize = index as usize;
        let type_index: u32 = if at < self.func_imports.len() {
            self.func_imports[at].type_index
        } else {
            let defined: usize = at - self.func_imports.len();
            if defined >= self.funcs.len() {
                return None;
            }
            self.funcs[defined].type_index
        };
        if (type_index as usize) < self.types.len() {
            Some(&self.types[type_index as usize])
        } else {
            None
        }
    }

    /// Whether the name section names a function, and it is this entry that
    /// counts: the first for that index.
    pub open spec fn names_at(&self, index: u32, i: int) -> bool {
        &&& 0 <= i < self.func_names@.len()
        &&& self.func_names@[i].0 == index
        &&& forall|j: int| 0 <= j < i ==> (#[trigger] self.func_names@[j]).0 != index
    }

    /// The name section's name for a function, if it kept one.
    pub fn func_name(&self, index: u32) -> (name: Option<&str>)
        ensures
            match name {
                Some(name) => exists|i: int| #[trigger]
                    self.names_at(index, i) && self.func_names@[i].1@ == name@,
                None => forall|j: int|
                    0 <= j < self.func_names@.len() ==> (#[trigger] self.func_names@[j]).0 != index,
            },
    {
        let mut i: usize = 0;
        while i < self.func_names.len()
            invariant
                i <= self.func_names@.len(),
                forall|j: int| 0 <= j < i ==> (#[trigger] self.func_names@[j]).0 != index,
            decreases self.func_names@.len() - i,
        {
            if self.func_names[i].0 == index {
                assert(self.names_at(index, i as int));
                return Some(self.func_names[i].1.as_str());
            }
            i = i + 1;
        }
        None
    }
}

} // verus!
