//! The module, decoded into something that can be walked twice.

pub mod assemble;
pub mod decode;
pub mod laws;
pub mod lower;
pub mod model;
pub mod operator;
pub mod operator_laws;
pub mod parse;
pub mod section_laws;
pub mod types;
pub mod wire;

pub use types::{
    Atomic, AtomicKind, BlockType, ConstExpr, DataSegment, ElemSegment, Export, ExportKind, Func, FuncType, GlobalDef,
    ImportedFunc, LoadKind, MemArg, MemoryDef, Module, Op, RmwKind, StoreKind, ValType,
};
