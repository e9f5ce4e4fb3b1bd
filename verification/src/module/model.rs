//! Decoded modules as mathematical values.

use vstd::prelude::*;
use crate::error::Failure;
use crate::module::types::{
    ConstExpr, DataSegment, ElemSegment, Export, ExportKind, Func, FuncType, GlobalDef, ImportedFunc, MemoryDef, Module,
    Op, ValType,
};

verus! {

/// A signature.
pub struct SignatureModel {
    /// Parameter types.
    pub params: Seq<ValType>,
    /// Result types.
    pub results: Seq<ValType>,
}

impl View for FuncType {
    type V = SignatureModel;

    open spec fn view(&self) -> SignatureModel {
        SignatureModel { params: self.params@, results: self.results@ }
    }
}

/// An instruction. Only the branch table holds a list.
pub enum Instruction {
    /// A branch table.
    Table(Seq<u32>, u32),
    /// Any other.
    Plain(Op),
}

impl View for Op {
    type V = Instruction;

    open spec fn view(&self) -> Instruction {
        match *self {
            Op::BrTable { targets, default } => Instruction::Table(targets@, default),
            _ => Instruction::Plain(*self),
        }
    }
}

/// A function.
pub struct FuncModel {
    /// Index of its type.
    pub type_index: u32,
    /// Its declared locals.
    pub locals: Seq<ValType>,
    /// Its body.
    pub body: Seq<Instruction>,
    /// Where each operator sits in the file.
    pub offsets: Seq<(u32, u32)>,
}

impl View for Func {
    type V = FuncModel;

    open spec fn view(&self) -> FuncModel {
        FuncModel {
            type_index: self.type_index,
            locals: self.locals@,
            body: self.body@.map_values(|op: Op| op@),
            offsets: self.offsets@,
        }
    }
}

/// An imported function.
pub struct ImportedModel {
    /// The module it comes from.
    pub module: Seq<char>,
    /// Its name there.
    pub field: Seq<char>,
    /// Index of its type.
    pub type_index: u32,
}

impl View for ImportedFunc {
    type V = ImportedModel;

    open spec fn view(&self) -> ImportedModel {
        ImportedModel { module: self.module@, field: self.field@, type_index: self.type_index }
    }
}

/// A memory.
pub struct MemoryModel {
    /// Pages present at instantiation.
    pub min_pages: u32,
    /// Page ceiling.
    pub max_pages: Option<u32>,
    /// Whether it is shared.
    pub shared: bool,
    /// Where it comes from.
    pub imported: Option<(Seq<char>, Seq<char>)>,
}

impl View for MemoryDef {
    type V = MemoryModel;

    open spec fn view(&self) -> MemoryModel {
        MemoryModel {
            min_pages: self.min_pages,
            max_pages: self.max_pages,
            shared: self.shared,
            imported: match self.imported {
                Some((module, field)) => Some((module@, field@)),
                None => None,
            },
        }
    }
}

/// A data segment.
pub struct SegmentModel {
    /// Where it is copied.
    pub offset: Option<ConstExpr>,
    /// Its bytes.
    pub bytes: Seq<u8>,
    /// Where they start in the file.
    pub file_offset: u32,
}

impl View for DataSegment {
    type V = SegmentModel;

    open spec fn view(&self) -> SegmentModel {
        SegmentModel { offset: self.offset, bytes: self.bytes@, file_offset: self.file_offset }
    }
}

/// An element segment.
pub struct ElemModel {
    /// Where in the table it starts.
    pub offset: Option<ConstExpr>,
    /// Function indices.
    pub funcs: Seq<u32>,
}

impl View for ElemSegment {
    type V = ElemModel;

    open spec fn view(&self) -> ElemModel {
        ElemModel { offset: self.offset, funcs: self.funcs@ }
    }
}

/// An export.
pub struct ExportModel {
    /// Its name.
    pub name: Seq<char>,
    /// What it names.
    pub kind: ExportKind,
    /// Which of those.
    pub index: u32,
}

impl View for Export {
    type V = ExportModel;

    open spec fn view(&self) -> ExportModel {
        ExportModel { name: self.name@, kind: self.kind, index: self.index }
    }
}

/// A module.
pub struct ModuleModel {
    /// Signatures.
    pub types: Seq<SignatureModel>,
    /// Imported functions.
    pub func_imports: Seq<ImportedModel>,
    /// Functions defined here.
    pub funcs: Seq<FuncModel>,
    /// The memory.
    pub memory: Option<MemoryModel>,
    /// Globals.
    pub globals: Seq<GlobalDef>,
    /// Data segments.
    pub datas: Seq<SegmentModel>,
    /// Element segments.
    pub elems: Seq<ElemModel>,
    /// Exports.
    pub exports: Seq<ExportModel>,
    /// The start function.
    pub start: Option<u32>,
    /// Function names.
    pub func_names: Seq<(u32, Seq<char>)>,
    /// Global names.
    pub global_names: Seq<(u32, Seq<char>)>,
}

/// Entries by index, as their texts.
pub open spec fn named(names: Seq<(u32, String)>) -> Seq<(u32, Seq<char>)> {
    names.map_values(|entry: (u32, String)| (entry.0, entry.1@))
}

impl View for Module {
    type V = ModuleModel;

    open spec fn view(&self) -> ModuleModel {
        ModuleModel {
            types: self.types@.map_values(|ty: FuncType| ty@),
            func_imports: self.func_imports@.map_values(|import: ImportedFunc| import@),
            funcs: self.funcs@.map_values(|func: Func| func@),
            memory: match self.memory {
                Some(memory) => Some(memory@),
                None => None,
            },
            globals: self.globals@,
            datas: self.datas@.map_values(|segment: DataSegment| segment@),
            elems: self.elems@.map_values(|segment: ElemSegment| segment@),
            exports: self.exports@.map_values(|export: Export| export@),
            start: self.start,
            func_names: named(self.func_names@),
            global_names: named(self.global_names@),
        }
    }
}

/// A module with nothing in it.
pub open spec fn empty_module() -> ModuleModel {
    ModuleModel {
        types: Seq::empty(),
        func_imports: Seq::empty(),
        funcs: Seq::empty(),
        memory: None,
        globals: Seq::empty(),
        datas: Seq::empty(),
        elems: Seq::empty(),
        exports: Seq::empty(),
        start: None,
        func_names: Seq::empty(),
        global_names: Seq::empty(),
    }
}

/// All of a list of results, or the first failure among them.
pub open spec fn gathered<T>(results: Seq<Result<T, Failure>>) -> Result<Seq<T>, Failure>
    decreases results.len(),
{
    if results.len() == 0 {
        Ok(Seq::empty())
    } else {
        match gathered(results.drop_last()) {
            Err(failure) => Err(failure),
            Ok(values) => match results.last() {
                Err(failure) => Err(failure),
                Ok(value) => Ok(values.push(value)),
            },
        }
    }
}

/// Once a list has failed, what follows does not change how.
pub proof fn lemma_gathered_fails<T>(results: Seq<Result<T, Failure>>, n: int)
    requires
        0 <= n <= results.len(),
        gathered(results.take(n)) is Err,
    ensures
        gathered(results) == gathered(results.take(n)),
    decreases results.len() - n,
{
    if n == results.len() {
        assert(results.take(n) =~= results);
    } else {
        assert(results.take(n + 1).drop_last() =~= results.take(n));
        lemma_gathered_fails(results, n + 1);
    }
}

/// One more result after a list that has not failed.
pub proof fn lemma_gathered_step<T>(results: Seq<Result<T, Failure>>, n: int)
    requires
        0 <= n < results.len(),
        gathered(results.take(n)) is Ok,
    ensures
        results[n] is Err ==> gathered(results) == Err::<Seq<T>, Failure>(results[n]->Err_0),
        results[n] is Ok ==> gathered(results.take(n + 1)) == Ok::<Seq<T>, Failure>(
            (gathered(results.take(n))->Ok_0).push(results[n]->Ok_0),
        ),
{
    assert(results.take(n + 1).drop_last() =~= results.take(n));
    assert(results.take(n + 1).last() == results[n]);
    if results[n] is Err {
        lemma_gathered_fails(results, n + 1);
    }
}

} // verus!
