//! The calls into the decoder.
//!
//! Each function here hands bytes to `wasmparser` and brings back what it read
//! as plain values. What it reads is a function of the bytes and of where they
//! stand in the file, and takes the binary format to state; so each has a name,
//! and the rest of the library is exact over those names.
//!
//! A section says how many entries it has before it has them, and the decoder's
//! iterators hand that number on as the least they will yield. `map_while(Some)`
//! yields the same entries and promises none of them, so that no room is made for
//! entries a malformed file only claims.

use vstd::prelude::*;
use wasmparser::{
    BinaryReader, ConstExpr, ElementKind, MemoryType, Name, NameMap, Parser, Payload, SectionLimited, TypeRef,
};
use crate::module::wire::{
    DataEntry, DataModel, ElementPlace, ElementRanges, Expr, GlobalEntry, ImportEntry, ImportModel, ItemsPlace,
    MemoryEntry, NameEntry, NameKind, Part, PartModel, TypeEntry, TypeGroup, TypeModel, stream,
};

verus! {

/// What `Parser::parse_all` yields for a file.
pub uninterp spec fn payloads_of(bytes: Seq<u8>) -> Seq<Result<PartModel, Seq<char>>>;

/// `wasmparser::Parser::parse_all` on a whole file: its pieces in order, and the
/// error that ends them where the bytes stop making sense. A section comes with
/// its `Debug` text and the range `Payload::as_section` gives.
#[verifier::external_body]
pub(crate) fn payloads(bytes: &[u8]) -> (parts: Vec<Result<Part, String>>)
    ensures
        stream(parts@) == payloads_of(bytes@),
{
    let parse = Parser::new(0).parse_all(bytes);
    parse.map(|payload| match payload {
        Ok(Payload::StartSection { func, .. }) => Ok(Part::Start(func)),
        Ok(Payload::CodeSectionEntry(body)) => Ok(Part::Body(body.range().start, body.range().end)),
        Ok(Payload::CustomSection(custom)) => {
            Ok(Part::Custom(custom.name().to_string(), custom.data_offset(), custom.range().end))
        },
        Ok(payload) => Ok(match payload.as_section() {
            Some((_, range)) => Part::Section(format!("{payload:?}"), range.start, range.end),
            None => Part::Other,
        }),
        Err(error) => Err(error.to_string()),
    }).collect()
}

/// What a `TypeSectionReader` yields.
pub uninterp spec fn types_of(contents: Seq<u8>, offset: usize) -> Seq<
    Result<Seq<TypeModel>, Seq<char>>,
>;

/// `wasmparser::TypeSectionReader` on the contents of a type section that starts
/// at `offset` in the file: its groups of types.
#[verifier::external_body]
pub(crate) fn types(contents: &[u8], offset: usize) -> (groups: Vec<Result<TypeGroup, String>>)
    requires
        offset + contents@.len() <= usize::MAX,
    ensures
        stream(groups@) == types_of(contents@, offset),
{
    match wasmparser::TypeSectionReader::new(BinaryReader::new(contents, offset)) {
        Err(error) => vec![Err(error.to_string())],
        Ok(reader) => reader.into_iter().map_while(Some).map(|group| match group {
            Err(error) => Err(error.to_string()),
            Ok(group) => Ok(TypeGroup {
                types: group.into_types().map(|ty| match ty.composite_type.inner {
                    wasmparser::CompositeInnerType::Func(func) => TypeEntry::Func(
                        func.params().iter().map(|ty| format!("{ty:?}")).collect(),
                        func.results().iter().map(|ty| format!("{ty:?}")).collect(),
                    ),
                    _ => TypeEntry::Other,
                }).collect(),
            }),
        }).collect(),
    }
}

/// What an `ImportSectionReader` yields.
pub uninterp spec fn imports_of(contents: Seq<u8>, offset: usize) -> Seq<
    Result<(Seq<char>, Seq<char>, ImportModel), Seq<char>>,
>;

/// `wasmparser::ImportSectionReader` and its `into_imports`: the imports of an
/// import section, each with its module, its name and its type.
#[verifier::external_body]
pub(crate) fn imports(contents: &[u8], offset: usize) -> (imports: Vec<
    Result<(String, String, ImportEntry), String>,
>)
    requires
        offset + contents@.len() <= usize::MAX,
    ensures
        stream(imports@) == imports_of(contents@, offset),
{
    match wasmparser::ImportSectionReader::new(BinaryReader::new(contents, offset)) {
        Err(error) => vec![Err(error.to_string())],
        Ok(reader) => reader.into_imports().map(|import| import.map_err(|error| error.to_string()).map(|import| {
            (import.module.to_string(), import.name.to_string(), match import.ty {
                TypeRef::Func(index) => ImportEntry::Func(index),
                TypeRef::Memory(MemoryType { memory64, shared, initial, maximum, .. }) => {
                    ImportEntry::Memory(MemoryEntry { memory64, shared, initial, maximum })
                },
                TypeRef::Global(_) => ImportEntry::Global,
                TypeRef::Table(_) => ImportEntry::Table,
                TypeRef::Tag(_) => ImportEntry::Tag,
                other => ImportEntry::Other(format!("{other:?}")),
            })
        })).collect(),
    }
}

/// What a `FunctionSectionReader` yields.
pub uninterp spec fn functions_of(contents: Seq<u8>, offset: usize) -> Seq<Result<u32, Seq<char>>>;

/// `wasmparser::FunctionSectionReader`: the type indices of a function section.
#[verifier::external_body]
pub(crate) fn functions(contents: &[u8], offset: usize) -> (indices: Vec<Result<u32, String>>)
    requires
        offset + contents@.len() <= usize::MAX,
    ensures
        stream(indices@) == functions_of(contents@, offset),
{
    match wasmparser::FunctionSectionReader::new(BinaryReader::new(contents, offset)) {
        Err(error) => vec![Err(error.to_string())],
        Ok(reader) => reader.into_iter().map_while(Some).map(|index| index.map_err(|error| error.to_string())).collect(),
    }
}

/// What a `MemorySectionReader` yields.
pub uninterp spec fn memories_of(contents: Seq<u8>, offset: usize) -> Seq<
    Result<MemoryEntry, Seq<char>>,
>;

/// `wasmparser::MemorySectionReader`: the memory types of a memory section.
#[verifier::external_body]
pub(crate) fn memories(contents: &[u8], offset: usize) -> (memories: Vec<Result<MemoryEntry, String>>)
    requires
        offset + contents@.len() <= usize::MAX,
    ensures
        stream(memories@) == memories_of(contents@, offset),
{
    match wasmparser::MemorySectionReader::new(BinaryReader::new(contents, offset)) {
        Err(error) => vec![Err(error.to_string())],
        Ok(reader) => reader.into_iter().map_while(Some).map(|memory| match memory {
            Err(error) => Err(error.to_string()),
            Ok(MemoryType { memory64, shared, initial, maximum, .. }) => {
                Ok(MemoryEntry { memory64, shared, initial, maximum })
            },
        }).collect(),
    }
}

/// What a `GlobalSectionReader` yields.
pub uninterp spec fn globals_of(contents: Seq<u8>, offset: usize) -> Seq<
    Result<(Seq<char>, bool, Seq<Result<Seq<char>, Seq<char>>>), Seq<char>>,
>;

/// `wasmparser::GlobalSectionReader`: the globals of a global section, each with
/// the operators of its initial value.
#[verifier::external_body]
pub(crate) fn globals(contents: &[u8], offset: usize) -> (globals: Vec<Result<GlobalEntry, String>>)
    requires
        offset + contents@.len() <= usize::MAX,
    ensures
        stream(globals@) == globals_of(contents@, offset),
{
    match wasmparser::GlobalSectionReader::new(BinaryReader::new(contents, offset)) {
        Err(error) => vec![Err(error.to_string())],
        Ok(reader) => reader.into_iter().map_while(Some).map(|global| match global {
            Err(error) => Err(error.to_string()),
            Ok(global) => Ok(GlobalEntry {
                ty: format!("{:?}", global.ty.content_type),
                mutable: global.ty.mutable,
                init: Expr { operators: global.init_expr.get_operators_reader().into_iter()
                    .map(|op| op.map(|op| format!("{op:?}")).map_err(|error| error.to_string())).collect() },
            }),
        }).collect(),
    }
}

/// What an `ExportSectionReader` yields.
pub uninterp spec fn exports_of(contents: Seq<u8>, offset: usize) -> Seq<
    Result<(Seq<char>, Seq<char>, u32), Seq<char>>,
>;

/// `wasmparser::ExportSectionReader`: the exports of an export section, each with
/// its name, the `Debug` text of its kind, and its index.
#[verifier::external_body]
pub(crate) fn exports(contents: &[u8], offset: usize) -> (exports: Vec<
    Result<(String, String, u32), String>,
>)
    requires
        offset + contents@.len() <= usize::MAX,
    ensures
        stream(exports@) == exports_of(contents@, offset),
{
    match wasmparser::ExportSectionReader::new(BinaryReader::new(contents, offset)) {
        Err(error) => vec![Err(error.to_string())],
        Ok(reader) => reader.into_iter().map_while(Some).map(|export| match export {
            Err(error) => Err(error.to_string()),
            Ok(export) => Ok((export.name.to_string(), format!("{:?}", export.kind), export.index)),
        }).collect(),
    }
}

/// What a `DataSectionReader` yields.
pub uninterp spec fn data_of(contents: Seq<u8>, offset: usize) -> Seq<Result<DataModel, Seq<char>>>;

/// `wasmparser::DataSectionReader`: the segments of a data section, each with the
/// operators of its offset where it has one.
#[verifier::external_body]
pub(crate) fn data(contents: &[u8], offset: usize) -> (segments: Vec<Result<DataEntry, String>>)
    requires
        offset + contents@.len() <= usize::MAX,
    ensures
        stream(segments@) == data_of(contents@, offset),
{
    match wasmparser::DataSectionReader::new(BinaryReader::new(contents, offset)) {
        Err(error) => vec![Err(error.to_string())],
        Ok(reader) => reader.into_iter().map_while(Some).map(|data| match data {
            Err(error) => Err(error.to_string()),
            Ok(data) => Ok(DataEntry { bytes: data.data.to_vec(), end: data.range.end, active: match data.kind {
                wasmparser::DataKind::Passive => None,
                wasmparser::DataKind::Active { memory_index, offset_expr } => Some((memory_index, Expr {
                    operators: offset_expr.get_operators_reader().into_iter()
                        .map(|op| op.map(|op| format!("{op:?}")).map_err(|error| error.to_string())).collect(),
                })),
            } }),
        }).collect(),
    }
}

/// What an `ElementSectionReader` yields.
pub uninterp spec fn elements_of(contents: Seq<u8>, offset: usize) -> Seq<
    Result<ElementRanges, Seq<char>>,
>;

/// `wasmparser::ElementSectionReader`: the segments of an element section, each with
/// the ranges in the file of its offset, where it has one, and of its list.
#[verifier::external_body]
pub(crate) fn elements(contents: &[u8], offset: usize) -> (segments: Vec<Result<ElementPlace, String>>)
    requires
        offset + contents@.len() <= usize::MAX,
    ensures
        stream(segments@) == elements_of(contents@, offset),
{
    match wasmparser::ElementSectionReader::new(BinaryReader::new(contents, offset)) {
        Err(error) => vec![Err(error.to_string())],
        Ok(reader) => reader.into_iter().map_while(Some).map(|element| element.map_err(|error| error.to_string()).map(|element| {
            ElementPlace {
                offset: match element.kind {
                    ElementKind::Active { offset_expr, .. } => Some(offset_expr.get_binary_reader().range()),
                    _ => None,
                },
                items: match element.items {
                    wasmparser::ElementItems::Functions(items) => ItemsPlace::Functions(items.range()),
                    wasmparser::ElementItems::Expressions(_, items) => ItemsPlace::Expressions(items.range()),
                },
            }
        })).collect(),
    }
}

/// What a `ConstExpr` yields.
pub uninterp spec fn const_operators_of(contents: Seq<u8>, offset: usize) -> Seq<
    Result<Seq<char>, Seq<char>>,
>;

/// `wasmparser::ConstExpr::get_operators_reader`: the operators of a constant
/// expression, which starts at `offset` in the file.
#[verifier::external_body]
pub(crate) fn const_operators(contents: &[u8], offset: usize) -> (expr: Expr)
    requires
        offset + contents@.len() <= usize::MAX,
    ensures
        expr@ == const_operators_of(contents@, offset),
{
    let expr = ConstExpr::new(BinaryReader::new(contents, offset));
    Expr { operators: expr.get_operators_reader().into_iter()
        .map(|op| op.map(|op| format!("{op:?}")).map_err(|error| error.to_string())).collect() }
}

/// What a `SectionLimited` of indices yields.
pub uninterp spec fn element_functions_of(contents: Seq<u8>, offset: usize) -> Seq<
    Result<u32, Seq<char>>,
>;

/// `wasmparser::SectionLimited` of indices: the list of an element segment that
/// lists functions.
#[verifier::external_body]
pub(crate) fn element_functions(contents: &[u8], offset: usize) -> (items: Vec<Result<u32, String>>)
    requires
        offset + contents@.len() <= usize::MAX,
    ensures
        stream(items@) == element_functions_of(contents@, offset),
{
    match SectionLimited::<u32>::new(BinaryReader::new(contents, offset)) {
        Err(error) => vec![Err(error.to_string())],
        Ok(items) => items.into_iter().map_while(Some).map(|item| item.map_err(|error| error.to_string())).collect(),
    }
}

/// What a `SectionLimited` of constant expressions yields.
pub uninterp spec fn element_expressions_of(contents: Seq<u8>, offset: usize) -> Seq<
    Result<Seq<Result<Seq<char>, Seq<char>>>, Seq<char>>,
>;

/// `wasmparser::SectionLimited` of constant expressions: the list of an element
/// segment that lists expressions, with the operators of each.
#[verifier::external_body]
pub(crate) fn element_expressions(contents: &[u8], offset: usize) -> (items: Vec<Result<Expr, String>>)
    requires
        offset + contents@.len() <= usize::MAX,
    ensures
        stream(items@) == element_expressions_of(contents@, offset),
{
    match SectionLimited::<ConstExpr>::new(BinaryReader::new(contents, offset)) {
        Err(error) => vec![Err(error.to_string())],
        Ok(items) => items.into_iter().map_while(Some).map(|item| item.map_err(|error| error.to_string()).map(|expr| Expr {
            operators: expr.get_operators_reader().into_iter()
                .map(|op| op.map(|op| format!("{op:?}")).map_err(|error| error.to_string())).collect(),
        })).collect(),
    }
}

/// What the locals reader of a function body yields.
pub uninterp spec fn locals_of(contents: Seq<u8>, offset: usize) -> Seq<
    Result<(u32, Seq<char>), Seq<char>>,
>;

/// `wasmparser::FunctionBody::get_locals_reader`: the runs of locals a body
/// declares, each with its length and the `Debug` text of its type.
#[verifier::external_body]
pub(crate) fn locals(contents: &[u8], offset: usize) -> (runs: Vec<Result<(u32, String), String>>)
    requires
        offset + contents@.len() <= usize::MAX,
    ensures
        stream(runs@) == locals_of(contents@, offset),
{
    let body = wasmparser::FunctionBody::new(BinaryReader::new(contents, offset));
    match body.get_locals_reader() {
        Err(error) => vec![Err(error.to_string())],
        Ok(reader) => reader.into_iter().map_while(Some).map(|run| match run {
            Err(error) => Err(error.to_string()),
            Ok((count, ty)) => Ok((count, format!("{ty:?}"))),
        }).collect(),
    }
}

/// What the operators reader of a function body yields.
pub uninterp spec fn operators_of(contents: Seq<u8>, offset: usize) -> Seq<
    Result<(Seq<char>, usize), Seq<char>>,
>;

/// `wasmparser::FunctionBody::get_operators_reader` and its
/// `into_iter_with_offsets`: the `Debug` text of each operator of a body, and
/// where it stands in the file.
#[verifier::external_body]
pub(crate) fn operators(contents: &[u8], offset: usize) -> (operators: Vec<
    Result<(String, usize), String>,
>)
    requires
        offset + contents@.len() <= usize::MAX,
    ensures
        stream(operators@) == operators_of(contents@, offset),
{
    let body = wasmparser::FunctionBody::new(BinaryReader::new(contents, offset));
    match body.get_operators_reader() {
        Err(error) => vec![Err(error.to_string())],
        Ok(reader) => reader.into_iter_with_offsets().map(|operator| match operator {
            Err(error) => Err(error.to_string()),
            Ok((operator, at)) => Ok((format!("{operator:?}"), at)),
        }).collect(),
    }
}

/// What a `NameSectionReader` yields.
pub uninterp spec fn names_of(data: Seq<u8>, offset: usize) -> Seq<
    Result<(NameKind, Seq<Result<(u32, Seq<char>), Seq<char>>>), Seq<char>>,
>;

/// `wasmparser::NameSectionReader`: the subsections of a name section, with the
/// names of those that hold function or global names.
#[verifier::external_body]
pub(crate) fn names(data: &[u8], offset: usize) -> (subsections: Vec<Result<NameEntry, String>>)
    requires
        offset + data@.len() <= usize::MAX,
    ensures
        stream(subsections@) == names_of(data@, offset),
{
    let entry = |kind, names: NameMap| NameEntry { kind, names: names.into_iter().map_while(Some).map(|naming| match naming {
        Ok(naming) => Ok((naming.index, naming.name.to_string())),
        Err(error) => Err(error.to_string()),
    }).collect() };
    let reader = wasmparser::NameSectionReader::new(BinaryReader::new(data, offset));
    reader.map(|subsection| match subsection {
        Ok(Name::Function(names)) => Ok(entry(NameKind::Function, names)),
        Ok(Name::Global(names)) => Ok(entry(NameKind::Global, names)),
        Ok(_) => Ok(NameEntry { kind: NameKind::Other, names: Vec::new() }),
        Err(error) => Err(error.to_string()),
    }).collect()
}

} // verus!
