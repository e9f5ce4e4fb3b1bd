//! Sections, lowered into the parts of a module.
//!
//! For each section there is a spec function that says what it contributes, or
//! how it fails, over what the decoder yielded; and a function that does it.

use vstd::prelude::*;
use vstd::string::StringExecFns;
use crate::error::{Error, Failure};
use crate::module::lower::{
    constant, lower_op, lower_val_type, lowered_operator, read_constant, said, val_type,
};
use crate::module::lower::{index_of, read_index};
use crate::module::model::{
    ElemModel, ExportModel, FuncModel, ImportedModel, Instruction, MemoryModel, SegmentModel,
    SignatureModel, gathered, lemma_gathered_step,
};
use crate::module::operator::{Operator, first_word, words_of};
use crate::module::types::{
    ConstExpr, DataSegment, ElemSegment, Export, ExportKind, Func, FuncType, GlobalDef, ImportedFunc, MemoryDef, Op,
    ValType,
};
use crate::module::decode;
use crate::module::wire::{
    DataEntry, DataModel, ElementEntry, ElementItems, Expr, GlobalEntry, ImportEntry, ImportModel, ItemsModel,
    MemoryEntry, NameEntry, NameKind, TypeEntry, TypeGroup, TypeModel, stream, ElementPlace, ElementRanges, ItemsPlace,
};
use crate::text::pieces::{chars_of, decimal, push_decimal, same_text, texts};

verus! {

/// A text with a number after it.
pub open spec fn numbered(text: Seq<char>, n: nat) -> Seq<char> {
    text + decimal(n)
}

/// A text with a number after it.
fn number_after(text: &str, n: usize) -> (out: String)
    ensures
        out@ == numbered(text@, n as nat),
{
    let mut out: String = text.to_owned();
    push_decimal(&mut out, n as u64);
    out
}

/// Two texts, one after the other.
fn concat(left: &str, right: &str) -> (out: String)
    ensures
        out@ == left@ + right@,
{
    let mut out: String = left.to_owned();
    out.append(right);
    out
}

/// A list of results whose values are given as their models.
pub open spec fn viewed<T: View>(result: Result<Vec<T>, Error>) -> Result<Seq<T::V>, Failure> {
    match result {
        Ok(values) => Ok(values@.map_values(|value: T| value@)),
        Err(error) => Err(error@),
    }
}

/// A list of results.
pub open spec fn listed<T>(result: Result<Vec<T>, Error>) -> Result<Seq<T>, Failure> {
    match result {
        Ok(values) => Ok(values@),
        Err(error) => Err(error@),
    }
}

/// A result whose value is given as its model.
pub open spec fn modelled<T: View>(result: Result<T, Error>) -> Result<T::V, Failure> {
    match result {
        Ok(value) => Ok(value@),
        Err(error) => Err(error@),
    }
}

/// What the decoder could not read.
pub open spec fn decoded<T>(item: Result<T, Seq<char>>) -> Result<T, Failure> {
    match item {
        Ok(value) => Ok(value),
        Err(words) => Err(Failure::Decode(words)),
    }
}

// ---- types ----

/// The value types of a list in the type section.
pub open spec fn type_list(list: Seq<Seq<char>>) -> Result<Seq<ValType>, Failure> {
    gathered(Seq::new(list.len(), |i: int| val_type(list[i], "type section"@)))
}

/// The signature of a type, which has to be a function's.
pub open spec fn signature_of(entry: TypeModel) -> Result<SignatureModel, Failure> {
    match entry {
        TypeModel::Func(params, results) => match type_list(params) {
            Err(failure) => Err(failure),
            Ok(params) => match type_list(results) {
                Err(failure) => Err(failure),
                Ok(results) => Ok(SignatureModel { params, results }),
            },
        },
        TypeModel::Other => Err(
            Failure::Unsupported(
                "non-function type (struct, array or continuation)"@,
                "type section"@,
            ),
        ),
    }
}

/// The signatures of a group of types.
pub open spec fn group_signatures(group: Result<Seq<TypeModel>, Seq<char>>) -> Result<
    Seq<SignatureModel>,
    Failure,
> {
    match group {
        Err(words) => Err(Failure::Decode(words)),
        Ok(types) => gathered(Seq::new(types.len(), |i: int| signature_of(types[i]))),
    }
}

/// Lists one after the other.
pub open spec fn chained<T>(lists: Seq<Seq<T>>) -> Seq<T>
    decreases lists.len(),
{
    if lists.len() == 0 {
        Seq::empty()
    } else {
        chained(lists.drop_last()) + lists.last()
    }
}

/// The signatures of a type section.
pub open spec fn section_types(groups: Seq<Result<Seq<TypeModel>, Seq<char>>>) -> Result<
    Seq<SignatureModel>,
    Failure,
> {
    match gathered(Seq::new(groups.len(), |i: int| group_signatures(groups[i]))) {
        Err(failure) => Err(failure),
        Ok(lists) => Ok(chained(lists)),
    }
}

fn lower_type_list(list: &Vec<String>) -> (types: Result<Vec<ValType>, Error>)
    ensures
        listed(types) == type_list(texts(list@)),
{
    let ghost results = Seq::new(
        list@.len(),
        |i: int| val_type(texts(list@)[i], "type section"@),
    );
    let mut types: Vec<ValType> = Vec::new();
    let mut i: usize = 0;
    assert(results.take(0) =~= Seq::empty());
    while i < list.len()
        invariant
            i <= list@.len(),
            results == Seq::new(
                list@.len(),
                |i: int| val_type(texts(list@)[i], "type section"@),
            ),
            gathered(results.take(i as int)) == Ok::<Seq<ValType>, Failure>(types@),
        decreases list@.len() - i,
    {
        proof {
            lemma_gathered_step(results, i as int);
            assert(texts(list@)[i as int] == list@[i as int]@);
        }
        match lower_val_type(&chars_of(list[i].as_str()), "type section") {
            Ok(ty) => {
                types.push(ty);
            },
            Err(error) => {
                return Err(error);
            },
        }
        i = i + 1;
    }
    assert(results.take(i as int) =~= results);
    assert(results =~= Seq::new(
        texts(list@).len(),
        |i: int| val_type(texts(list@)[i], "type section"@),
    ));
    Ok(types)
}

fn lower_type(entry: &TypeEntry) -> (signature: Result<FuncType, Error>)
    ensures
        modelled(signature) == signature_of(entry@),
{
    match entry {
        TypeEntry::Func(params, results) => match lower_type_list(params) {
            Err(error) => Err(error),
            Ok(params) => match lower_type_list(results) {
                Err(error) => Err(error),
                Ok(results) => Ok(FuncType { params, results }),
            },
        },
        TypeEntry::Other => Err(
            Error::unsupported("non-function type (struct, array or continuation)", "type section"),
        ),
    }
}

fn lower_group_types(group: &TypeGroup) -> (signatures: Result<Vec<FuncType>, Error>)
    ensures
        viewed(signatures) == gathered(Seq::new(group@.len(), |i: int| signature_of(group@[i]))),
{
    let ghost results = Seq::new(group@.len(), |i: int| signature_of(group@[i]));
    let mut signatures: Vec<FuncType> = Vec::new();
    let mut i: usize = 0;
    assert(results.take(0) =~= Seq::empty());
    assert(signatures@.map_values(|value: FuncType| value@) =~= Seq::empty());
    while i < group.types.len()
        invariant
            i <= group.types@.len(),
            group@.len() == group.types@.len(),
            results == Seq::new(group@.len(), |i: int| signature_of(group@[i])),
            gathered(results.take(i as int)) == Ok::<Seq<SignatureModel>, Failure>(
                signatures@.map_values(|value: FuncType| value@),
            ),
        decreases group.types@.len() - i,
    {
        let ghost before = signatures@.map_values(|value: FuncType| value@);
        proof {
            lemma_gathered_step(results, i as int);
            assert(group@[i as int] == group.types@[i as int]@);
        }
        match lower_type(&group.types[i]) {
            Ok(signature) => {
                signatures.push(signature);
                assert(signatures@.map_values(|value: FuncType| value@) =~= before.push(
                    signature@,
                ));
            },
            Err(error) => {
                return Err(error);
            },
        }
        i = i + 1;
    }
    assert(results.take(i as int) =~= results);
    Ok(signatures)
}

fn lower_group(group: &Result<TypeGroup, String>) -> (signatures: Result<Vec<FuncType>, Error>)
    ensures
        viewed(signatures) == group_signatures(
            match *group {
                Ok(group) => Ok(group@),
                Err(words) => Err(words@),
            },
        ),
{
    match group {
        Err(words) => Err(Error::Decode(words.clone())),
        Ok(group) => lower_group_types(group),
    }
}

/// Lowers a type section.
pub fn lower_types(groups: &Vec<Result<TypeGroup, String>>) -> (signatures: Result<
    Vec<FuncType>,
    Error,
>)
    ensures
        viewed(signatures) == section_types(stream(groups@)),
{
    let ghost items = stream(groups@);
    let ghost results = Seq::new(items.len(), |i: int| group_signatures(items[i]));
    let ghost mut lists: Seq<Seq<SignatureModel>> = Seq::empty();
    let mut signatures: Vec<FuncType> = Vec::new();
    let mut i: usize = 0;
    assert(results.take(0) =~= Seq::empty());
    assert(signatures@.map_values(|value: FuncType| value@) =~= Seq::empty());
    while i < groups.len()
        invariant
            i <= groups@.len(),
            items == stream(groups@),
            results == Seq::new(items.len(), |i: int| group_signatures(items[i])),
            gathered(results.take(i as int)) == Ok::<Seq<Seq<SignatureModel>>, Failure>(lists),
            signatures@.map_values(|value: FuncType| value@) == chained(lists),
        decreases groups@.len() - i,
    {
        let ghost before = signatures@.map_values(|value: FuncType| value@);
        proof {
            lemma_gathered_step(results, i as int);
        }
        match lower_group(&groups[i]) {
            Ok(mut more) => {
                let ghost list = more@.map_values(|value: FuncType| value@);
                signatures.append(&mut more);
                proof {
                    assert(signatures@.map_values(|value: FuncType| value@) =~= before + list);
                    assert(lists.push(list).drop_last() =~= lists);
                    lists = lists.push(list);
                }
            },
            Err(error) => {
                return Err(error);
            },
        }
        i = i + 1;
    }
    assert(results.take(i as int) =~= results);
    Ok(signatures)
}

// ---- memories ----

/// A page count cut to 32 bits.
pub open spec fn page_ceiling(maximum: Option<u64>) -> Option<u32> {
    match maximum {
        Some(pages) => if pages > u32::MAX {
            Some(u32::MAX)
        } else {
            Some(pages as u32)
        },
        None => None,
    }
}

/// A memory type, whether it was declared or imported.
///
/// A shared memory is accepted rather than refused: it says the module was built
/// for threads, which is no reason not to read the code.
pub open spec fn memory_of(
    entry: MemoryEntry,
    imported: Option<(Seq<char>, Seq<char>)>,
    location: Seq<char>,
) -> Result<MemoryModel, Failure> {
    if entry.memory64 {
        Err(Failure::Unsupported("64-bit memory"@, location))
    } else if entry.initial > u32::MAX {
        Err(Failure::Invalid("memory minimum overflows u32"@, location))
    } else {
        Ok(
            MemoryModel {
                min_pages: entry.initial as u32,
                max_pages: page_ceiling(entry.maximum),
                shared: entry.shared,
                imported,
            },
        )
    }
}

/// Lowers a memory type.
pub fn lower_memory_type(
    entry: &MemoryEntry,
    imported: Option<(String, String)>,
    location: &str,
) -> (memory: Result<MemoryDef, Error>)
    ensures
        modelled(memory) == memory_of(
            *entry,
            match imported {
                Some((module, field)) => Some((module@, field@)),
                None => None,
            },
            location@,
        ),
{
    if entry.memory64 {
        return Err(Error::unsupported("64-bit memory", location));
    }
    if entry.initial > u32::MAX as u64 {
        return Err(Error::invalid("memory minimum overflows u32", location));
    }
    let max_pages: Option<u32> = match entry.maximum {
        Some(pages) => if pages > u32::MAX as u64 {
            Some(u32::MAX)
        } else {
            Some(pages as u32)
        },
        None => None,
    };
    Ok(MemoryDef { min_pages: entry.initial as u32, max_pages, shared: entry.shared, imported })
}

/// The memory after a memory section, of which a module may have one.
pub open spec fn section_memory(
    entries: Seq<Result<MemoryEntry, Seq<char>>>,
    memory: Option<MemoryModel>,
) -> Result<Option<MemoryModel>, Failure>
    decreases entries.len(),
{
    if entries.len() == 0 {
        Ok(memory)
    } else {
        match section_memory(entries.drop_last(), memory) {
            Err(failure) => Err(failure),
            Ok(so_far) => match entries.last() {
                Err(words) => Err(Failure::Decode(words)),
                Ok(entry) => if so_far is Some {
                    Err(Failure::Unsupported("multiple memories"@, "memory section"@))
                } else {
                    match memory_of(entry, None, "memory section"@) {
                        Err(failure) => Err(failure),
                        Ok(memory) => Ok(Some(memory)),
                    }
                },
            },
        }
    }
}

/// Once a memory section has failed, what follows does not change how.
proof fn lemma_memory_fails(
    entries: Seq<Result<MemoryEntry, Seq<char>>>,
    memory: Option<MemoryModel>,
    n: int,
)
    requires
        0 <= n <= entries.len(),
        section_memory(entries.take(n), memory) is Err,
    ensures
        section_memory(entries, memory) == section_memory(entries.take(n), memory),
    decreases entries.len() - n,
{
    if n == entries.len() {
        assert(entries.take(n) =~= entries);
    } else {
        assert(entries.take(n + 1).drop_last() =~= entries.take(n));
        lemma_memory_fails(entries, memory, n + 1);
    }
}

/// A memory, if there is one, as its model.
pub open spec fn memory_view(memory: Option<MemoryDef>) -> Option<MemoryModel> {
    match memory {
        Some(memory) => Some(memory@),
        None => None,
    }
}

/// Lowers a memory section.
pub fn lower_memories(
    entries: &Vec<Result<MemoryEntry, String>>,
    already: Option<MemoryDef>,
) -> (memory: Result<Option<MemoryDef>, Error>)
    ensures
        match memory {
            Ok(memory) => section_memory(stream(entries@), memory_view(already)) == Ok::<
                Option<MemoryModel>,
                Failure,
            >(memory_view(memory)),
            Err(error) => section_memory(stream(entries@), memory_view(already)) == Err::<
                Option<MemoryModel>,
                Failure,
            >(error@),
        },
{
    let ghost first = memory_view(already);
    let ghost items = stream(entries@);
    let mut memory: Option<MemoryDef> = already;
    let mut i: usize = 0;
    assert(items.take(0) =~= Seq::empty());
    while i < entries.len()
        invariant
            i <= entries@.len(),
            items == stream(entries@),
            first == memory_view(already),
            section_memory(items.take(i as int), first) == Ok::<Option<MemoryModel>, Failure>(
                memory_view(memory),
            ),
        decreases entries@.len() - i,
    {
        proof {
            assert(items.take(i + 1).drop_last() =~= items.take(i as int));
            assert(items.take(i + 1).last() == items[i as int]);
            if section_memory(items.take(i + 1), first) is Err {
                lemma_memory_fails(items, first, i + 1);
            }
        }
        match &entries[i] {
            Err(words) => {
                return Err(Error::Decode(words.clone()));
            },
            Ok(entry) => {
                if memory.is_some() {
                    return Err(Error::unsupported("multiple memories", "memory section"));
                }
                match lower_memory_type(entry, None, "memory section") {
                    Ok(lowered) => {
                        memory = Some(lowered);
                    },
                    Err(error) => {
                        return Err(error);
                    },
                }
            },
        }
        i = i + 1;
    }
    assert(items.take(i as int) =~= items);
    Ok(memory)
}

// ---- imports ----

/// Where an import is.
pub open spec fn import_location(module: Seq<char>, name: Seq<char>) -> Seq<char> {
    "import "@ + module + "::"@ + name
}

/// The imported functions and the memory after an import section.
pub open spec fn section_imports(
    entries: Seq<Result<(Seq<char>, Seq<char>, ImportModel), Seq<char>>>,
    memory: Option<MemoryModel>,
) -> Result<(Seq<ImportedModel>, Option<MemoryModel>), Failure>
    decreases entries.len(),
{
    if entries.len() == 0 {
        Ok((Seq::empty(), memory))
    } else {
        match section_imports(entries.drop_last(), memory) {
            Err(failure) => Err(failure),
            Ok((funcs, so_far)) => match entries.last() {
                Err(words) => Err(Failure::Decode(words)),
                Ok((module, name, ty)) => {
                    let location = import_location(module, name);
                    match ty {
                        ImportModel::Func(type_index) => Ok(
                            (funcs.push(ImportedModel { module, field: name, type_index }), so_far),
                        ),
                        ImportModel::Memory(entry) => if so_far is Some {
                            Err(Failure::Unsupported("multiple memories"@, location))
                        } else {
                            match memory_of(entry, Some((module, name)), location) {
                                Err(failure) => Err(failure),
                                Ok(memory) => Ok((funcs, Some(memory))),
                            }
                        },
                        ImportModel::Global => Err(
                            Failure::Unsupported("imported global"@, location),
                        ),
                        ImportModel::Table => Err(
                            Failure::Unsupported("imported table"@, location),
                        ),
                        ImportModel::Tag => Err(Failure::Unsupported("imported tag"@, location)),
                        ImportModel::Other(text) => Err(
                            Failure::Unsupported("import of "@ + text, location),
                        ),
                    }
                },
            },
        }
    }
}

/// Once an import section has failed, what follows does not change how.
proof fn lemma_imports_fail(
    entries: Seq<Result<(Seq<char>, Seq<char>, ImportModel), Seq<char>>>,
    memory: Option<MemoryModel>,
    n: int,
)
    requires
        0 <= n <= entries.len(),
        section_imports(entries.take(n), memory) is Err,
    ensures
        section_imports(entries, memory) == section_imports(entries.take(n), memory),
    decreases entries.len() - n,
{
    if n == entries.len() {
        assert(entries.take(n) =~= entries);
    } else {
        assert(entries.take(n + 1).drop_last() =~= entries.take(n));
        lemma_imports_fail(entries, memory, n + 1);
    }
}

/// Imported functions and a memory, as their models.
pub open spec fn imports_view(result: Result<(Vec<ImportedFunc>, Option<MemoryDef>), Error>) -> Result<
    (Seq<ImportedModel>, Option<MemoryModel>),
    Failure,
> {
    match result {
        Ok((funcs, memory)) => Ok(
            (funcs@.map_values(|func: ImportedFunc| func@), memory_view(memory)),
        ),
        Err(error) => Err(error@),
    }
}

/// Lowers an import section.
pub fn lower_imports(
    entries: &Vec<Result<(String, String, ImportEntry), String>>,
    already: Option<MemoryDef>,
) -> (result: Result<(Vec<ImportedFunc>, Option<MemoryDef>), Error>)
    ensures
        imports_view(result) == section_imports(stream(entries@), memory_view(already)),
{
    let ghost first = memory_view(already);
    let ghost items = stream(entries@);
    let mut memory: Option<MemoryDef> = already;
    let mut funcs: Vec<ImportedFunc> = Vec::new();
    let mut i: usize = 0;
    assert(items.take(0) =~= Seq::empty());
    assert(funcs@.map_values(|func: ImportedFunc| func@) =~= Seq::empty());
    while i < entries.len()
        invariant
            i <= entries@.len(),
            items == stream(entries@),
            first == memory_view(already),
            section_imports(items.take(i as int), first) == Ok::<
                (Seq<ImportedModel>, Option<MemoryModel>),
                Failure,
            >((funcs@.map_values(|func: ImportedFunc| func@), memory_view(memory))),
        decreases entries@.len() - i,
    {
        let ghost before = funcs@.map_values(|func: ImportedFunc| func@);
        proof {
            assert(items.take(i + 1).drop_last() =~= items.take(i as int));
            assert(items.take(i + 1).last() == items[i as int]);
            if section_imports(items.take(i + 1), first) is Err {
                lemma_imports_fail(items, first, i + 1);
            }
        }
        match &entries[i] {
            Err(words) => {
                return Err(Error::Decode(words.clone()));
            },
            Ok(entry) => {
                let mut location: String = "import ".to_owned();
                location.append(entry.0.as_str());
                location.append("::");
                location.append(entry.1.as_str());
                match &entry.2 {
                    ImportEntry::Func(type_index) => {
                        let func: ImportedFunc = ImportedFunc {
                            module: entry.0.clone(),
                            field: entry.1.clone(),
                            type_index: *type_index,
                        };
                        funcs.push(func);
                        assert(funcs@.map_values(|func: ImportedFunc| func@) =~= before.push(
                            func@,
                        ));
                    },
                    ImportEntry::Memory(ty) => {
                        if memory.is_some() {
                            return Err(Error::unsupported("multiple memories", location.as_str()));
                        }
                        let from: (String, String) = (entry.0.clone(), entry.1.clone());
                        match lower_memory_type(ty, Some(from), location.as_str()) {
                            Ok(lowered) => {
                                memory = Some(lowered);
                            },
                            Err(error) => {
                                return Err(error);
                            },
                        }
                    },
                    ImportEntry::Global => {
                        return Err(Error::unsupported("imported global", location.as_str()));
                    },
                    ImportEntry::Table => {
                        return Err(Error::unsupported("imported table", location.as_str()));
                    },
                    ImportEntry::Tag => {
                        return Err(Error::unsupported("imported tag", location.as_str()));
                    },
                    ImportEntry::Other(text) => {
                        let construct: String = concat("import of ", text.as_str());
                        return Err(Error::unsupported(construct.as_str(), location.as_str()));
                    },
                }
            },
        }
        i = i + 1;
    }
    assert(items.take(i as int) =~= items);
    Ok((funcs, memory))
}

// ---- functions ----

/// The indices of a list, or what the decoder could not read of it.
pub open spec fn index_list(entries: Seq<Result<u32, Seq<char>>>) -> Result<Seq<u32>, Failure> {
    gathered(Seq::new(entries.len(), |i: int| decoded(entries[i])))
}

/// Lowers a list of indices.
pub fn lower_indices(entries: &Vec<Result<u32, String>>) -> (indices: Result<Vec<u32>, Error>)
    ensures
        listed(indices) == index_list(stream(entries@)),
{
    let ghost items = stream(entries@);
    let ghost results = Seq::new(items.len(), |i: int| decoded(items[i]));
    let mut indices: Vec<u32> = Vec::new();
    let mut i: usize = 0;
    assert(results.take(0) =~= Seq::empty());
    while i < entries.len()
        invariant
            i <= entries@.len(),
            items == stream(entries@),
            results == Seq::new(items.len(), |i: int| decoded(items[i])),
            gathered(results.take(i as int)) == Ok::<Seq<u32>, Failure>(indices@),
        decreases entries@.len() - i,
    {
        proof {
            lemma_gathered_step(results, i as int);
        }
        match &entries[i] {
            Ok(index) => {
                indices.push(*index);
            },
            Err(words) => {
                return Err(Error::Decode(words.clone()));
            },
        }
        i = i + 1;
    }
    assert(results.take(i as int) =~= results);
    Ok(indices)
}

// ---- constant expressions ----

/// The value of a first operator that is a constant expression by itself.
pub open spec fn const_value(text: Seq<char>) -> Option<ConstExpr> {
    let words = words_of(text);
    let name = first_word(text);
    match constant(words, name) {
        Some(Op::I32Const(value)) => Some(ConstExpr::I32(value)),
        Some(Op::I64Const(value)) => Some(ConstExpr::I64(value)),
        Some(Op::F32Const(bits)) => Some(ConstExpr::F32(bits)),
        Some(Op::F64Const(bits)) => Some(ConstExpr::F64(bits)),
        _ => if name == "GlobalGet"@ {
            match index_of(words, "global_index"@) {
                Some(index) => Some(ConstExpr::GlobalGet(index)),
                None => None,
            }
        } else {
            None
        },
    }
}

/// The operator at a position, or how reading it fails.
pub open spec fn operator_at(expr: Seq<Result<Seq<char>, Seq<char>>>, at: int) -> Result<
    Seq<char>,
    Failure,
> {
    if at < expr.len() {
        decoded(expr[at])
    } else {
        Err(Failure::Decode("unexpected end of the expression"@))
    }
}

/// The value of a constant expression, which has to be one operator and its end.
///
/// Reading the first operator and stopping would turn
/// `(i32.const 1) (i32.const 2) i32.add` into 1: a plausible number, at the wrong
/// address, with nothing reported.
pub open spec fn const_expr(
    expr: Seq<Result<Seq<char>, Seq<char>>>,
    location: Seq<char>,
) -> Result<ConstExpr, Failure> {
    match operator_at(expr, 0) {
        Err(failure) => Err(failure),
        Ok(first) => match const_value(first) {
            None => Err(Failure::Unsupported(first + " in a constant expression"@, location)),
            Some(value) => match operator_at(expr, 1) {
                Err(failure) => Err(failure),
                Ok(second) => if first_word(second) == "End"@ {
                    Ok(value)
                } else {
                    Err(Failure::Unsupported(second + " in a constant expression"@, location))
                },
            },
        },
    }
}

fn read_operator(expr: &Expr, at: usize) -> (operator: Result<Operator, Error>)
    ensures
        match operator {
            Ok(operator) => operator_at(expr@, at as int) == Ok::<Seq<char>, Failure>(
                operator.text@,
            ),
            Err(error) => operator_at(expr@, at as int) == Err::<Seq<char>, Failure>(error@),
        },
{
    if at < expr.operators.len() {
        match &expr.operators[at] {
            Ok(text) => Ok(Operator { text: text.clone() }),
            Err(words) => Err(Error::Decode(words.clone())),
        }
    } else {
        Err(Error::Decode("unexpected end of the expression".to_owned()))
    }
}

fn read_const_value(operator: &Operator) -> (value: Option<ConstExpr>)
    ensures
        value == const_value(operator.text@),
{
    let words: Vec<Vec<char>> = operator.words();
    let name: Vec<char> = operator.name_chars();
    match read_constant(&words, &name) {
        Some(Op::I32Const(value)) => Some(ConstExpr::I32(value)),
        Some(Op::I64Const(value)) => Some(ConstExpr::I64(value)),
        Some(Op::F32Const(bits)) => Some(ConstExpr::F32(bits)),
        Some(Op::F64Const(bits)) => Some(ConstExpr::F64(bits)),
        _ => if crate::text::pieces::same_as(&name, "GlobalGet") {
            match read_index(&words, "global_index") {
                Some(index) => Some(ConstExpr::GlobalGet(index)),
                None => None,
            }
        } else {
            None
        },
    }
}

/// Lowers a constant expression.
pub fn lower_const_expr(expr: &Expr, location: &str) -> (value: Result<ConstExpr, Error>)
    ensures
        said(value) == const_expr(expr@, location@),
{
    let first: Operator = match read_operator(expr, 0) {
        Ok(first) => first,
        Err(error) => {
            return Err(error);
        },
    };
    match read_const_value(&first) {
        None => {
            let construct: String = concat(first.text.as_str(), " in a constant expression");
            Err(Error::unsupported(construct.as_str(), location))
        },
        Some(value) => match read_operator(expr, 1) {
            Err(error) => Err(error),
            Ok(second) => if crate::text::pieces::same_as(&second.name_chars(), "End") {
                Ok(value)
            } else {
                let construct: String = concat(second.text.as_str(), " in a constant expression");
                Err(Error::unsupported(construct.as_str(), location))
            },
        },
    }
}

/// The function an element's expression refers to: `ref.func` says the same thing
/// as a bare index, and anything else names a value the table cannot hold.
pub open spec fn ref_func(
    expr: Seq<Result<Seq<char>, Seq<char>>>,
    location: Seq<char>,
) -> Result<u32, Failure> {
    match operator_at(expr, 0) {
        Err(failure) => Err(failure),
        Ok(first) => match index_of(words_of(first), "function_index"@) {
            Some(index) => if first_word(first) == "RefFunc"@ {
                Ok(index)
            } else {
                Err(Failure::Unsupported(first + " in an element segment"@, location))
            },
            None => Err(Failure::Unsupported(first + " in an element segment"@, location)),
        },
    }
}

/// Lowers an element's expression.
pub fn lower_ref_func(expr: &Expr, location: &str) -> (func: Result<u32, Error>)
    ensures
        said(func) == ref_func(expr@, location@),
{
    let first: Operator = match read_operator(expr, 0) {
        Ok(first) => first,
        Err(error) => {
            return Err(error);
        },
    };
    match read_index(&first.words(), "function_index") {
        Some(index) => {
            if crate::text::pieces::same_as(&first.name_chars(), "RefFunc") {
                return Ok(index);
            }
        },
        None => {},
    }
    let construct: String = concat(first.text.as_str(), " in an element segment");
    Err(Error::unsupported(construct.as_str(), location))
}

// ---- globals ----

/// A global.
pub open spec fn global_of(
    entry: Result<(Seq<char>, bool, Seq<Result<Seq<char>, Seq<char>>>), Seq<char>>,
    index: int,
) -> Result<GlobalDef, Failure> {
    match entry {
        Err(words) => Err(Failure::Decode(words)),
        Ok((ty, mutable, init)) => {
            let location = numbered("global #"@, index as nat);
            match val_type(ty, location) {
                Err(failure) => Err(failure),
                Ok(ty) => match const_expr(init, location) {
                    Err(failure) => Err(failure),
                    Ok(init) => Ok(GlobalDef { ty, mutable, init }),
                },
            }
        },
    }
}

/// The globals of a global section.
pub open spec fn section_globals(
    entries: Seq<Result<(Seq<char>, bool, Seq<Result<Seq<char>, Seq<char>>>), Seq<char>>>,
) -> Result<Seq<GlobalDef>, Failure> {
    gathered(Seq::new(entries.len(), |i: int| global_of(entries[i], i)))
}

/// Lowers a global section.
pub fn lower_globals(entries: &Vec<Result<GlobalEntry, String>>) -> (globals: Result<
    Vec<GlobalDef>,
    Error,
>)
    ensures
        listed(globals) == section_globals(stream(entries@)),
{
    let ghost items = stream(entries@);
    let ghost results = Seq::new(items.len(), |i: int| global_of(items[i], i));
    let mut globals: Vec<GlobalDef> = Vec::new();
    let mut i: usize = 0;
    assert(results.take(0) =~= Seq::empty());
    while i < entries.len()
        invariant
            i <= entries@.len(),
            items == stream(entries@),
            results == Seq::new(items.len(), |i: int| global_of(items[i], i)),
            gathered(results.take(i as int)) == Ok::<Seq<GlobalDef>, Failure>(globals@),
        decreases entries@.len() - i,
    {
        proof {
            lemma_gathered_step(results, i as int);
        }
        match &entries[i] {
            Err(words) => {
                return Err(Error::Decode(words.clone()));
            },
            Ok(entry) => {
                let location: String = number_after("global #", i);
                let ty: ValType = match lower_val_type(
                    &chars_of(entry.ty.as_str()),
                    location.as_str(),
                ) {
                    Ok(ty) => ty,
                    Err(error) => {
                        return Err(error);
                    },
                };
                match lower_const_expr(&entry.init, location.as_str()) {
                    Ok(init) => {
                        globals.push(GlobalDef { ty, mutable: entry.mutable, init });
                    },
                    Err(error) => {
                        return Err(error);
                    },
                }
            },
        }
        i = i + 1;
    }
    assert(results.take(i as int) =~= results);
    Ok(globals)
}

// ---- exports ----

/// An export.
pub open spec fn export_of(entry: Result<(Seq<char>, Seq<char>, u32), Seq<char>>) -> Result<
    ExportModel,
    Failure,
> {
    match entry {
        Err(words) => Err(Failure::Decode(words)),
        Ok((name, kind, index)) => if kind == "Func"@ {
            Ok(ExportModel { name, kind: ExportKind::Func, index })
        } else if kind == "Memory"@ {
            Ok(ExportModel { name, kind: ExportKind::Memory, index })
        } else if kind == "Global"@ {
            Ok(ExportModel { name, kind: ExportKind::Global, index })
        } else if kind == "Table"@ {
            Ok(ExportModel { name, kind: ExportKind::Table, index })
        } else if kind == "Tag"@ {
            Err(Failure::Unsupported("exported tag"@, "export "@ + name))
        } else {
            Err(Failure::Unsupported("export of "@ + kind, "export "@ + name))
        },
    }
}

/// The exports of an export section.
pub open spec fn section_exports(
    entries: Seq<Result<(Seq<char>, Seq<char>, u32), Seq<char>>>,
) -> Result<Seq<ExportModel>, Failure> {
    gathered(Seq::new(entries.len(), |i: int| export_of(entries[i])))
}

fn lower_export(entry: &Result<(String, String, u32), String>) -> (export: Result<Export, Error>)
    ensures
        modelled(export) == export_of(
            match *entry {
                Ok(entry) => Ok((entry.0@, entry.1@, entry.2)),
                Err(words) => Err(words@),
            },
        ),
{
    match entry {
        Err(words) => Err(Error::Decode(words.clone())),
        Ok(entry) => {
            let kind: ExportKind = if same_text(entry.1.as_str(), "Func") {
                ExportKind::Func
            } else if same_text(entry.1.as_str(), "Memory") {
                ExportKind::Memory
            } else if same_text(entry.1.as_str(), "Global") {
                ExportKind::Global
            } else if same_text(entry.1.as_str(), "Table") {
                ExportKind::Table
            } else if same_text(entry.1.as_str(), "Tag") {
                let location: String = concat("export ", entry.0.as_str());
                return Err(Error::unsupported("exported tag", location.as_str()));
            } else {
                let construct: String = concat("export of ", entry.1.as_str());
                let location: String = concat("export ", entry.0.as_str());
                return Err(Error::unsupported(construct.as_str(), location.as_str()));
            };
            Ok(Export { name: entry.0.clone(), kind, index: entry.2 })
        },
    }
}

/// Lowers an export section.
pub fn lower_exports(entries: &Vec<Result<(String, String, u32), String>>) -> (exports: Result<
    Vec<Export>,
    Error,
>)
    ensures
        viewed(exports) == section_exports(stream(entries@)),
{
    let ghost items = stream(entries@);
    let ghost results = Seq::new(items.len(), |i: int| export_of(items[i]));
    let mut exports: Vec<Export> = Vec::new();
    let mut i: usize = 0;
    assert(results.take(0) =~= Seq::empty());
    assert(exports@.map_values(|value: Export| value@) =~= Seq::empty());
    while i < entries.len()
        invariant
            i <= entries@.len(),
            items == stream(entries@),
            results == Seq::new(items.len(), |i: int| export_of(items[i])),
            gathered(results.take(i as int)) == Ok::<Seq<ExportModel>, Failure>(
                exports@.map_values(|value: Export| value@),
            ),
        decreases entries@.len() - i,
    {
        let ghost before = exports@.map_values(|value: Export| value@);
        proof {
            lemma_gathered_step(results, i as int);
        }
        match lower_export(&entries[i]) {
            Ok(export) => {
                exports.push(export);
                assert(exports@.map_values(|value: Export| value@) =~= before.push(export@));
            },
            Err(error) => {
                return Err(error);
            },
        }
        i = i + 1;
    }
    assert(results.take(i as int) =~= results);
    Ok(exports)
}

// ---- data ----

/// Where the bytes of a segment start in the file: at the tail of its record.
pub open spec fn segment_start(end: usize, len: nat) -> u32 {
    if len <= end && end - len <= u32::MAX {
        (end - len) as u32
    } else {
        0
    }
}

/// A data segment.
pub open spec fn segment_of(entry: Result<DataModel, Seq<char>>, index: int) -> Result<
    SegmentModel,
    Failure,
> {
    match entry {
        Err(words) => Err(Failure::Decode(words)),
        Ok(data) => {
            let location = numbered("data segment #"@, index as nat);
            let file_offset = segment_start(data.end, data.bytes.len());
            match data.active {
                None => Ok(SegmentModel { offset: None, bytes: data.bytes, file_offset }),
                Some((memory, offset)) => if memory != 0 {
                    Err(Failure::Unsupported("multiple memories"@, location))
                } else {
                    match const_expr(offset, location) {
                        Err(failure) => Err(failure),
                        Ok(offset) => Ok(
                            SegmentModel { offset: Some(offset), bytes: data.bytes, file_offset },
                        ),
                    }
                },
            }
        },
    }
}

/// The segments of a data section.
pub open spec fn section_data(entries: Seq<Result<DataModel, Seq<char>>>) -> Result<
    Seq<SegmentModel>,
    Failure,
> {
    gathered(Seq::new(entries.len(), |i: int| segment_of(entries[i], i)))
}

fn lower_segment(entry: &DataEntry, index: usize) -> (segment: Result<DataSegment, Error>)
    ensures
        modelled(segment) == segment_of(Ok(entry@), index as int),
{
    let location: String = number_after("data segment #", index);
    let offset: Option<ConstExpr> = match &entry.active {
        None => None,
        Some(active) => {
            if active.0 != 0 {
                return Err(Error::unsupported("multiple memories", location.as_str()));
            }
            match lower_const_expr(&active.1, location.as_str()) {
                Ok(offset) => Some(offset),
                Err(error) => {
                    return Err(error);
                },
            }
        },
    };
    let len: usize = entry.bytes.len();
    let file_offset: u32 = if len <= entry.end && entry.end - len <= u32::MAX as usize {
        (entry.end - len) as u32
    } else {
        0
    };
    let bytes: Vec<u8> = vstd::slice::slice_to_vec(entry.bytes.as_slice());
    Ok(DataSegment { offset, bytes, file_offset })
}

/// Lowers a data section.
pub fn lower_data(entries: &Vec<Result<DataEntry, String>>) -> (segments: Result<
    Vec<DataSegment>,
    Error,
>)
    ensures
        viewed(segments) == section_data(stream(entries@)),
{
    let ghost items = stream(entries@);
    let ghost results = Seq::new(items.len(), |i: int| segment_of(items[i], i));
    let mut segments: Vec<DataSegment> = Vec::new();
    let mut i: usize = 0;
    assert(results.take(0) =~= Seq::empty());
    assert(segments@.map_values(|value: DataSegment| value@) =~= Seq::empty());
    while i < entries.len()
        invariant
            i <= entries@.len(),
            items == stream(entries@),
            results == Seq::new(items.len(), |i: int| segment_of(items[i], i)),
            gathered(results.take(i as int)) == Ok::<Seq<SegmentModel>, Failure>(
                segments@.map_values(|value: DataSegment| value@),
            ),
        decreases entries@.len() - i,
    {
        let ghost before = segments@.map_values(|value: DataSegment| value@);
        proof {
            lemma_gathered_step(results, i as int);
        }
        match &entries[i] {
            Err(words) => {
                return Err(Error::Decode(words.clone()));
            },
            Ok(entry) => match lower_segment(entry, i) {
                Ok(segment) => {
                    segments.push(segment);
                    assert(segments@.map_values(|value: DataSegment| value@) =~= before.push(
                        segment@,
                    ));
                },
                Err(error) => {
                    return Err(error);
                },
            },
        }
        i = i + 1;
    }
    assert(results.take(i as int) =~= results);
    Ok(segments)
}

// ---- elements ----

/// The bytes between two offsets of the file, of a section that starts at `offset`,
/// or none where they do not lie in it.
pub open spec fn within(contents: Seq<u8>, offset: usize, range: (usize, usize)) -> Seq<u8> {
    if offset <= range.0 <= range.1 <= offset + contents.len() {
        contents.subrange(range.0 - offset, range.1 - offset)
    } else {
        Seq::empty()
    }
}

/// The bytes between two offsets of the file, of a section that starts at `offset`.
fn part_of<'a>(contents: &'a [u8], offset: usize, start: usize, end: usize) -> (part: &'a [u8])
    requires
        offset + contents@.len() <= usize::MAX,
    ensures
        part@ == within(contents@, offset, (start, end)),
        start + part@.len() <= usize::MAX,
{
    if offset <= start && start <= end && end <= offset + contents.len() {
        vstd::slice::slice_subrange(contents, start - offset, end - offset)
    } else {
        let part: &'a [u8] = vstd::slice::slice_subrange(contents, 0, 0);
        assert(part@ =~= Seq::empty());
        part
    }
}

/// An element segment, read where its parts stand.
pub open spec fn element_at(
    entry: Result<ElementRanges, Seq<char>>,
    contents: Seq<u8>,
    offset: usize,
) -> Result<(Option<Seq<Result<Seq<char>, Seq<char>>>>, ItemsModel), Seq<char>> {
    match entry {
        Err(words) => Err(words),
        Ok(ranges) => Ok(
            (
                match ranges.offset {
                    Some(range) => Some(
                        decode::const_operators_of(within(contents, offset, range), range.0),
                    ),
                    None => None,
                },
                if ranges.expressions {
                    ItemsModel::Expressions(
                        decode::element_expressions_of(
                            within(contents, offset, ranges.items),
                            ranges.items.0,
                        ),
                    )
                } else {
                    ItemsModel::Functions(
                        decode::element_functions_of(
                            within(contents, offset, ranges.items),
                            ranges.items.0,
                        ),
                    )
                },
            ),
        ),
    }
}

/// The element segments of a section, read where their parts stand.
pub open spec fn elements_at(contents: Seq<u8>, offset: usize) -> Seq<
    Result<(Option<Seq<Result<Seq<char>, Seq<char>>>>, ItemsModel), Seq<char>>,
> {
    decode::elements_of(contents, offset).map_values(
        |entry: Result<ElementRanges, Seq<char>>| element_at(entry, contents, offset),
    )
}

/// Reads an element segment where its parts stand.
fn read_element(place: &ElementPlace, contents: &[u8], offset: usize) -> (entry: ElementEntry)
    requires
        offset + contents@.len() <= usize::MAX,
    ensures
        element_at(Ok(place@), contents@, offset) == Ok::<
            (Option<Seq<Result<Seq<char>, Seq<char>>>>, ItemsModel),
            Seq<char>,
        >(entry@),
{
    let start: Option<Expr> = match &place.offset {
        Some(range) => Some(
            decode::const_operators(
                part_of(contents, offset, range.start, range.end),
                range.start,
            ),
        ),
        None => None,
    };
    let items: ElementItems = match &place.items {
        ItemsPlace::Functions(range) => ElementItems::Functions(
            decode::element_functions(
                part_of(contents, offset, range.start, range.end),
                range.start,
            ),
        ),
        ItemsPlace::Expressions(range) => ElementItems::Expressions(
            decode::element_expressions(
                part_of(contents, offset, range.start, range.end),
                range.start,
            ),
        ),
    };
    ElementEntry { offset: start, items }
}

/// Reads the element segments of a section.
pub fn read_elements(contents: &[u8], offset: usize) -> (entries: Vec<Result<ElementEntry, String>>)
    requires
        offset + contents@.len() <= usize::MAX,
    ensures
        stream(entries@) == elements_at(contents@, offset),
{
    let places: Vec<Result<ElementPlace, String>> = decode::elements(contents, offset);
    let ghost whole = elements_at(contents@, offset);
    let mut entries: Vec<Result<ElementEntry, String>> = Vec::new();
    let mut i: usize = 0;
    assert(stream(entries@) =~= whole.take(0));
    while i < places.len()
        invariant
            offset + contents@.len() <= usize::MAX,
            i <= places@.len(),
            stream(places@) == decode::elements_of(contents@, offset),
            whole == elements_at(contents@, offset),
            stream(entries@) == whole.take(i as int),
        decreases places@.len() - i,
    {
        let ghost before = stream(entries@);
        assert(stream(places@)[i as int] == decode::elements_of(contents@, offset)[i as int]);
        match &places[i] {
            Ok(place) => {
                let entry: ElementEntry = read_element(place, contents, offset);
                entries.push(Ok(entry));
                assert(stream(entries@) =~= before.push(Ok(entry@)));
            },
            Err(words) => {
                entries.push(Err(words.clone()));
                assert(stream(entries@) =~= before.push(Err(words@)));
            },
        }
        i = i + 1;
        assert(stream(entries@) =~= whole.take(i as int));
    }
    assert(stream(entries@) =~= whole);
    entries
}

/// The functions an element segment lists.
pub open spec fn element_funcs(items: ItemsModel, location: Seq<char>) -> Result<
    Seq<u32>,
    Failure,
> {
    match items {
        ItemsModel::Functions(items) => index_list(items),
        ItemsModel::Expressions(items) => gathered(
            Seq::new(items.len(), |i: int| listed_func(items[i], location)),
        ),
    }
}

/// An element segment.
pub open spec fn element_of(
    entry: Result<(Option<Seq<Result<Seq<char>, Seq<char>>>>, ItemsModel), Seq<char>>,
    index: int,
) -> Result<ElemModel, Failure> {
    match entry {
        Err(words) => Err(Failure::Decode(words)),
        Ok((offset, items)) => {
            let location = numbered("element segment #"@, index as nat);
            match offset {
                None => match element_funcs(items, location) {
                    Err(failure) => Err(failure),
                    Ok(funcs) => Ok(ElemModel { offset: None, funcs }),
                },
                Some(expr) => match const_expr(expr, location) {
                    Err(failure) => Err(failure),
                    Ok(offset) => match element_funcs(items, location) {
                        Err(failure) => Err(failure),
                        Ok(funcs) => Ok(ElemModel { offset: Some(offset), funcs }),
                    },
                },
            }
        },
    }
}

/// The segments of an element section.
pub open spec fn section_elements(
    entries: Seq<Result<(Option<Seq<Result<Seq<char>, Seq<char>>>>, ItemsModel), Seq<char>>>,
) -> Result<Seq<ElemModel>, Failure> {
    gathered(Seq::new(entries.len(), |i: int| element_of(entries[i], i)))
}

/// The function an entry of an expression list refers to.
pub open spec fn listed_func(
    entry: Result<Seq<Result<Seq<char>, Seq<char>>>, Seq<char>>,
    location: Seq<char>,
) -> Result<u32, Failure> {
    match entry {
        Err(words) => Err(Failure::Decode(words)),
        Ok(expr) => ref_func(expr, location),
    }
}

fn lower_expressions(exprs: &Vec<Result<Expr, String>>, location: &str) -> (funcs: Result<
    Vec<u32>,
    Error,
>)
    ensures
        listed(funcs) == gathered(
            Seq::new(
                stream(exprs@).len(),
                |i: int| listed_func(stream(exprs@)[i], location@),
            ),
        ),
{
    let ghost entries = stream(exprs@);
    let ghost results = Seq::new(entries.len(), |i: int| listed_func(entries[i], location@));
    let mut funcs: Vec<u32> = Vec::new();
    let mut i: usize = 0;
    assert(results.take(0) =~= Seq::empty());
    while i < exprs.len()
        invariant
            i <= exprs@.len(),
            entries == stream(exprs@),
            results == Seq::new(entries.len(), |i: int| listed_func(entries[i], location@)),
            gathered(results.take(i as int)) == Ok::<Seq<u32>, Failure>(funcs@),
        decreases exprs@.len() - i,
    {
        proof {
            lemma_gathered_step(results, i as int);
        }
        match &exprs[i] {
            Err(words) => {
                return Err(Error::Decode(words.clone()));
            },
            Ok(expr) => match lower_ref_func(expr, location) {
                Ok(func) => {
                    funcs.push(func);
                },
                Err(error) => {
                    return Err(error);
                },
            },
        }
        i = i + 1;
    }
    assert(results.take(i as int) =~= results);
    Ok(funcs)
}

fn lower_items(items: &ElementItems, location: &str) -> (funcs: Result<Vec<u32>, Error>)
    ensures
        listed(funcs) == element_funcs(items@, location@),
{
    match items {
        ElementItems::Functions(indices) => lower_indices(indices),
        ElementItems::Expressions(exprs) => lower_expressions(exprs, location),
    }
}

fn lower_element(entry: &ElementEntry, index: usize) -> (segment: Result<ElemSegment, Error>)
    ensures
        modelled(segment) == element_of(Ok(entry@), index as int),
{
    let location: String = number_after("element segment #", index);
    let offset: Option<ConstExpr> = match &entry.offset {
        None => None,
        Some(expr) => match lower_const_expr(expr, location.as_str()) {
            Ok(offset) => Some(offset),
            Err(error) => {
                return Err(error);
            },
        },
    };
    match lower_items(&entry.items, location.as_str()) {
        Ok(funcs) => Ok(ElemSegment { offset, funcs }),
        Err(error) => Err(error),
    }
}

/// Lowers an element section.
pub fn lower_elements(entries: &Vec<Result<ElementEntry, String>>) -> (segments: Result<
    Vec<ElemSegment>,
    Error,
>)
    ensures
        viewed(segments) == section_elements(stream(entries@)),
{
    let ghost items = stream(entries@);
    let ghost results = Seq::new(items.len(), |i: int| element_of(items[i], i));
    let mut segments: Vec<ElemSegment> = Vec::new();
    let mut i: usize = 0;
    assert(results.take(0) =~= Seq::empty());
    assert(segments@.map_values(|value: ElemSegment| value@) =~= Seq::empty());
    while i < entries.len()
        invariant
            i <= entries@.len(),
            items == stream(entries@),
            results == Seq::new(items.len(), |i: int| element_of(items[i], i)),
            gathered(results.take(i as int)) == Ok::<Seq<ElemModel>, Failure>(
                segments@.map_values(|value: ElemSegment| value@),
            ),
        decreases entries@.len() - i,
    {
        let ghost before = segments@.map_values(|value: ElemSegment| value@);
        proof {
            lemma_gathered_step(results, i as int);
        }
        match &entries[i] {
            Err(words) => {
                return Err(Error::Decode(words.clone()));
            },
            Ok(entry) => match lower_element(entry, i) {
                Ok(segment) => {
                    segments.push(segment);
                    assert(segments@.map_values(|value: ElemSegment| value@) =~= before.push(
                        segment@,
                    ));
                },
                Err(error) => {
                    return Err(error);
                },
            },
        }
        i = i + 1;
    }
    assert(results.take(i as int) =~= results);
    Ok(segments)
}

// ---- bodies ----

/// The locals a body declares, flattened from their runs.
pub open spec fn body_locals(
    runs: Seq<Result<(u32, Seq<char>), Seq<char>>>,
    location: Seq<char>,
) -> Result<Seq<ValType>, Failure>
    decreases runs.len(),
{
    if runs.len() == 0 {
        Ok(Seq::empty())
    } else {
        match body_locals(runs.drop_last(), location) {
            Err(failure) => Err(failure),
            Ok(locals) => match runs.last() {
                Err(words) => Err(Failure::Decode(words)),
                Ok((count, ty)) => match val_type(ty, location) {
                    Err(failure) => Err(failure),
                    Ok(ty) => Ok(locals + Seq::new(count as nat, |i: int| ty)),
                },
            },
        }
    }
}

/// Once the locals have failed, what follows does not change how.
proof fn lemma_locals_fail(
    runs: Seq<Result<(u32, Seq<char>), Seq<char>>>,
    location: Seq<char>,
    n: int,
)
    requires
        0 <= n <= runs.len(),
        body_locals(runs.take(n), location) is Err,
    ensures
        body_locals(runs, location) == body_locals(runs.take(n), location),
    decreases runs.len() - n,
{
    if n == runs.len() {
        assert(runs.take(n) =~= runs);
    } else {
        assert(runs.take(n + 1).drop_last() =~= runs.take(n));
        lemma_locals_fail(runs, location, n + 1);
    }
}

fn lower_locals(runs: &Vec<Result<(u32, String), String>>, location: &str) -> (locals: Result<
    Vec<ValType>,
    Error,
>)
    ensures
        listed(locals) == body_locals(stream(runs@), location@),
{
    let ghost items = stream(runs@);
    let mut locals: Vec<ValType> = Vec::new();
    let mut i: usize = 0;
    assert(items.take(0) =~= Seq::empty());
    while i < runs.len()
        invariant
            i <= runs@.len(),
            items == stream(runs@),
            body_locals(items.take(i as int), location@) == Ok::<Seq<ValType>, Failure>(locals@),
        decreases runs@.len() - i,
    {
        proof {
            assert(items.take(i + 1).drop_last() =~= items.take(i as int));
            assert(items.take(i + 1).last() == items[i as int]);
            if body_locals(items.take(i + 1), location@) is Err {
                lemma_locals_fail(items, location@, i + 1);
            }
        }
        match &runs[i] {
            Err(words) => {
                return Err(Error::Decode(words.clone()));
            },
            Ok(run) => match lower_val_type(&chars_of(run.1.as_str()), location) {
                Ok(ty) => {
                    let ghost before = locals@;
                    let mut n: u32 = 0;
                    assert(before + Seq::new(0, |i: int| ty) =~= before);
                    while n < run.0
                        invariant
                            n <= run.0,
                            locals@ == before + Seq::new(n as nat, |i: int| ty),
                        decreases run.0 - n,
                    {
                        locals.push(ty);
                        n = n + 1;
                        assert(locals@ =~= before + Seq::new(n as nat, |i: int| ty));
                    }
                },
                Err(error) => {
                    return Err(error);
                },
            },
        }
        i = i + 1;
    }
    assert(items.take(i as int) =~= items);
    Ok(locals)
}

/// An operator of a body, lowered.
pub open spec fn body_op(entry: Result<(Seq<char>, usize), Seq<char>>, location: Seq<char>) -> Result<
    Instruction,
    Failure,
> {
    match entry {
        Err(words) => Err(Failure::Decode(words)),
        Ok((text, at)) => lowered_operator(text, location),
    }
}

/// Where each operator sits: it starts where it stands, and ends where the next
/// begins or the body ends.
pub open spec fn body_offsets(
    operators: Seq<Result<(Seq<char>, usize), Seq<char>>>,
    end: usize,
) -> Seq<(u32, u32)> {
    Seq::new(
        operators.len(),
        |i: int|
            {
                let start = (operators[i]->Ok_0).1 as u32;
                let stop = if i + 1 < operators.len() {
                    (operators[i + 1]->Ok_0).1 as u32
                } else {
                    end as u32
                };
                (start, stop.saturating_sub(start))
            },
    )
}

/// The function a body becomes. Its closing `end` is dropped: the function's own
/// return stands for it.
pub open spec fn function_of(
    runs: Seq<Result<(u32, Seq<char>), Seq<char>>>,
    operators: Seq<Result<(Seq<char>, usize), Seq<char>>>,
    end: usize,
    type_index: u32,
    index: int,
) -> Result<FuncModel, Failure> {
    let location = numbered("function #"@, index as nat);
    match body_locals(runs, location) {
        Err(failure) => Err(failure),
        Ok(locals) => match gathered(
            Seq::new(operators.len(), |i: int| body_op(operators[i], location)),
        ) {
            Err(failure) => Err(failure),
            Ok(body) => {
                let offsets = body_offsets(operators, end);
                if body.len() > 0 && body.last() == Instruction::Plain(Op::End) {
                    Ok(
                        FuncModel {
                            type_index,
                            locals,
                            body: body.drop_last(),
                            offsets: offsets.drop_last(),
                        },
                    )
                } else {
                    Ok(FuncModel { type_index, locals, body, offsets })
                }
            },
        },
    }
}

fn lower_ops(operators: &Vec<Result<(String, usize), String>>, location: &str) -> (ops: Result<
    Vec<Op>,
    Error,
>)
    ensures
        viewed(ops) == gathered(
            Seq::new(
                operators@.len(),
                |i: int| body_op(stream(operators@)[i], location@),
            ),
        ),
        ops is Ok ==> forall|i: int| 0 <= i < operators@.len() ==> operators@[i] is Ok,
{
    let ghost items = stream(operators@);
    let ghost results = Seq::new(
        operators@.len(),
        |i: int| body_op(stream(operators@)[i], location@),
    );
    let mut ops: Vec<Op> = Vec::new();
    let mut i: usize = 0;
    assert(results.take(0) =~= Seq::empty());
    assert(ops@.map_values(|value: Op| value@) =~= Seq::empty());
    while i < operators.len()
        invariant
            i <= operators@.len(),
            items == stream(operators@),
            results == Seq::new(
                operators@.len(),
                |i: int| body_op(stream(operators@)[i], location@),
            ),
            gathered(results.take(i as int)) == Ok::<Seq<Instruction>, Failure>(
                ops@.map_values(|value: Op| value@),
            ),
            forall|j: int| 0 <= j < i ==> operators@[j] is Ok,
        decreases operators@.len() - i,
    {
        let ghost before = ops@.map_values(|value: Op| value@);
        proof {
            lemma_gathered_step(results, i as int);
            assert(items[i as int] == match operators@[i as int] {
                Ok(entry) => Ok((entry.0@, entry.1)),
                Err(words) => Err(words@),
            });
        }
        match &operators[i] {
            Err(words) => {
                return Err(Error::Decode(words.clone()));
            },
            Ok(entry) => {
                let operator: Operator = Operator { text: entry.0.clone() };
                match lower_op(&operator, location) {
                    Ok(op) => {
                        ops.push(op);
                        assert(ops@.map_values(|value: Op| value@) =~= before.push(op@));
                    },
                    Err(error) => {
                        return Err(error);
                    },
                }
            },
        }
        i = i + 1;
    }
    assert(results.take(i as int) =~= results);
    Ok(ops)
}

fn lower_offsets(operators: &Vec<Result<(String, usize), String>>, end: usize) -> (offsets: Vec<
    (u32, u32),
>)
    requires
        forall|i: int| 0 <= i < operators@.len() ==> operators@[i] is Ok,
    ensures
        offsets@ == body_offsets(stream(operators@), end),
{
    let ghost all = body_offsets(stream(operators@), end);
    let mut offsets: Vec<(u32, u32)> = Vec::new();
    let mut i: usize = 0;
    while i < operators.len()
        invariant
            i <= operators@.len(),
            all == body_offsets(stream(operators@), end),
            forall|i: int| 0 <= i < operators@.len() ==> operators@[i] is Ok,
            offsets@ == all.take(i as int),
        decreases operators@.len() - i,
    {
        let start: u32 = start_of(&operators[i]);
        let stop: u32 = if i + 1 < operators.len() {
            start_of(&operators[i + 1])
        } else {
            end as u32
        };
        offsets.push((start, stop.saturating_sub(start)));
        i = i + 1;
        assert(offsets@ =~= all.take(i as int));
    }
    assert(all.take(i as int) =~= all);
    offsets
}

fn start_of(entry: &Result<(String, usize), String>) -> (start: u32)
    requires
        *entry is Ok,
    ensures
        start == ((*entry)->Ok_0).1 as u32,
{
    match entry {
        Ok(entry) => entry.1 as u32,
        Err(_) => 0,
    }
}

fn ends(op: &Op) -> (yes: bool)
    ensures
        yes == (op@ == Instruction::Plain(Op::End)),
{
    match op {
        Op::End => true,
        _ => false,
    }
}

/// Lowers a function body.
pub fn lower_body(
    runs: &Vec<Result<(u32, String), String>>,
    operators: &Vec<Result<(String, usize), String>>,
    end: usize,
    type_index: u32,
    index: usize,
) -> (func: Result<Func, Error>)
    ensures
        modelled(func) == function_of(
            stream(runs@),
            stream(operators@),
            end,
            type_index,
            index as int,
        ),
{
    let location: String = number_after("function #", index);
    let locals: Vec<ValType> = match lower_locals(runs, location.as_str()) {
        Ok(locals) => locals,
        Err(error) => {
            return Err(error);
        },
    };
    proof {
        assert(Seq::new(
            stream(operators@).len(),
            |i: int| body_op(stream(operators@)[i], location@),
        ) =~= Seq::new(
            operators@.len(),
            |i: int| body_op(stream(operators@)[i], location@),
        ));
    }
    let mut body: Vec<Op> = match lower_ops(operators, location.as_str()) {
        Ok(body) => body,
        Err(error) => {
            return Err(error);
        },
    };
    let mut offsets: Vec<(u32, u32)> = lower_offsets(operators, end);
    let ghost whole = body@.map_values(|value: Op| value@);
    let ghost all = offsets@;
    assert(whole.len() == all.len()) by {
        lemma_gathered_len(
            Seq::new(operators@.len(), |i: int| body_op(stream(operators@)[i], location@)),
        );
    }
    let last: usize = body.len();
    if last > 0 && ends(&body[last - 1]) {
        assert(whole.last() == body@[last - 1]@);
        body.pop();
        offsets.pop();
        assert(body@.map_values(|op: Op| op@) =~= whole.drop_last());
        assert(offsets@ =~= all.drop_last());
    } else {
        assert(last > 0 ==> whole.last() == body@[last - 1]@);
        assert(body@.map_values(|op: Op| op@) =~= whole);
    }
    Ok(Func { type_index, locals, body, offsets })
}

/// As many values are gathered as there were results.
proof fn lemma_gathered_len<T>(results: Seq<Result<T, Failure>>)
    ensures
        gathered(results) is Ok ==> (gathered(results)->Ok_0).len() == results.len(),
    decreases results.len(),
{
    if results.len() > 0 {
        lemma_gathered_len(results.drop_last());
    }
}

// ---- names ----

/// The names a subsection contributes: all of them, or none where one of them
/// could not be read.
pub open spec fn readable(names: Seq<Result<(u32, Seq<char>), Seq<char>>>) -> Seq<(u32, Seq<char>)> {
    if forall|i: int| 0 <= i < names.len() ==> (#[trigger] names[i]) is Ok {
        names.map_values(|naming: Result<(u32, Seq<char>), Seq<char>>| naming->Ok_0)
    } else {
        Seq::empty()
    }
}

/// The names of a kind in a name section. A subsection that cannot be read
/// contributes nothing: names are a convenience, and inventing one is worse than
/// having none.
pub open spec fn section_names(
    subsections: Seq<Result<(NameKind, Seq<Result<(u32, Seq<char>), Seq<char>>>), Seq<char>>>,
    kind: NameKind,
) -> Seq<(u32, Seq<char>)>
    decreases subsections.len(),
{
    if subsections.len() == 0 {
        Seq::empty()
    } else {
        let so_far = section_names(subsections.drop_last(), kind);
        match subsections.last() {
            Ok((found, names)) => if found == kind {
                so_far + readable(names)
            } else {
                so_far
            },
            Err(_) => so_far,
        }
    }
}

/// The names a subsection contributes.
fn readable_names(names: &Vec<Result<(u32, String), String>>) -> (out: Vec<(u32, String)>)
    ensures
        crate::module::model::named(out@) == readable(stream(names@)),
{
    let ghost items = stream(names@);
    let mut out: Vec<(u32, String)> = Vec::new();
    let mut i: usize = 0;
    while i < names.len()
        invariant
            i <= names@.len(),
            items == stream(names@),
            out@.len() == i,
            forall|j: int|
                0 <= j < i ==> (#[trigger] items[j]) is Ok && items[j]->Ok_0 == (out@[j].0, out@[j].1@),
        decreases names@.len() - i,
    {
        match &names[i] {
            Ok(naming) => {
                let entry: (u32, String) = (naming.0, naming.1.clone());
                assert(items[i as int] is Ok);
                out.push(entry);
            },
            Err(_) => {
                assert(items[i as int] is Err);
                let none: Vec<(u32, String)> = Vec::new();
                assert(crate::module::model::named(none@) =~= Seq::empty());
                return none;
            },
        }
        i = i + 1;
    }
    assert(crate::module::model::named(out@) =~= readable(items));
    out
}

/// Reads the names of a kind out of a name section.
pub fn lower_names(subsections: &Vec<Result<NameEntry, String>>, kind: NameKind) -> (out: Vec<
    (u32, String),
>)
    ensures
        crate::module::model::named(out@) == section_names(stream(subsections@), kind),
{
    let ghost items = stream(subsections@);
    let mut out: Vec<(u32, String)> = Vec::new();
    let mut i: usize = 0;
    assert(items.take(0) =~= Seq::empty());
    assert(crate::module::model::named(out@) =~= Seq::empty());
    while i < subsections.len()
        invariant
            i <= subsections@.len(),
            items == stream(subsections@),
            crate::module::model::named(out@) == section_names(items.take(i as int), kind),
        decreases subsections@.len() - i,
    {
        let ghost before = crate::module::model::named(out@);
        proof {
            assert(items.take(i + 1).drop_last() =~= items.take(i as int));
            assert(items.take(i + 1).last() == items[i as int]);
        }
        match &subsections[i] {
            Ok(entry) => {
                if entry.kind == kind {
                    let mut more: Vec<(u32, String)> = readable_names(&entry.names);
                    let ghost added = crate::module::model::named(more@);
                    out.append(&mut more);
                    assert(crate::module::model::named(out@) =~= before + added);
                }
            },
            Err(_) => {},
        }
        i = i + 1;
    }
    assert(items.take(i as int) =~= items);
    out
}

} // verus!
