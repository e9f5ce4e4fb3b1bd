//! What the entries of each section become.

use vstd::prelude::*;
use crate::error::Failure;
use crate::module::assemble::{
    body_locals, body_offsets, chained, const_expr, element_funcs, export_of, function_of,
    global_of, group_signatures, index_list, numbered, readable, ref_func, section_data,
    section_elements, section_exports, section_globals, section_imports, section_memory,
    section_names, section_types, segment_of, signature_of, type_list,
};
use crate::module::laws::lemma_gathered_all;
use crate::module::lower::val_type;
use crate::module::model::{
    gathered, ElemModel, ExportModel, ImportedModel, MemoryModel, SegmentModel, SignatureModel,
};
use crate::module::operator::{first_word, immediate, words_of};
use crate::module::parse::{after_part, after_parts, after_section, module_of, Decoding};
use crate::module::types::{ConstExpr, ExportKind, GlobalDef, ValType};
use crate::module::wire::{
    DataModel, ImportModel, ItemsModel, MemoryEntry, NameKind, PartModel, TypeModel,
};

verus! {

// ---- imports ----

/// An entry of an import section: the module, the name, and what it is of.
pub type ImportItem = Result<(Seq<char>, Seq<char>, ImportModel), Seq<char>>;

/// Whether an entry is a memory.
pub open spec fn of_memory(entry: ImportItem) -> bool {
    entry is Ok && (entry->Ok_0).2 is Memory
}

/// How many entries of a list are functions.
pub open spec fn functions_among(entries: Seq<ImportItem>) -> nat {
    entries.filter(|entry: ImportItem| entry is Ok && (entry->Ok_0).2 is Func).len()
}

/// One more entry is one more function or none.
proof fn lemma_functions_among(entries: Seq<ImportItem>)
    requires
        entries.len() > 0,
    ensures
        functions_among(entries) == functions_among(entries.drop_last()) + if entries.last() is Ok
            && (entries.last()->Ok_0).2 is Func {
            1nat
        } else {
            0
        },
{
    reveal(Seq::filter);
}

/// The imported functions are the entries that are functions, in the order of the
/// section: the one with `k` functions before it is function `k`, from the module and
/// under the name and of the type that the entry gives.
pub proof fn imported_functions_keep_their_order(
    entries: Seq<ImportItem>,
    memory: Option<MemoryModel>,
    i: int,
)
    requires
        section_imports(entries, memory) is Ok,
        0 <= i < entries.len(),
    ensures
        ({
            let funcs = (section_imports(entries, memory)->Ok_0).0;
            &&& funcs.len() == functions_among(entries)
            &&& entries[i] is Ok
            &&& match (entries[i]->Ok_0).2 {
                ImportModel::Func(type_index) => {
                    let k = functions_among(entries.take(i));
                    &&& k < funcs.len()
                    &&& funcs[k as int].module == (entries[i]->Ok_0).0
                    &&& funcs[k as int].field == (entries[i]->Ok_0).1
                    &&& funcs[k as int].type_index == type_index
                },
                ImportModel::Memory(_) => true,
                _ => false,
            }
        }),
    decreases entries.len(),
{
    let less = entries.drop_last();
    lemma_functions_among(entries);
    if less.len() == 0 {
        reveal(Seq::filter);
        assert(section_imports(less, memory) == Ok::<
            (Seq<ImportedModel>, Option<MemoryModel>),
            Failure,
        >((Seq::empty(), memory)));
        assert(entries.take(0) =~= less);
    } else if i < less.len() {
        imported_functions_keep_their_order(less, memory, i);
        assert(less.take(i) =~= entries.take(i));
        assert(less[i] == entries[i]);
    } else {
        imported_functions_keep_their_order(less, memory, 0);
        assert(entries.take(i) =~= less);
    }
}

/// A later entry never gets a smaller function index than an earlier one.
pub proof fn a_later_import_has_a_larger_index(entries: Seq<ImportItem>, i: int, j: int)
    requires
        0 <= i < j < entries.len(),
        entries[i] is Ok,
        (entries[i]->Ok_0).2 is Func,
    ensures
        functions_among(entries.take(i)) < functions_among(entries.take(j)),
    decreases j - i,
{
    let before = entries.take(j);
    assert(before.drop_last() =~= entries.take(j - 1));
    lemma_functions_among(before);
    if j > i + 1 {
        a_later_import_has_a_larger_index(entries, i, j - 1);
    }
}

/// The memory after an import section is the one it imports, with the size, the ceiling
/// and the sharing that its entry gives, and there is one at most; without such an entry
/// it is what it was.
pub proof fn the_imported_memory_is_the_one_listed(
    entries: Seq<ImportItem>,
    memory: Option<MemoryModel>,
    i: int,
)
    requires
        section_imports(entries, memory) is Ok,
        0 <= i < entries.len(),
    ensures
        ({
            let after = (section_imports(entries, memory)->Ok_0).1;
            &&& match (entries[i]->Ok_0).2 {
                ImportModel::Memory(entry) => {
                    &&& memory is None
                    &&& !entry.memory64
                    &&& after is Some
                    &&& (after->0).min_pages as int == entry.initial as int
                    &&& (after->0).max_pages is Some == entry.maximum is Some
                    &&& entry.maximum is Some && entry.maximum->0 <= u32::MAX ==> (
                    after->0).max_pages->0 as int == entry.maximum->0 as int
                    &&& entry.maximum is Some && entry.maximum->0 > u32::MAX ==> (
                    after->0).max_pages->0 == u32::MAX
                    &&& (after->0).shared == entry.shared
                    &&& (after->0).imported == Some(((entries[i]->Ok_0).0, (entries[i]->Ok_0).1))
                    &&& forall|j: int|
                        0 <= j < entries.len() && j != i ==> !of_memory(#[trigger] entries[j])
                },
                _ => true,
            }
            &&& (forall|j: int|
                0 <= j < entries.len() ==> !of_memory(#[trigger] entries[j])) ==> after
                == memory
        }),
{
    lemma_one_memory(entries, memory);
    imported_functions_keep_their_order(entries, memory, i);
    assert((entries[i]->Ok_0).2 is Memory ==> of_memory(entries[i]));
}

/// What an import section does to the memory.
proof fn lemma_one_memory(entries: Seq<ImportItem>, memory: Option<MemoryModel>)
    requires
        section_imports(entries, memory) is Ok,
    ensures
        ({
            let after = (section_imports(entries, memory)->Ok_0).1;
            &&& memory is Some ==> after == memory && forall|j: int|
                0 <= j < entries.len() ==> !of_memory(#[trigger] entries[j])
            &&& (forall|j: int|
                0 <= j < entries.len() ==> !of_memory(#[trigger] entries[j])) ==> after
                == memory
            &&& forall|i: int|
                0 <= i < entries.len() && of_memory(#[trigger] entries[i]) ==> {
                    let entry = (entries[i]->Ok_0).2->Memory_0;
                    &&& memory is None
                    &&& !entry.memory64
                    &&& after is Some
                    &&& (after->0).min_pages as int == entry.initial as int
                    &&& (after->0).max_pages is Some == entry.maximum is Some
                    &&& entry.maximum is Some && entry.maximum->0 <= u32::MAX ==> (
                    after->0).max_pages->0 as int == entry.maximum->0 as int
                    &&& entry.maximum is Some && entry.maximum->0 > u32::MAX ==> (
                    after->0).max_pages->0 == u32::MAX
                    &&& (after->0).shared == entry.shared
                    &&& (after->0).imported == Some(((entries[i]->Ok_0).0, (entries[i]->Ok_0).1))
                    &&& forall|j: int|
                        0 <= j < entries.len() && j != i ==> !of_memory(#[trigger] entries[j])
                }
        }),
    decreases entries.len(),
{
    if entries.len() > 0 {
        let less = entries.drop_last();
        let last = entries.last();
        lemma_one_memory(less, memory);
        let so_far = (section_imports(less, memory)->Ok_0).1;
        let after = (section_imports(entries, memory)->Ok_0).1;
        assert(forall|j: int| 0 <= j < less.len() ==> less[j] == entries[j]);
        assert(entries[entries.len() - 1] == last);
        if of_memory(last) {
            assert(so_far is None);
            assert forall|j: int| 0 <= j < less.len() implies !of_memory(#[trigger] entries[j]) by {
                assert(less[j] == entries[j]);
            }
        } else {
            assert(after == so_far);
            assert forall|i: int| 0 <= i < entries.len() && of_memory(#[trigger] entries[i]) implies memory is None && forall|j: int|
                0 <= j < entries.len() && j != i ==> !of_memory(#[trigger] entries[j]) by {
                assert(less[i] == entries[i]);
                assert forall|j: int| 0 <= j < entries.len() && j != i implies !of_memory(#[trigger] entries[j]) by {
                    if j < less.len() {
                        assert(less[j] == entries[j]);
                    }
                }
            }
        }
    }
}

/// A section of functions alone is read.
pub proof fn imports_of_functions_are_read(entries: Seq<ImportItem>, memory: Option<MemoryModel>)
    requires
        forall|i: int|
            0 <= i < entries.len() ==> (#[trigger] entries[i]) is Ok && (
            entries[i]->Ok_0).2 is Func,
    ensures
        section_imports(entries, memory) is Ok,
        (section_imports(entries, memory)->Ok_0).1 == memory,
    decreases entries.len(),
{
    if entries.len() > 0 {
        let less = entries.drop_last();
        assert forall|i: int| 0 <= i < less.len() implies (#[trigger] less[i]) is Ok && (
        less[i]->Ok_0).2 is Func by {
            assert(less[i] == entries[i]);
        }
        assert(entries[entries.len() - 1] == entries.last());
        imports_of_functions_are_read(less, memory);
    }
}

/// An import that is neither a function nor a memory is an error: it is never left out.
pub proof fn another_import_is_an_error(
    entries: Seq<ImportItem>,
    memory: Option<MemoryModel>,
    i: int,
)
    requires
        0 <= i < entries.len(),
        entries[i] is Err || !((entries[i]->Ok_0).2 is Func || (entries[i]->Ok_0).2 is Memory),
    ensures
        section_imports(entries, memory) is Err,
{
    if section_imports(entries, memory) is Ok {
        imported_functions_keep_their_order(entries, memory, i);
    }
}

// ---- lists that keep their order ----

/// The indices of a list are those of its entries, in their order, and one that cannot
/// be read is an error.
pub proof fn indices_keep_their_order(entries: Seq<Result<u32, Seq<char>>>)
    ensures
        match index_list(entries) {
            Ok(indices) => {
                &&& indices.len() == entries.len()
                &&& forall|i: int|
                    0 <= i < entries.len() ==> (#[trigger] entries[i]) == Ok::<u32, Seq<char>>(
                        indices[i],
                    )
            },
            Err(_) => exists|i: int| 0 <= i < entries.len() && (#[trigger] entries[i]) is Err,
        },
{
    let results = Seq::new(
        entries.len(),
        |i: int| crate::module::assemble::decoded(entries[i]),
    );
    if gathered(results) is Ok {
        lemma_gathered_all(results);
        let indices = gathered(results)->Ok_0;
        assert forall|i: int| 0 <= i < entries.len() implies (#[trigger] entries[i]) == Ok::<
            u32,
            Seq<char>,
        >(indices[i]) by {
            assert(results[i] == Ok::<u32, Failure>(indices[i]));
        }
    } else {
        lemma_gathered_err(results);
        let i = choose|i: int| 0 <= i < results.len() && (#[trigger] results[i]) is Err;
        assert(entries[i] is Err);
    }
}

/// Where a list fails, one of its results did.
proof fn lemma_gathered_err<T>(results: Seq<Result<T, Failure>>)
    requires
        gathered(results) is Err,
    ensures
        exists|i: int| 0 <= i < results.len() && (#[trigger] results[i]) is Err,
    decreases results.len(),
{
    if results.len() > 0 {
        let less = results.drop_last();
        if gathered(less) is Err {
            lemma_gathered_err(less);
            let i = choose|i: int| 0 <= i < less.len() && (#[trigger] less[i]) is Err;
            assert(results[i] is Err);
        } else {
            assert(results[results.len() - 1] is Err);
        }
    }
}

/// The exports of a section are its entries in their order, each under its name, of the
/// kind its word says, and with its index.
pub proof fn exports_keep_their_order(
    entries: Seq<Result<(Seq<char>, Seq<char>, u32), Seq<char>>>,
    i: int,
)
    requires
        section_exports(entries) is Ok,
        0 <= i < entries.len(),
    ensures
        ({
            let exports = section_exports(entries)->Ok_0;
            &&& exports.len() == entries.len()
            &&& entries[i] is Ok
            &&& exports[i].name == (entries[i]->Ok_0).0
            &&& exports[i].index == (entries[i]->Ok_0).2
            &&& (entries[i]->Ok_0).1 == match exports[i].kind {
                ExportKind::Func => "Func"@,
                ExportKind::Memory => "Memory"@,
                ExportKind::Global => "Global"@,
                ExportKind::Table => "Table"@,
            }
        }),
{
    let results = Seq::new(entries.len(), |i: int| export_of(entries[i]));
    lemma_gathered_all(results);
    assert(results[i] == Ok::<ExportModel, Failure>((section_exports(entries)->Ok_0)[i]));
}

/// The globals of a section are its entries in their order, each of the type its word
/// says, mutable where its entry is, and with the value of its initial expression.
pub proof fn globals_keep_their_order(
    entries: Seq<Result<(Seq<char>, bool, Seq<Result<Seq<char>, Seq<char>>>), Seq<char>>>,
    i: int,
)
    requires
        section_globals(entries) is Ok,
        0 <= i < entries.len(),
    ensures
        ({
            let globals = section_globals(entries)->Ok_0;
            &&& globals.len() == entries.len()
            &&& entries[i] is Ok
            &&& globals[i].mutable == (entries[i]->Ok_0).1
            &&& (entries[i]->Ok_0).0 == spelled_type(globals[i].ty)
            &&& const_expr((entries[i]->Ok_0).2, numbered("global #"@, i as nat)) == Ok::<
                ConstExpr,
                Failure,
            >(globals[i].init)
        }),
{
    let results = Seq::new(entries.len(), |i: int| global_of(entries[i], i));
    lemma_gathered_all(results);
    assert(results[i] == Ok::<GlobalDef, Failure>((section_globals(entries)->Ok_0)[i]));
    lemma_spelled_type((entries[i]->Ok_0).0, numbered("global #"@, i as nat));
}

/// How the decoder spells a value type.
pub open spec fn spelled_type(ty: ValType) -> Seq<char> {
    match ty {
        ValType::I32 => "I32"@,
        ValType::I64 => "I64"@,
        ValType::F32 => "F32"@,
        ValType::F64 => "F64"@,
    }
}

/// A value type is the one whose spelling the word is.
proof fn lemma_spelled_type(word: Seq<char>, location: Seq<char>)
    ensures
        match val_type(word, location) {
            Ok(ty) => word == spelled_type(ty),
            Err(_) => forall|ty: ValType| word != #[trigger] spelled_type(ty),
        },
{
}

/// The data segments of a section are its entries in their order, each with its bytes,
/// with the offset its expression says or none where it is passive, and with where its
/// bytes start in the file, which is as far before their end as they are long.
pub proof fn segments_keep_their_order(entries: Seq<Result<DataModel, Seq<char>>>, i: int)
    requires
        section_data(entries) is Ok,
        0 <= i < entries.len(),
    ensures
        ({
            let segments = section_data(entries)->Ok_0;
            let entry = entries[i]->Ok_0;
            &&& segments.len() == entries.len()
            &&& entries[i] is Ok
            &&& segments[i].bytes == entry.bytes
            &&& entry.bytes.len() <= entry.end && entry.end - entry.bytes.len() <= u32::MAX
                ==> segments[i].file_offset + entry.bytes.len() == entry.end
            &&& match entry.active {
                None => segments[i].offset is None,
                Some((memory, offset)) => {
                    &&& memory == 0
                    &&& segments[i].offset is Some
                    &&& const_expr(offset, numbered("data segment #"@, i as nat)) == Ok::<
                        ConstExpr,
                        Failure,
                    >(segments[i].offset->0)
                },
            }
        }),
{
    let results = Seq::new(entries.len(), |i: int| segment_of(entries[i], i));
    lemma_gathered_all(results);
    assert(results[i] == Ok::<SegmentModel, Failure>((section_data(entries)->Ok_0)[i]));
}

/// The element segments of a section are its entries in their order, each with the
/// functions it lists in theirs.
pub proof fn elements_keep_their_order(
    entries: Seq<Result<(Option<Seq<Result<Seq<char>, Seq<char>>>>, ItemsModel), Seq<char>>>,
    i: int,
)
    requires
        section_elements(entries) is Ok,
        0 <= i < entries.len(),
    ensures
        ({
            let segments = section_elements(entries)->Ok_0;
            let (offset, items) = entries[i]->Ok_0;
            let location = numbered("element segment #"@, i as nat);
            &&& segments.len() == entries.len()
            &&& entries[i] is Ok
            &&& offset is None ==> segments[i].offset is None
            &&& offset is Some ==> segments[i].offset is Some && const_expr(offset->0, location)
                == Ok::<ConstExpr, Failure>(segments[i].offset->0)
            &&& match items {
                ItemsModel::Functions(list) => {
                    &&& segments[i].funcs.len() == list.len()
                    &&& forall|k: int|
                        0 <= k < list.len() ==> (#[trigger] list[k]) == Ok::<u32, Seq<char>>(
                            segments[i].funcs[k],
                        )
                },
                ItemsModel::Expressions(list) => {
                    &&& segments[i].funcs.len() == list.len()
                    &&& forall|k: int|
                        0 <= k < list.len() ==> (#[trigger] list[k]) is Ok
                            && ref_func(list[k]->Ok_0, location) == Ok::<
                            u32,
                            Failure,
                        >(segments[i].funcs[k])
                },
            }
        }),
{
    let results = Seq::new(
        entries.len(),
        |i: int| crate::module::assemble::element_of(entries[i], i),
    );
    lemma_gathered_all(results);
    let segment = (section_elements(entries)->Ok_0)[i];
    assert(results[i] == Ok::<ElemModel, Failure>(segment));
    let (offset, items) = entries[i]->Ok_0;
    let location = numbered("element segment #"@, i as nat);
    assert(element_funcs(items, location) == Ok::<Seq<u32>, Failure>(segment.funcs));
    match items {
        ItemsModel::Functions(list) => {
            indices_keep_their_order(list);
        },
        ItemsModel::Expressions(list) => {
            let each = Seq::new(
                list.len(),
                |k: int| crate::module::assemble::listed_func(list[k], location),
            );
            lemma_gathered_all(each);
            assert forall|k: int| 0 <= k < list.len() implies (#[trigger] list[k]) is Ok
                && ref_func(list[k]->Ok_0, location) == Ok::<
                u32,
                Failure,
            >(segment.funcs[k]) by {
                assert(each[k] == Ok::<u32, Failure>(segment.funcs[k]));
            }
        },
    }
}

// ---- constant expressions ----

/// A constant expression is one operator and its end: the value is what that operator
/// pushes, and anything after it but an end, or nothing, is an error and not left out.
pub proof fn a_constant_expression_is_one_operator(
    expr: Seq<Result<Seq<char>, Seq<char>>>,
    location: Seq<char>,
)
    requires
        const_expr(expr, location) is Ok,
    ensures
        expr.len() >= 2,
        expr[0] is Ok,
        expr[1] is Ok,
        first_word(expr[1]->Ok_0) == "End"@,
        ({
            let words = words_of(expr[0]->Ok_0);
            let name = first_word(expr[0]->Ok_0);
            match const_expr(expr, location)->Ok_0 {
                ConstExpr::I32(value) => name == "I32Const"@ && immediate(words, "value"@) == Some(
                    value as int,
                ),
                ConstExpr::I64(value) => name == "I64Const"@ && immediate(words, "value"@) == Some(
                    value as int,
                ),
                ConstExpr::F32(bits) => name == "F32Const"@ && immediate(words, "Ieee32"@) == Some(
                    bits as int,
                ),
                ConstExpr::F64(bits) => name == "F64Const"@ && immediate(words, "Ieee64"@) == Some(
                    bits as int,
                ),
                ConstExpr::GlobalGet(global) => name == "GlobalGet"@ && immediate(
                    words,
                    "global_index"@,
                ) == Some(global as int),
            }
        }),
{
}

/// A function in an element segment is the one its expression refers to.
pub proof fn a_listed_function_is_referred_to(
    expr: Seq<Result<Seq<char>, Seq<char>>>,
    location: Seq<char>,
)
    requires
        ref_func(expr, location) is Ok,
    ensures
        expr.len() > 0,
        expr[0] is Ok,
        first_word(expr[0]->Ok_0) == "RefFunc"@,
        immediate(words_of(expr[0]->Ok_0), "function_index"@) == Some(
            ref_func(expr, location)->Ok_0 as int,
        ),
{
}

// ---- types ----

/// How many types the first `g` groups have.
pub open spec fn types_before(groups: Seq<Result<Seq<TypeModel>, Seq<char>>>, g: int) -> int
    decreases g,
{
    if g <= 0 {
        0
    } else {
        types_before(groups, g - 1) + (groups[g - 1]->Ok_0).len()
    }
}

/// The signatures of a type section are the types of its groups, one group after the
/// other and each in its order, with the parameters and results that the words spell.
pub proof fn types_keep_their_order(
    groups: Seq<Result<Seq<TypeModel>, Seq<char>>>,
    g: int,
    k: int,
)
    requires
        section_types(groups) is Ok,
        0 <= g < groups.len(),
        0 <= k < (groups[g]->Ok_0).len(),
    ensures
        ({
            let types = section_types(groups)->Ok_0;
            let at = types_before(groups, g) + k;
            &&& types.len() == types_before(groups, groups.len() as int)
            &&& 0 <= at < types.len()
            &&& match (groups[g]->Ok_0)[k] {
                TypeModel::Func(params, results) => {
                    &&& types[at].params.len() == params.len()
                    &&& types[at].results.len() == results.len()
                    &&& forall|i: int|
                        0 <= i < params.len() ==> #[trigger] params[i] == spelled_type(
                            types[at].params[i],
                        )
                    &&& forall|i: int|
                        0 <= i < results.len() ==> #[trigger] results[i] == spelled_type(
                            types[at].results[i],
                        )
                },
                TypeModel::Other => false,
            }
        }),
{
    let results = Seq::new(groups.len(), |i: int| group_signatures(groups[i]));
    lemma_gathered_all(results);
    let lists = gathered(results)->Ok_0;
    assert forall|i: int| 0 <= i < groups.len() implies (#[trigger] lists[i]).len() == (
    groups[i]->Ok_0).len() by {
        assert(results[i] == Ok::<Seq<SignatureModel>, Failure>(lists[i]));
        let each = Seq::new((groups[i]->Ok_0).len(), |j: int| signature_of((groups[i]->Ok_0)[j]));
        lemma_gathered_all(each);
    }
    lemma_chained(groups, lists, g, k);
    assert(results[g] == Ok::<Seq<SignatureModel>, Failure>(lists[g]));
    let each = Seq::new((groups[g]->Ok_0).len(), |j: int| signature_of((groups[g]->Ok_0)[j]));
    lemma_gathered_all(each);
    assert(each[k] == Ok::<SignatureModel, Failure>(lists[g][k]));
    match (groups[g]->Ok_0)[k] {
        TypeModel::Func(params, results) => {
            lemma_type_list(params);
            lemma_type_list(results);
        },
        TypeModel::Other => {},
    }
}

/// A list of value types is what its words spell.
proof fn lemma_type_list(list: Seq<Seq<char>>)
    requires
        type_list(list) is Ok,
    ensures
        (type_list(list)->Ok_0).len() == list.len(),
        forall|i: int|
            0 <= i < list.len() ==> #[trigger] list[i] == spelled_type((type_list(list)->Ok_0)[i]),
{
    let results = Seq::new(list.len(), |i: int| val_type(list[i], "type section"@));
    lemma_gathered_all(results);
    assert forall|i: int| 0 <= i < list.len() implies #[trigger] list[i] == spelled_type(
        (type_list(list)->Ok_0)[i],
    ) by {
        assert(results[i] == Ok::<ValType, Failure>((type_list(list)->Ok_0)[i]));
        lemma_spelled_type(list[i], "type section"@);
    }
}

/// Where an element of a list stands in the lists one after the other.
proof fn lemma_chained<T>(
    groups: Seq<Result<Seq<TypeModel>, Seq<char>>>,
    lists: Seq<Seq<T>>,
    g: int,
    k: int,
)
    requires
        0 <= g < lists.len() <= groups.len(),
        0 <= k < lists[g].len(),
        forall|i: int|
            0 <= i < lists.len() ==> (#[trigger] lists[i]).len() == (groups[i]->Ok_0).len(),
    ensures
        chained(lists).len() == types_before(groups, lists.len() as int),
        0 <= types_before(groups, g) + k < chained(lists).len(),
        chained(lists)[types_before(groups, g) + k] == lists[g][k],
    decreases lists.len(),
{
    let less = lists.drop_last();
    lemma_chained_len(groups, less);
    assert(lists[lists.len() - 1].len() == (groups[lists.len() - 1]->Ok_0).len());
    if g < less.len() {
        assert(less[g] == lists[g]);
        lemma_chained(groups, less, g, k);
    }
}

/// Lists one after the other are as long as they are together.
proof fn lemma_chained_len<T>(groups: Seq<Result<Seq<TypeModel>, Seq<char>>>, lists: Seq<Seq<T>>)
    requires
        lists.len() <= groups.len(),
        forall|i: int|
            0 <= i < lists.len() ==> (#[trigger] lists[i]).len() == (groups[i]->Ok_0).len(),
    ensures
        chained(lists).len() == types_before(groups, lists.len() as int),
    decreases lists.len(),
{
    if lists.len() > 0 {
        lemma_chained_len(groups, lists.drop_last());
        assert(lists[lists.len() - 1].len() == (groups[lists.len() - 1]->Ok_0).len());
    }
}

// ---- bodies ----

/// How many locals the first `r` runs declare.
pub open spec fn locals_before(runs: Seq<Result<(u32, Seq<char>), Seq<char>>>, r: int) -> int
    decreases r,
{
    if r <= 0 {
        0
    } else {
        locals_before(runs, r - 1) + (runs[r - 1]->Ok_0).0
    }
}

/// The locals of a body are its runs one after the other, each as many as it says of the
/// type it spells.
pub proof fn locals_are_their_runs(
    runs: Seq<Result<(u32, Seq<char>), Seq<char>>>,
    location: Seq<char>,
    r: int,
    k: int,
)
    requires
        body_locals(runs, location) is Ok,
        0 <= r < runs.len(),
        0 <= k < (runs[r]->Ok_0).0,
    ensures
        (body_locals(runs, location)->Ok_0).len() == locals_before(runs, runs.len() as int),
        0 <= locals_before(runs, r) + k < (body_locals(runs, location)->Ok_0).len(),
        (runs[r]->Ok_0).1 == spelled_type(
            (body_locals(runs, location)->Ok_0)[locals_before(runs, r) + k],
        ),
    decreases runs.len(),
{
    let less = runs.drop_last();
    lemma_locals_len(less, location);
    lemma_locals_same(runs, less, less.len() as int);
    lemma_spelled_type((runs.last()->Ok_0).1, location);
    if r < less.len() {
        assert(less[r] == runs[r]);
        locals_are_their_runs(less, location, r, k);
        lemma_locals_same(runs, less, r);
    }
}

proof fn lemma_locals_same(
    runs: Seq<Result<(u32, Seq<char>), Seq<char>>>,
    less: Seq<Result<(u32, Seq<char>), Seq<char>>>,
    r: int,
)
    requires
        less == runs.drop_last(),
        runs.len() > 0,
        r <= less.len(),
    ensures
        locals_before(runs, r) == locals_before(less, r),
    decreases r,
{
    if r > 0 {
        assert(less[r - 1] == runs[r - 1]);
        lemma_locals_same(runs, less, r - 1);
    }
}

proof fn lemma_locals_len(runs: Seq<Result<(u32, Seq<char>), Seq<char>>>, location: Seq<char>)
    requires
        body_locals(runs, location) is Ok,
    ensures
        (body_locals(runs, location)->Ok_0).len() == locals_before(runs, runs.len() as int),
    decreases runs.len(),
{
    if runs.len() > 0 {
        let less = runs.drop_last();
        lemma_locals_len(less, location);
        lemma_locals_same(runs, less, less.len() as int);
    }
}

/// Each instruction of a function starts in the file where its operator stands, and ends
/// where the next one starts, or with the body: together they leave no byte out.
pub proof fn offsets_leave_no_byte_out(
    runs: Seq<Result<(u32, Seq<char>), Seq<char>>>,
    operators: Seq<Result<(Seq<char>, usize), Seq<char>>>,
    end: usize,
    type_index: u32,
    index: int,
    i: int,
)
    requires
        function_of(runs, operators, end, type_index, index) is Ok,
        0 <= i < (function_of(runs, operators, end, type_index, index)->Ok_0).body.len(),
        forall|k: int|
            0 <= k < operators.len() - 1 ==> ((#[trigger] operators[k])->Ok_0).1 <= (operators[k
                + 1]->Ok_0).1,
        (operators.last()->Ok_0).1 <= end <= u32::MAX,
    ensures
        ({
            let offsets = (function_of(runs, operators, end, type_index, index)->Ok_0).offsets;
            &&& offsets[i].0 == (operators[i]->Ok_0).1
            &&& i + 1 < operators.len() ==> offsets[i].0 + offsets[i].1 == (operators[i
                + 1]->Ok_0).1
            &&& i + 1 == operators.len() ==> offsets[i].0 + offsets[i].1 == end
        }),
{
    crate::module::laws::nothing_is_skipped(runs, operators, end, type_index, index);
    let func = function_of(runs, operators, end, type_index, index)->Ok_0;
    let all = body_offsets(operators, end);
    assert(func.offsets[i] == all[i]);
    lemma_ascending(operators, i, operators.len() - 1);
    if i + 1 < operators.len() {
        lemma_ascending(operators, i + 1, operators.len() - 1);
    }
}

/// Places that ascend step by step ascend.
proof fn lemma_ascending(
    operators: Seq<Result<(Seq<char>, usize), Seq<char>>>,
    i: int,
    j: int,
)
    requires
        0 <= i <= j < operators.len(),
        forall|k: int|
            0 <= k < operators.len() - 1 ==> ((#[trigger] operators[k])->Ok_0).1 <= (operators[k
                + 1]->Ok_0).1,
    ensures
        (operators[i]->Ok_0).1 <= (operators[j]->Ok_0).1,
    decreases j - i,
{
    if i < j {
        lemma_ascending(operators, i + 1, j);
        assert((operators[i]->Ok_0).1 <= (operators[i + 1]->Ok_0).1);
    }
}

/// A function has the type it was declared with and the locals its body declares.
pub proof fn a_function_keeps_its_type_and_locals(
    runs: Seq<Result<(u32, Seq<char>), Seq<char>>>,
    operators: Seq<Result<(Seq<char>, usize), Seq<char>>>,
    end: usize,
    type_index: u32,
    index: int,
)
    requires
        function_of(runs, operators, end, type_index, index) is Ok,
    ensures
        (function_of(runs, operators, end, type_index, index)->Ok_0).type_index == type_index,
        body_locals(runs, numbered("function #"@, index as nat)) == Ok::<Seq<ValType>, Failure>(
            (function_of(runs, operators, end, type_index, index)->Ok_0).locals,
        ),
{
}

// ---- names ----

/// A subsection contributes its names in their order where all of them can be read, and
/// else none; those of another kind, and those that cannot be read, contribute nothing.
pub proof fn names_are_those_of_their_kind(
    subsections: Seq<Result<(NameKind, Seq<Result<(u32, Seq<char>), Seq<char>>>), Seq<char>>>,
    kind: NameKind,
    entry: Result<(NameKind, Seq<Result<(u32, Seq<char>), Seq<char>>>), Seq<char>>,
)
    ensures
        section_names(Seq::empty(), kind) == Seq::<(u32, Seq<char>)>::empty(),
        ({
            let before = section_names(subsections, kind);
            let after = section_names(subsections.push(entry), kind);
            let added = after.skip(before.len() as int);
            &&& before.len() <= after.len()
            &&& after.take(before.len() as int) == before
            &&& match entry {
                Ok((found, names)) => if found == kind && forall|i: int|
                    0 <= i < names.len() ==> (#[trigger] names[i]) is Ok {
                    &&& added.len() == names.len()
                    &&& forall|i: int|
                        0 <= i < names.len() ==> (#[trigger] names[i]) == Ok::<
                            (u32, Seq<char>),
                            Seq<char>,
                        >(added[i])
                } else {
                    added.len() == 0
                },
                Err(_) => added.len() == 0,
            }
        }),
{
    let before = section_names(subsections, kind);
    let whole = subsections.push(entry);
    let after = section_names(whole, kind);
    assert(whole.drop_last() =~= subsections);
    assert(after.take(before.len() as int) =~= before);
    match entry {
        Ok((found, names)) => {
            if found == kind {
                assert(after.skip(before.len() as int) =~= readable(names));
            }
        },
        Err(_) => {},
    }
}

// ---- the memory ----

/// A module has one memory at most: a memory section adds the one it declares to none,
/// with the size, the ceiling and the sharing it declares.
pub proof fn a_memory_section_adds_one_to_none(
    entries: Seq<Result<MemoryEntry, Seq<char>>>,
    memory: Option<MemoryModel>,
)
    requires
        section_memory(entries, memory) is Ok,
    ensures
        entries.len() == 0 ==> section_memory(entries, memory)->Ok_0 == memory,
        entries.len() > 0 ==> {
            let after = section_memory(entries, memory)->Ok_0;
            let entry = entries[0]->Ok_0;
            &&& memory is None
            &&& entries.len() == 1
            &&& entries[0] is Ok
            &&& after is Some
            &&& !entry.memory64
            &&& (after->0).min_pages as int == entry.initial as int
            &&& (after->0).max_pages is Some == entry.maximum is Some
            &&& entry.maximum is Some && entry.maximum->0 <= u32::MAX ==> (
            after->0).max_pages->0 as int == entry.maximum->0 as int
            &&& entry.maximum is Some && entry.maximum->0 > u32::MAX ==> (
            after->0).max_pages->0 == u32::MAX
            &&& (after->0).shared == entry.shared
            &&& (after->0).imported is None
        },
{
    if entries.len() > 0 {
        let less = entries.drop_last();
        lemma_memory_some(less, memory);
        if less.len() > 0 {
            assert(section_memory(less, memory)->Ok_0 is Some);
        } else {
            assert(section_memory(less, memory) == Ok::<Option<MemoryModel>, Failure>(memory));
        }
    }
}

proof fn lemma_memory_some(
    entries: Seq<Result<MemoryEntry, Seq<char>>>,
    memory: Option<MemoryModel>,
)
    requires
        section_memory(entries, memory) is Ok,
    ensures
        entries.len() > 0 ==> section_memory(entries, memory)->Ok_0 is Some,
{
}

// ---- the whole ----

/// Each body that is read becomes the next function, of the type the function section
/// declared at that place.
pub proof fn bodies_pair_with_declarations(
    parts: Seq<Result<PartModel, Seq<char>>>,
    bytes: Seq<u8>,
    k: int,
)
    requires
        module_of(parts, bytes) is Ok,
        0 <= k < (module_of(parts, bytes)->Ok_0).funcs.len(),
    ensures
        (after_parts(parts, bytes)->Ok_0).declared.len() == (module_of(
            parts,
            bytes,
        )->Ok_0).funcs.len(),
        (module_of(parts, bytes)->Ok_0).funcs[k].type_index == (after_parts(
            parts,
            bytes,
        )->Ok_0).declared[k],
{
    crate::module::laws::every_declared_function_has_a_body(parts, bytes);
    lemma_paired(parts, bytes);
}

proof fn lemma_paired(parts: Seq<Result<PartModel, Seq<char>>>, bytes: Seq<u8>)
    requires
        after_parts(parts, bytes) is Ok,
    ensures
        ({
            let state = after_parts(parts, bytes)->Ok_0;
            &&& state.module.funcs.len() == state.bodies
            &&& state.bodies <= state.declared.len()
            &&& forall|k: int|
                0 <= k < state.module.funcs.len() ==> (
                #[trigger] state.module.funcs[k]).type_index == state.declared[k]
        }),
    decreases parts.len(),
{
    if parts.len() > 0 {
        lemma_paired(parts.drop_last(), bytes);
        let before = after_parts(parts.drop_last(), bytes)->Ok_0;
        let after = after_parts(parts, bytes)->Ok_0;
        assert forall|k: int| 0 <= k < after.module.funcs.len() implies (
        #[trigger] after.module.funcs[k]).type_index == after.declared[k] by {
            if k < before.module.funcs.len() {
                assert(after.module.funcs[k] == before.module.funcs[k]);
            }
        }
    }
}

/// The start function is the one the start section names, and it is changed by nothing
/// else; a body adds one function after those that were there and changes nothing else;
/// and a custom section adds names, if it is the name section, and else nothing.
pub proof fn a_part_does_what_it_is_for(
    state: Decoding,
    part: PartModel,
    bytes: Seq<u8>,
)
    requires
        after_part(state, Ok(part), bytes) is Ok,
    ensures
        ({
            let next = after_part(state, Ok(part), bytes)->Ok_0;
            match part {
                PartModel::Start(func) => next.module.start == Some(func) && next.module.funcs
                    == state.module.funcs && next.module.types == state.module.types
                    && next.declared == state.declared && next.bodies == state.bodies,
                PartModel::Body(_, _) => {
                    &&& next.module.funcs.len() == state.module.funcs.len() + 1
                    &&& next.module.funcs.drop_last() == state.module.funcs
                    &&& next.module.start == state.module.start
                    &&& next.module.types == state.module.types
                    &&& next.module.func_imports == state.module.func_imports
                    &&& next.module.exports == state.module.exports
                    &&& next.declared == state.declared
                },
                PartModel::Custom(name, _, _) => {
                    &&& name != "name"@ ==> next == state
                    &&& state.module.func_names.is_prefix_of(next.module.func_names)
                    &&& state.module.global_names.is_prefix_of(next.module.global_names)
                    &&& next.module.funcs == state.module.funcs
                    &&& next.module.exports == state.module.exports
                    &&& next.module.start == state.module.start
                },
                PartModel::Other => next == state,
                PartModel::Section(_, _, _) => next.module.start == state.module.start,
            }
        }),
{
    match part {
        PartModel::Body(_, _) => {
            let next = after_part(state, Ok(part), bytes)->Ok_0;
            assert(next.module.funcs.drop_last() =~= state.module.funcs);
        },
        _ => {},
    }
}

/// A section adds to what the module has, after what was there, and changes nothing that
/// it does not speak of.
pub proof fn a_section_adds_after_what_was_there(
    state: Decoding,
    name: Seq<char>,
    contents: Seq<u8>,
    offset: usize,
)
    requires
        after_section(state, name, contents, offset) is Ok,
    ensures
        ({
            let before = state.module;
            let next = after_section(state, name, contents, offset)->Ok_0;
            let after = next.module;
            &&& before.types.is_prefix_of(after.types)
            &&& before.func_imports.is_prefix_of(after.func_imports)
            &&& before.globals.is_prefix_of(after.globals)
            &&& before.datas.is_prefix_of(after.datas)
            &&& before.elems.is_prefix_of(after.elems)
            &&& before.exports.is_prefix_of(after.exports)
            &&& state.declared.is_prefix_of(next.declared)
            &&& after.funcs == before.funcs
            &&& after.start == before.start
            &&& after.func_names == before.func_names
            &&& after.global_names == before.global_names
            &&& next.bodies == state.bodies
            &&& name != "TypeSection"@ ==> after.types == before.types
            &&& name != "ImportSection"@ ==> after.func_imports == before.func_imports
            &&& name != "FunctionSection"@ ==> next.declared == state.declared
            &&& name != "MemorySection"@ && name != "ImportSection"@ ==> after.memory
                == before.memory
            &&& name != "GlobalSection"@ ==> after.globals == before.globals
            &&& name != "ExportSection"@ ==> after.exports == before.exports
            &&& name != "DataSection"@ ==> after.datas == before.datas
            &&& name != "ElementSection"@ ==> after.elems == before.elems
        }),
{
}

} // verus!
