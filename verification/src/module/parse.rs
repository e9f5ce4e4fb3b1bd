//! A file, decoded into a module.

use vstd::prelude::*;
use crate::error::{Error, Failure};
use crate::module::assemble::{
    elements_at, function_of, index_list, lower_body, lower_data, lower_elements, lower_exports, lower_globals,
    lower_imports, lower_indices, lower_memories, lower_names, lower_types, modelled, numbered, read_elements,
    section_data, section_elements, section_exports, section_globals, section_imports,
    section_memory, section_names, section_types,
};
use crate::module::decode;
use crate::module::model::{ModuleModel, empty_module, named};
use crate::module::operator::{Operator, first_word};
use crate::module::types::{
    DataSegment, ElemSegment, Export, FuncType, ImportedFunc, MemoryDef, Module,
};
use crate::module::wire::{NameKind, Part, PartModel, stream};
use crate::text::pieces::{decimal, push_decimal, same_as, same_text};

verus! {

/// How far a file has been read.
pub struct Decoding {
    /// The module so far.
    pub module: ModuleModel,
    /// The type indices the function section declared.
    pub declared: Seq<u32>,
    /// How many bodies have been paired with them.
    pub bodies: nat,
}

/// The bytes between two offsets, or none where the range is not one.
pub open spec fn window(bytes: Seq<u8>, start: usize, end: usize) -> Seq<u8> {
    if start <= end <= bytes.len() {
        bytes.subrange(start as int, end as int)
    } else {
        Seq::empty()
    }
}

/// The bytes between two offsets.
fn window_of<'a>(bytes: &'a [u8], start: usize, end: usize) -> (part: &'a [u8])
    ensures
        part@ == window(bytes@, start, end),
        start + part@.len() <= usize::MAX,
{
    if start <= end && end <= bytes.len() {
        vstd::slice::slice_subrange(bytes, start, end)
    } else {
        let part: &'a [u8] = vstd::slice::slice_subrange(bytes, 0, 0);
        assert(part@ =~= Seq::empty());
        part
    }
}

/// What a section contributes.
pub open spec fn after_section(
    state: Decoding,
    name: Seq<char>,
    contents: Seq<u8>,
    offset: usize,
) -> Result<Decoding, Failure> {
    let module = state.module;
    if name == "TypeSection"@ {
        match section_types(decode::types_of(contents, offset)) {
            Err(failure) => Err(failure),
            Ok(types) => Ok(
                Decoding { module: ModuleModel { types: module.types + types, ..module }, ..state },
            ),
        }
    } else if name == "ImportSection"@ {
        match section_imports(decode::imports_of(contents, offset), module.memory) {
            Err(failure) => Err(failure),
            Ok((funcs, memory)) => Ok(
                Decoding {
                    module: ModuleModel {
                        func_imports: module.func_imports + funcs,
                        memory,
                        ..module
                    },
                    ..state
                },
            ),
        }
    } else if name == "FunctionSection"@ {
        match index_list(decode::functions_of(contents, offset)) {
            Err(failure) => Err(failure),
            Ok(indices) => Ok(Decoding { declared: state.declared + indices, ..state }),
        }
    } else if name == "MemorySection"@ {
        match section_memory(decode::memories_of(contents, offset), module.memory) {
            Err(failure) => Err(failure),
            Ok(memory) => Ok(Decoding { module: ModuleModel { memory, ..module }, ..state }),
        }
    } else if name == "GlobalSection"@ {
        match section_globals(decode::globals_of(contents, offset)) {
            Err(failure) => Err(failure),
            Ok(globals) => Ok(
                Decoding {
                    module: ModuleModel { globals: module.globals + globals, ..module },
                    ..state
                },
            ),
        }
    } else if name == "ExportSection"@ {
        match section_exports(decode::exports_of(contents, offset)) {
            Err(failure) => Err(failure),
            Ok(exports) => Ok(
                Decoding {
                    module: ModuleModel { exports: module.exports + exports, ..module },
                    ..state
                },
            ),
        }
    } else if name == "DataSection"@ {
        match section_data(decode::data_of(contents, offset)) {
            Err(failure) => Err(failure),
            Ok(datas) => Ok(
                Decoding { module: ModuleModel { datas: module.datas + datas, ..module }, ..state },
            ),
        }
    } else if name == "ElementSection"@ {
        match section_elements(elements_at(contents, offset)) {
            Err(failure) => Err(failure),
            Ok(elems) => Ok(
                Decoding { module: ModuleModel { elems: module.elems + elems, ..module }, ..state },
            ),
        }
    } else {
        Ok(state)
    }
}

/// What a function body contributes: the next of the functions the function
/// section declared.
pub open spec fn after_body(state: Decoding, contents: Seq<u8>, offset: usize) -> Result<
    Decoding,
    Failure,
> {
    if state.bodies >= state.declared.len() {
        Err(
            Failure::Invalid(
                "more function bodies than the function section declared"@,
                numbered("function body #"@, state.bodies),
            ),
        )
    } else {
        let index = (state.module.func_imports.len() as usize).wrapping_add(
            state.bodies as usize,
        );
        match function_of(
            decode::locals_of(contents, offset),
            decode::operators_of(contents, offset),
            (offset + contents.len()) as usize,
            state.declared[state.bodies as int],
            index as int,
        ) {
            Err(failure) => Err(failure),
            Ok(func) => Ok(
                Decoding {
                    module: ModuleModel { funcs: state.module.funcs.push(func), ..state.module },
                    bodies: state.bodies + 1,
                    ..state
                },
            ),
        }
    }
}

/// What the name section contributes.
pub open spec fn after_names(state: Decoding, data: Seq<u8>, offset: usize) -> Decoding {
    let subsections = decode::names_of(data, offset);
    let module = state.module;
    Decoding {
        module: ModuleModel {
            func_names: module.func_names + section_names(subsections, NameKind::Function),
            global_names: module.global_names + section_names(subsections, NameKind::Global),
            ..module
        },
        ..state
    }
}

/// What a piece of the file contributes.
pub open spec fn after_part(
    state: Decoding,
    part: Result<PartModel, Seq<char>>,
    bytes: Seq<u8>,
) -> Result<Decoding, Failure> {
    match part {
        Err(words) => Err(Failure::Decode(words)),
        Ok(PartModel::Section(text, start, end)) => after_section(
            state,
            first_word(text),
            window(bytes, start, end),
            start,
        ),
        Ok(PartModel::Start(func)) => Ok(
            Decoding { module: ModuleModel { start: Some(func), ..state.module }, ..state },
        ),
        Ok(PartModel::Body(start, end)) => after_body(state, window(bytes, start, end), start),
        Ok(PartModel::Custom(name, start, end)) => if name == "name"@ {
            Ok(after_names(state, window(bytes, start, end), start))
        } else {
            Ok(state)
        },
        Ok(PartModel::Other) => Ok(state),
    }
}

/// How far the pieces of a file take it.
pub open spec fn after_parts(parts: Seq<Result<PartModel, Seq<char>>>, bytes: Seq<u8>) -> Result<
    Decoding,
    Failure,
>
    decreases parts.len(),
{
    if parts.len() == 0 {
        Ok(Decoding { module: empty_module(), declared: Seq::empty(), bodies: 0 })
    } else {
        match after_parts(parts.drop_last(), bytes) {
            Err(failure) => Err(failure),
            Ok(state) => after_part(state, parts.last(), bytes),
        }
    }
}

/// The module the pieces of a file make, or how they fail to.
pub open spec fn module_of(parts: Seq<Result<PartModel, Seq<char>>>, bytes: Seq<u8>) -> Result<
    ModuleModel,
    Failure,
> {
    match after_parts(parts, bytes) {
        Err(failure) => Err(failure),
        Ok(state) => if state.bodies != state.declared.len() {
            Err(
                Failure::Invalid(
                    "the function section declared "@ + decimal(state.declared.len())
                        + " functions but the code section has "@ + decimal(state.bodies),
                    "code section"@,
                ),
            )
        } else {
            Ok(state.module)
        },
    }
}

/// Once the pieces have failed, what follows does not change how.
proof fn lemma_parts_fail(parts: Seq<Result<PartModel, Seq<char>>>, bytes: Seq<u8>, n: int)
    requires
        0 <= n <= parts.len(),
        after_parts(parts.take(n), bytes) is Err,
    ensures
        after_parts(parts, bytes) == after_parts(parts.take(n), bytes),
    decreases parts.len() - n,
{
    if n == parts.len() {
        assert(parts.take(n) =~= parts);
    } else {
        assert(parts.take(n + 1).drop_last() =~= parts.take(n));
        lemma_parts_fail(parts, bytes, n + 1);
    }
}

/// A module under way.
pub struct Progress {
    /// The module so far.
    pub module: Module,
    /// The type indices the function section declared.
    pub declared: Vec<u32>,
    /// How many bodies have been paired with them.
    pub bodies: usize,
}

impl View for Progress {
    type V = Decoding;

    open spec fn view(&self) -> Decoding {
        Decoding { module: self.module@, declared: self.declared@, bodies: self.bodies as nat }
    }
}

impl Progress {
    /// How taking something in went.
    pub open spec fn went(&self, result: Result<(), Error>) -> Result<Decoding, Failure> {
        match result {
            Ok(_) => Ok(self@),
            Err(error) => Err(error@),
        }
    }

    /// Takes a section in.
    fn take_section(&mut self, name: &Vec<char>, contents: &[u8], offset: usize) -> (result: Result<
        (),
        Error,
    >)
        requires
            offset + contents@.len() <= usize::MAX,
        ensures
            final(self).went(result) == after_section(old(self)@, name@, contents@, offset),
    {
        let ghost before = self@;
        if same_as(name, "TypeSection") {
            match lower_types(&decode::types(contents, offset)) {
                Ok(mut types) => {
                    let ghost left = self.module.types@;
                    let ghost right = types@;
                    self.module.types.append(&mut types);
                    assert(self.module.types@ == left + right);
                    assert(self@.module.types =~= before.module.types + right.map_values(
                        |value: FuncType| value@,
                    ));
                    Ok(())
                },
                Err(error) => Err(error),
            }
        } else if same_as(name, "ImportSection") {
            let memory: Option<MemoryDef> = self.module.memory.take();
            match lower_imports(&decode::imports(contents, offset), memory) {
                Ok((mut funcs, memory)) => {
                    let ghost right = funcs@;
                    self.module.func_imports.append(&mut funcs);
                    self.module.memory = memory;
                    assert(self@.module.func_imports =~= before.module.func_imports
                        + right.map_values(|func: ImportedFunc| func@));
                    Ok(())
                },
                Err(error) => Err(error),
            }
        } else if same_as(name, "FunctionSection") {
            match lower_indices(&decode::functions(contents, offset)) {
                Ok(mut indices) => {
                    self.declared.append(&mut indices);
                    Ok(())
                },
                Err(error) => Err(error),
            }
        } else if same_as(name, "MemorySection") {
            let memory: Option<MemoryDef> = self.module.memory.take();
            match lower_memories(&decode::memories(contents, offset), memory) {
                Ok(memory) => {
                    self.module.memory = memory;
                    Ok(())
                },
                Err(error) => Err(error),
            }
        } else if same_as(name, "GlobalSection") {
            match lower_globals(&decode::globals(contents, offset)) {
                Ok(mut globals) => {
                    self.module.globals.append(&mut globals);
                    Ok(())
                },
                Err(error) => Err(error),
            }
        } else if same_as(name, "ExportSection") {
            match lower_exports(&decode::exports(contents, offset)) {
                Ok(mut exports) => {
                    let ghost right = exports@;
                    self.module.exports.append(&mut exports);
                    assert(self@.module.exports =~= before.module.exports + right.map_values(
                        |value: Export| value@,
                    ));
                    Ok(())
                },
                Err(error) => Err(error),
            }
        } else if same_as(name, "DataSection") {
            match lower_data(&decode::data(contents, offset)) {
                Ok(mut datas) => {
                    let ghost right = datas@;
                    self.module.datas.append(&mut datas);
                    assert(self@.module.datas =~= before.module.datas + right.map_values(
                        |value: DataSegment| value@,
                    ));
                    Ok(())
                },
                Err(error) => Err(error),
            }
        } else if same_as(name, "ElementSection") {
            match lower_elements(&read_elements(contents, offset)) {
                Ok(mut elems) => {
                    let ghost right = elems@;
                    self.module.elems.append(&mut elems);
                    assert(self@.module.elems =~= before.module.elems + right.map_values(
                        |value: ElemSegment| value@,
                    ));
                    Ok(())
                },
                Err(error) => Err(error),
            }
        } else {
            Ok(())
        }
    }

    /// Takes a function body in.
    fn take_body(&mut self, contents: &[u8], offset: usize) -> (result: Result<(), Error>)
        requires
            offset + contents@.len() <= usize::MAX,
        ensures
            final(self).went(result) == after_body(old(self)@, contents@, offset),
    {
        let ghost before = self@;
        if self.bodies >= self.declared.len() {
            let mut location: String = "function body #".to_owned();
            push_decimal(&mut location, self.bodies as u64);
            return Err(
                Error::invalid(
                    "more function bodies than the function section declared",
                    location.as_str(),
                ),
            );
        }
        let type_index: u32 = self.declared[self.bodies];
        let index: usize = self.module.func_imports.len().wrapping_add(self.bodies);
        let runs = decode::locals(contents, offset);
        let operators = decode::operators(contents, offset);
        match lower_body(&runs, &operators, offset + contents.len(), type_index, index) {
            Ok(func) => {
                self.module.funcs.push(func);
                self.bodies = self.bodies + 1;
                assert(self@.module.funcs =~= before.module.funcs.push(func@));
                Ok(())
            },
            Err(error) => Err(error),
        }
    }

    /// Takes the name section in.
    fn take_names(&mut self, data: &[u8], offset: usize)
        requires
            offset + data@.len() <= usize::MAX,
        ensures
            final(self)@ == after_names(old(self)@, data@, offset),
    {
        let ghost before = self@;
        let subsections = decode::names(data, offset);
        let mut funcs: Vec<(u32, String)> = lower_names(&subsections, NameKind::Function);
        let mut globals: Vec<(u32, String)> = lower_names(&subsections, NameKind::Global);
        let ghost new_funcs = funcs@;
        let ghost new_globals = globals@;
        self.module.func_names.append(&mut funcs);
        self.module.global_names.append(&mut globals);
        assert(self@.module.func_names =~= before.module.func_names + named(new_funcs));
        assert(self@.module.global_names =~= before.module.global_names + named(new_globals));
    }

    /// Takes a piece of the file in.
    fn take_part(&mut self, part: &Result<Part, String>, bytes: &[u8]) -> (result: Result<
        (),
        Error,
    >)
        ensures
            final(self).went(result) == after_part(
                old(self)@,
                match *part {
                    Ok(part) => Ok(part@),
                    Err(words) => Err(words@),
                },
                bytes@,
            ),
    {
        match part {
            Err(words) => Err(Error::Decode(words.clone())),
            Ok(Part::Section(text, start, end)) => {
                let operator: Operator = Operator { text: text.clone() };
                let name: Vec<char> = operator.name_chars();
                self.take_section(&name, window_of(bytes, *start, *end), *start)
            },
            Ok(Part::Start(func)) => {
                self.module.start = Some(*func);
                Ok(())
            },
            Ok(Part::Body(start, end)) => self.take_body(window_of(bytes, *start, *end), *start),
            Ok(Part::Custom(name, start, end)) => {
                if same_text(name.as_str(), "name") {
                    self.take_names(window_of(bytes, *start, *end), *start);
                }
                Ok(())
            },
            Ok(Part::Other) => Ok(()),
        }
    }
}

/// The module the pieces of a file make.
pub fn assemble(parts: &Vec<Result<Part, String>>, bytes: &[u8]) -> (module: Result<Module, Error>)
    ensures
        modelled(module) == module_of(stream(parts@), bytes@),
{
    let ghost items = stream(parts@);
    let mut progress: Progress = Progress {
        module: Module::default(),
        declared: Vec::new(),
        bodies: 0,
    };
    let mut i: usize = 0;
    proof {
        assert(items.take(0) =~= Seq::empty());
        let fresh = progress@.module;
        let empty = empty_module();
        assert(fresh.types =~= empty.types);
        assert(fresh.func_imports =~= empty.func_imports);
        assert(fresh.funcs =~= empty.funcs);
        assert(fresh.globals =~= empty.globals);
        assert(fresh.datas =~= empty.datas);
        assert(fresh.elems =~= empty.elems);
        assert(fresh.exports =~= empty.exports);
        assert(fresh.func_names =~= empty.func_names);
        assert(fresh.global_names =~= empty.global_names);
        assert(progress@.declared =~= Seq::empty());
    }
    while i < parts.len()
        invariant
            i <= parts@.len(),
            items == stream(parts@),
            after_parts(items.take(i as int), bytes@) == Ok::<Decoding, Failure>(progress@),
        decreases parts@.len() - i,
    {
        proof {
            assert(items.take(i + 1).drop_last() =~= items.take(i as int));
            assert(items.take(i + 1).last() == items[i as int]);
            if after_parts(items.take(i + 1), bytes@) is Err {
                lemma_parts_fail(items, bytes@, i + 1);
            }
        }
        match progress.take_part(&parts[i], bytes) {
            Ok(_) => {},
            Err(error) => {
                return Err(error);
            },
        }
        i = i + 1;
    }
    assert(items.take(i as int) =~= items);
    if progress.bodies != progress.declared.len() {
        let mut problem: String = "the function section declared ".to_owned();
        push_decimal(&mut problem, progress.declared.len() as u64);
        vstd::string::StringExecFns::append(&mut problem, " functions but the code section has ");
        push_decimal(&mut problem, progress.bodies as u64);
        return Err(Error::invalid(problem.as_str(), "code section"));
    }
    Ok(progress.module)
}

impl Module {
    /// Decodes a module.
    ///
    /// Fails with [`Error::Decode`] if the bytes are not a valid module, and
    /// with [`Error::Unsupported`] for a construct this version does not model.
    pub fn parse(bytes: &[u8]) -> (module: Result<Self, Error>)
        ensures
            modelled(module) == module_of(decode::payloads_of(bytes@), bytes@),
    {
        assemble(&decode::payloads(bytes), bytes)
    }
}

} // verus!
