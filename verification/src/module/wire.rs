//! What the decoder hands over, as plain values.
//!
//! The decoder is lazy: a section is a stream of entries, and a stream ends
//! early in an error where the bytes stop making sense. So every list here is a
//! list of results, and the errors are the decoder's own words.

use vstd::prelude::*;
use crate::text::pieces::texts;

verus! {

/// A list of results, each as its model.
pub open spec fn stream<T: View>(items: Seq<Result<T, String>>) -> Seq<Result<T::V, Seq<char>>> {
    items.map_values(
        |item: Result<T, String>|
            match item {
                Ok(value) => Ok(value@),
                Err(words) => Err(words@),
            },
    )
}

/// A piece of the file.
#[derive(Debug, Clone, PartialEq, Eq)]
pub enum Part {
    /// A section: the decoder's text of it, and where its contents start and
    /// end.
    Section(String, usize, usize),
    /// The start section's function.
    Start(u32),
    /// A function body: where it starts and ends.
    Body(usize, usize),
    /// A custom section: its name, and where its data starts and ends.
    Custom(String, usize, usize),
    /// Anything without contents: the header, and the end.
    Other,
}

/// What a [`Part`] is.
pub enum PartModel {
    /// A section.
    Section(Seq<char>, usize, usize),
    /// The start function.
    Start(u32),
    /// A function body.
    Body(usize, usize),
    /// A custom section.
    Custom(Seq<char>, usize, usize),
    /// Anything without contents.
    Other,
}

impl View for Part {
    type V = PartModel;

    open spec fn view(&self) -> PartModel {
        match *self {
            Part::Section(text, start, end) => PartModel::Section(text@, start, end),
            Part::Start(func) => PartModel::Start(func),
            Part::Body(start, end) => PartModel::Body(start, end),
            Part::Custom(name, start, end) => PartModel::Custom(name@, start, end),
            Part::Other => PartModel::Other,
        }
    }
}

/// The operators of a constant expression, as the decoder spells them.
#[derive(Debug, Clone, PartialEq, Eq)]
pub struct Expr {
    /// The operators, in order.
    pub operators: Vec<Result<String, String>>,
}

impl View for Expr {
    type V = Seq<Result<Seq<char>, Seq<char>>>;

    open spec fn view(&self) -> Seq<Result<Seq<char>, Seq<char>>> {
        stream(self.operators@)
    }
}

/// One type of a group.
#[derive(Debug, Clone, PartialEq, Eq)]
pub enum TypeEntry {
    /// A function type: its parameters and results, as the decoder spells them.
    Func(Vec<String>, Vec<String>),
    /// A struct, an array or a continuation.
    Other,
}

/// What a [`TypeEntry`] is.
pub enum TypeModel {
    /// A function type.
    Func(Seq<Seq<char>>, Seq<Seq<char>>),
    /// Anything else.
    Other,
}

impl View for TypeEntry {
    type V = TypeModel;

    open spec fn view(&self) -> TypeModel {
        match *self {
            TypeEntry::Func(params, results) => TypeModel::Func(texts(params@), texts(results@)),
            TypeEntry::Other => TypeModel::Other,
        }
    }
}

/// A group of types that may refer to each other.
#[derive(Debug, Clone, PartialEq, Eq)]
pub struct TypeGroup {
    /// The types, in order.
    pub types: Vec<TypeEntry>,
}

impl View for TypeGroup {
    type V = Seq<TypeModel>;

    open spec fn view(&self) -> Seq<TypeModel> {
        self.types@.map_values(|entry: TypeEntry| entry@)
    }
}

/// A memory type.
#[derive(Debug, Clone, Copy, PartialEq, Eq, Structural)]
pub struct MemoryEntry {
    /// Whether it is addressed with 64 bits.
    pub memory64: bool,
    /// Whether it is shared.
    pub shared: bool,
    /// Pages present at instantiation.
    pub initial: u64,
    /// Page ceiling, if declared.
    pub maximum: Option<u64>,
}

impl View for MemoryEntry {
    type V = MemoryEntry;

    open spec fn view(&self) -> MemoryEntry {
        *self
    }
}

/// What an import is of.
#[derive(Debug, Clone, PartialEq, Eq)]
pub enum ImportEntry {
    /// A function of that type.
    Func(u32),
    /// A memory.
    Memory(MemoryEntry),
    /// A global.
    Global,
    /// A table.
    Table,
    /// A tag.
    Tag,
    /// Something else, as the decoder spells it.
    Other(String),
}

/// What an [`ImportEntry`] is.
pub enum ImportModel {
    /// A function.
    Func(u32),
    /// A memory.
    Memory(MemoryEntry),
    /// A global.
    Global,
    /// A table.
    Table,
    /// A tag.
    Tag,
    /// Something else.
    Other(Seq<char>),
}

impl View for ImportEntry {
    type V = ImportModel;

    open spec fn view(&self) -> ImportModel {
        match *self {
            ImportEntry::Func(index) => ImportModel::Func(index),
            ImportEntry::Memory(memory) => ImportModel::Memory(memory),
            ImportEntry::Global => ImportModel::Global,
            ImportEntry::Table => ImportModel::Table,
            ImportEntry::Tag => ImportModel::Tag,
            ImportEntry::Other(text) => ImportModel::Other(text@),
        }
    }
}

/// A global: its type as the decoder spells it, whether it is mutable, and its
/// initial value.
#[derive(Debug, Clone, PartialEq, Eq)]
pub struct GlobalEntry {
    /// The type.
    pub ty: String,
    /// Whether it can be written.
    pub mutable: bool,
    /// Its initial value.
    pub init: Expr,
}

impl View for GlobalEntry {
    type V = (Seq<char>, bool, Seq<Result<Seq<char>, Seq<char>>>);

    open spec fn view(&self) -> (Seq<char>, bool, Seq<Result<Seq<char>, Seq<char>>>) {
        (self.ty@, self.mutable, self.init@)
    }
}

/// A data segment.
#[derive(Debug, Clone, PartialEq, Eq)]
pub struct DataEntry {
    /// The memory and the offset of an active segment.
    pub active: Option<(u32, Expr)>,
    /// The bytes.
    pub bytes: Vec<u8>,
    /// Where the record ends in the file, which is where the bytes end.
    pub end: usize,
}

/// What a [`DataEntry`] is.
pub struct DataModel {
    /// The memory and the offset of an active segment.
    pub active: Option<(u32, Seq<Result<Seq<char>, Seq<char>>>)>,
    /// The bytes.
    pub bytes: Seq<u8>,
    /// Where they end in the file.
    pub end: usize,
}

impl View for DataEntry {
    type V = DataModel;

    open spec fn view(&self) -> DataModel {
        DataModel {
            active: match self.active {
                Some((memory, offset)) => Some((memory, offset@)),
                None => None,
            },
            bytes: self.bytes@,
            end: self.end,
        }
    }
}

/// What an element segment lists.
#[derive(Debug, Clone, PartialEq, Eq)]
pub enum ElementItems {
    /// Function indices.
    Functions(Vec<Result<u32, String>>),
    /// Constant expressions.
    Expressions(Vec<Result<Expr, String>>),
}

/// What [`ElementItems`] are.
pub enum ItemsModel {
    /// Function indices.
    Functions(Seq<Result<u32, Seq<char>>>),
    /// Constant expressions.
    Expressions(Seq<Result<Seq<Result<Seq<char>, Seq<char>>>, Seq<char>>>),
}

impl View for ElementItems {
    type V = ItemsModel;

    open spec fn view(&self) -> ItemsModel {
        match *self {
            ElementItems::Functions(items) => ItemsModel::Functions(stream(items@)),
            ElementItems::Expressions(items) => ItemsModel::Expressions(stream(items@)),
        }
    }
}

/// An element segment.
#[derive(Debug, Clone, PartialEq, Eq)]
pub struct ElementEntry {
    /// The offset of an active segment.
    pub offset: Option<Expr>,
    /// What it lists.
    pub items: ElementItems,
}

impl View for ElementEntry {
    type V = (Option<Seq<Result<Seq<char>, Seq<char>>>>, ItemsModel);

    open spec fn view(&self) -> (Option<Seq<Result<Seq<char>, Seq<char>>>>, ItemsModel) {
        (
            match self.offset {
                Some(offset) => Some(offset@),
                None => None,
            },
            self.items@,
        )
    }
}

/// Where the list of an element segment stands in the file.
#[derive(Debug)]
pub enum ItemsPlace {
    /// A list of function indices.
    Functions(core::ops::Range<usize>),
    /// A list of constant expressions.
    Expressions(core::ops::Range<usize>),
}

/// Where the parts of an element segment stand in the file.
#[derive(Debug)]
pub struct ElementPlace {
    /// The offset of an active segment.
    pub offset: Option<core::ops::Range<usize>>,
    /// What it lists.
    pub items: ItemsPlace,
}

/// What an [`ElementPlace`] is: ranges as pairs of offsets.
pub struct ElementRanges {
    /// The offset of an active segment.
    pub offset: Option<(usize, usize)>,
    /// Whether it lists constant expressions rather than function indices.
    pub expressions: bool,
    /// The list.
    pub items: (usize, usize),
}

impl View for ElementPlace {
    type V = ElementRanges;

    open spec fn view(&self) -> ElementRanges {
        ElementRanges {
            offset: match self.offset {
                Some(range) => Some((range.start, range.end)),
                None => None,
            },
            expressions: self.items is Expressions,
            items: match self.items {
                ItemsPlace::Functions(range) => (range.start, range.end),
                ItemsPlace::Expressions(range) => (range.start, range.end),
            },
        }
    }
}

/// Which kind of names a subsection holds.
#[derive(Debug, Clone, Copy, PartialEq, Eq, Structural)]
pub enum NameKind {
    /// Function names.
    Function,
    /// Global names.
    Global,
    /// Any other.
    Other,
}

/// A subsection of the name section.
#[derive(Debug, Clone, PartialEq, Eq)]
pub struct NameEntry {
    /// Which names it holds.
    pub kind: NameKind,
    /// The names, by index.
    pub names: Vec<Result<(u32, String), String>>,
}

impl View for NameEntry {
    type V = (NameKind, Seq<Result<(u32, Seq<char>), Seq<char>>>);

    open spec fn view(&self) -> (NameKind, Seq<Result<(u32, Seq<char>), Seq<char>>>) {
        (self.kind, stream(self.names@))
    }
}

} // verus!
