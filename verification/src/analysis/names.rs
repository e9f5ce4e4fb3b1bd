//! Names for unnamed functions, from what they say about themselves.

use vstd::prelude::*;
use vstd::string::StringExecFns;
use std::collections::BTreeMap;
use crate::analysis::placement::{message_at, placed_text, Placement};
use crate::module::types::{Func, ImportedFunc, Module, Op};
use crate::text::order::{comes_before, is_before};
use crate::text::pieces::{chars_of, holds, same_text, text_holds, text_of, texts};
use crate::text::table::{lemma_ordered, ordered, TextMap};

verus! {

/// How a name was arrived at.
#[derive(Debug, Clone, Copy, PartialEq, Eq, Structural)]
pub enum NameSource {
    /// From `__assert_fail(expr, file, line, func)`, whose last argument is
    /// literally `__func__`. This is the compiler naming the function, so it beats
    /// everything else.
    Assert,
    /// From a message the function logs.
    Message {
        /// How many times this function references it. A message it logs eleven
        /// times is about this function; one it logs once is often about a callee
        /// that failed.
        references: usize,
        /// Whether no other function references it too.
        unique: bool,
    },
}

/// A name guessed for a function from a string it references.
///
/// A stripped module has no name section and no mangled symbols, but its data
/// segments are full of messages that name the code that logs them. This is a
/// hypothesis with a reason attached, not a symbol table.
#[derive(Debug, Clone, PartialEq, Eq)]
pub struct DerivedName {
    /// The identifier taken out of the message.
    pub name: String,
    /// The message it came from, in full.
    pub evidence: String,
    /// Where the name came from, which is how much to trust it.
    pub source: NameSource,
    /// The names that lost. A function built out of several inlined ones
    /// references all of their messages, so the runners-up are worth seeing.
    pub rejected: Vec<String>,
}

/// A guessed name, as plain values.
pub struct DerivedNameModel {
    /// The identifier.
    pub name: Seq<char>,
    /// The message it came from.
    pub evidence: Seq<char>,
    /// Where the name came from.
    pub source: NameSource,
    /// The names that lost.
    pub rejected: Seq<Seq<char>>,
}

impl View for DerivedName {
    type V = DerivedNameModel;

    open spec fn view(&self) -> DerivedNameModel {
        DerivedNameModel {
            name: self.name@,
            evidence: self.evidence@,
            source: self.source,
            rejected: texts(self.rejected@),
        }
    }
}

// ---- identifiers ----

/// Whether a character is an ASCII lower-case letter.
pub open spec fn lower(ch: char) -> bool {
    'a' <= ch <= 'z'
}

/// Whether a character is an ASCII letter.
pub open spec fn letter(ch: char) -> bool {
    lower(ch) || 'A' <= ch <= 'Z'
}

/// Whether a character is an ASCII digit.
pub open spec fn digit(ch: char) -> bool {
    '0' <= ch <= '9'
}

/// Whether text is a plain C identifier, as `__func__` always is.
pub open spec fn c_identifier(text: Seq<char>) -> bool {
    &&& 0 < text.len() <= 120
    &&& letter(text[0]) || text[0] == '_'
    &&& forall|i: int|
        0 <= i < text.len() ==> letter(#[trigger] text[i]) || digit(text[i]) || text[i] == '_'
}

/// Whether a character ends the identifier a message starts with.
pub open spec fn separates(ch: char) -> bool {
    ch == ':' || ch == ' ' || ch == '(' || ch == ','
}

/// Where the first word of a message ends, from a position on.
pub open spec fn word_end(text: Seq<char>, at: int) -> int
    decreases text.len() - at,
{
    if 0 <= at < text.len() && !separates(text[at]) {
        word_end(text, at + 1)
    } else {
        at
    }
}

/// Whether a character may stand in the name a message starts with.
pub open spec fn in_name(ch: char) -> bool {
    lower(ch) || digit(ch) || ch == '_'
}

/// Whether a word looks like a function's name: lower case with an underscore, and
/// neither short nor long.
pub open spec fn function_name(word: Seq<char>) -> bool {
    &&& 6 <= word.len() <= 60
    &&& lower(word[0])
    &&& exists|i: int| 0 <= i < word.len() && #[trigger] word[i] == '_'
    &&& forall|i: int| 0 <= i < word.len() ==> in_name(#[trigger] word[i])
}

/// The function name a log message starts with, if it starts with one. A module
/// path is not a function name: what stands before `::` does not count.
pub open spec fn identifier_of(text: Seq<char>) -> Option<Seq<char>> {
    let end = word_end(text, 0);
    let word = text.take(end);
    if end + 1 < text.len() && text[end] == ':' && text[end + 1] == ':' {
        None
    } else if function_name(word) {
        Some(word)
    } else {
        None
    }
}

/// The first word of a message ends inside it.
proof fn lemma_word_end(text: Seq<char>, at: int)
    requires
        0 <= at <= text.len(),
    ensures
        at <= word_end(text, at) <= text.len(),
    decreases text.len() - at,
{
    if at < text.len() && !separates(text[at]) {
        lemma_word_end(text, at + 1);
    }
}

/// Whether text is a plain C identifier, as `__func__` always is.
pub fn is_c_identifier(text: &str) -> (yes: bool)
    ensures
        yes == c_identifier(text@),
{
    let chars: Vec<char> = chars_of(text);
    if chars.len() == 0 || chars.len() > 120 {
        return false;
    }
    let mut i: usize = 0;
    while i < chars.len()
        invariant
            chars@ == text@,
            0 < chars@.len() <= 120,
            i <= chars@.len(),
            i > 0 ==> letter(text@[0]) || text@[0] == '_',
            forall|j: int|
                0 <= j < i ==> letter(#[trigger] text@[j]) || digit(text@[j]) || text@[j] == '_',
        decreases chars@.len() - i,
    {
        let ch: char = chars[i];
        let starts: bool = ('a' <= ch && ch <= 'z') || ('A' <= ch && ch <= 'Z') || ch == '_';
        if !(starts || (i > 0 && '0' <= ch && ch <= '9')) {
            assert(!(letter(text@[i as int]) || text@[i as int] == '_'));
            return false;
        }
        i = i + 1;
    }
    true
}

/// The function name a log message starts with, if it starts with one.
pub fn identifier_in(text: &str) -> (name: Option<String>)
    ensures
        match name {
            Some(name) => identifier_of(text@) == Some(name@),
            None => identifier_of(text@) is None,
        },
{
    let chars: Vec<char> = chars_of(text);
    let mut end: usize = 0;
    let mut shaped: bool = true;
    let mut underscore: bool = false;
    proof {
        lemma_word_end(text@, 0);
    }
    while end < chars.len() && !(chars[end] == ':' || chars[end] == ' ' || chars[end] == '('
        || chars[end] == ',')
        invariant
            chars@ == text@,
            end <= chars@.len(),
            word_end(text@, 0) == word_end(text@, end as int),
            shaped == forall|j: int| 0 <= j < end ==> in_name(#[trigger] text@[j]),
            underscore == exists|j: int| 0 <= j < end && #[trigger] text@[j] == '_',
        decreases chars@.len() - end,
    {
        let ch: char = chars[end];
        let ghost had = underscore;
        let ghost was = shaped;
        if !(('a' <= ch && ch <= 'z') || ('0' <= ch && ch <= '9') || ch == '_') {
            shaped = false;
        }
        if ch == '_' {
            underscore = true;
        }
        proof {
            assert(text@[end as int] == ch);
            if !in_name(ch) {
                assert(!in_name(text@[end as int]));
            }
            if !was {
                let j = choose|j: int| 0 <= j < end && !in_name(#[trigger] text@[j]);
                assert(!in_name(text@[j]));
            }
            if had {
                let j = choose|j: int| 0 <= j < end && #[trigger] text@[j] == '_';
                assert(text@[j] == '_');
            }
            assert(shaped == forall|j: int| 0 <= j < end + 1 ==> in_name(#[trigger] text@[j]));
        }
        end = end + 1;
    }
    let ghost word = text@.take(end as int);
    proof {
        assert(forall|j: int| 0 <= j < end ==> #[trigger] word[j] == text@[j]);
        if underscore {
            let j = choose|j: int| 0 <= j < end && #[trigger] text@[j] == '_';
            assert(word[j] == '_');
        }
        if !shaped {
            let j = choose|j: int| 0 <= j < end && !in_name(#[trigger] text@[j]);
            assert(!in_name(word[j]));
        }
        assert(text@.subrange(0, end as int) =~= word);
    }
    if chars.len() - end > 1 && chars[end] == ':' && chars[end + 1] == ':' {
        return None;
    }
    if 6 <= end && end <= 60 && shaped && underscore && 'a' <= chars[0] && chars[0] <= 'z' {
        Some(text_of(&chars, 0, end))
    } else {
        None
    }
}

// ---- what a function references ----

/// The text an instruction references: a constant that is the address of text,
/// with the length that follows it or up to a NUL. The address that a
/// `memory.init` copies to is a placement and no reference.
pub open spec fn text_pushed(
    module: &Module,
    placements: Map<u32, Placement>,
    body: Seq<Op>,
    at: int,
) -> Option<Seq<char>> {
    if body[at] is I32Const && !(at + 3 < body.len() && body[at + 3] is MemoryInit) {
        let address = body[at]->I32Const_0;
        let bounded = if at + 1 < body.len() && body[at + 1] is I32Const
            && body[at + 1]->I32Const_0 > 0 {
            message_at(module, placements, address, Some(body[at + 1]->I32Const_0 as usize))
        } else {
            None
        };
        match bounded {
            Some(text) => Some(text),
            None => message_at(module, placements, address, None),
        }
    } else {
        None
    }
}

/// Whether an instruction references a message that starts with a function's name.
pub open spec fn logs(
    module: &Module,
    placements: Map<u32, Placement>,
    body: Seq<Op>,
    at: int,
    text: Seq<char>,
) -> bool {
    text_pushed(module, placements, body, at) == Some(text) && identifier_of(text) is Some
}

/// How many of the first `n` instructions reference a message.
pub open spec fn references(
    module: &Module,
    placements: Map<u32, Placement>,
    body: Seq<Op>,
    text: Seq<char>,
    n: int,
) -> nat
    decreases n,
{
    if n <= 0 {
        0
    } else {
        references(module, placements, body, text, n - 1) + if logs(
            module,
            placements,
            body,
            n - 1,
            text,
        ) {
            1nat
        } else {
            0
        }
    }
}

/// The messages a body references, and how often.
pub open spec fn messages_of(
    module: &Module,
    placements: Map<u32, Placement>,
    body: Seq<Op>,
) -> Map<Seq<char>, usize> {
    Map::new(
        |text: Seq<char>| references(module, placements, body, text, body.len() as int) > 0,
        |text: Seq<char>|
            references(module, placements, body, text, body.len() as int) as usize,
    )
}

/// How many functions reference a message at all.
pub open spec fn owners(
    module: &Module,
    placements: Map<u32, Placement>,
    funcs: Seq<Func>,
    text: Seq<char>,
) -> nat
    decreases funcs.len(),
{
    if funcs.len() == 0 {
        0
    } else {
        owners(module, placements, funcs.drop_last(), text) + if messages_of(
            module,
            placements,
            funcs.last().body@,
        ).contains_key(text) {
            1nat
        } else {
            0
        }
    }
}

/// The messages of a module, and how many functions reference each.
pub open spec fn owners_of(
    module: &Module,
    placements: Map<u32, Placement>,
    funcs: Seq<Func>,
) -> Map<Seq<char>, usize> {
    Map::new(
        |text: Seq<char>| owners(module, placements, funcs, text) > 0,
        |text: Seq<char>| owners(module, placements, funcs, text) as usize,
    )
}

// ---- the best names ----

/// A name that a message offers, as plain values.
pub struct CandidateModel {
    /// The name.
    pub name: Seq<char>,
    /// The message.
    pub text: Seq<char>,
    /// How many times the function references it.
    pub references: usize,
    /// Whether no other function does.
    pub unique: bool,
}

/// Whether a name goes before another: the message is referenced more often, then
/// it is nobody else's, then the name is longer, then it comes first in order.
pub open spec fn outranks(a: CandidateModel, b: CandidateModel) -> bool {
    if a.references != b.references {
        a.references > b.references
    } else if a.unique != b.unique {
        a.unique
    } else if a.name.len() != b.name.len() {
        a.name.len() > b.name.len()
    } else {
        comes_before(a.name, b.name)
    }
}

/// What a message offers. Referenced once, by more than one function, there is
/// nothing to tell those functions apart.
pub open spec fn offer(text: Seq<char>, references: usize, owners: Map<Seq<char>, usize>) -> Option<
    CandidateModel,
> {
    let unique = !owners.contains_key(text) || owners[text] <= 1;
    match identifier_of(text) {
        Some(name) => if references == 1 && !unique {
            None
        } else {
            Some(CandidateModel { name, text, references, unique })
        },
        None => None,
    }
}

/// A ranked list with one more name: after all that it does not outrank.
pub open spec fn ranked_with(list: Seq<CandidateModel>, candidate: CandidateModel) -> Seq<
    CandidateModel,
>
    decreases list.len(),
{
    if list.len() > 0 && outranks(candidate, list.last()) {
        ranked_with(list.drop_last(), candidate).push(list.last())
    } else {
        list.push(candidate)
    }
}

/// What messages offer, ranked; of two that rank the same, the message that was
/// first stays first.
pub open spec fn ranked(
    keys: Seq<Seq<char>>,
    messages: Map<Seq<char>, usize>,
    owners: Map<Seq<char>, usize>,
) -> Seq<CandidateModel>
    decreases keys.len(),
{
    if keys.len() == 0 {
        Seq::empty()
    } else {
        let before = ranked(keys.drop_last(), messages, owners);
        match offer(keys.last(), messages[keys.last()], owners) {
            Some(candidate) => ranked_with(before, candidate),
            None => before,
        }
    }
}

/// Whether a list has a name.
pub open spec fn has_name(list: Seq<CandidateModel>, name: Seq<char>) -> bool {
    exists|i: int| 0 <= i < list.len() && (#[trigger] list[i]).name == name
}

/// A list with only the first of each name.
pub open spec fn first_of_each(list: Seq<CandidateModel>) -> Seq<CandidateModel>
    decreases list.len(),
{
    if list.len() == 0 {
        Seq::empty()
    } else {
        let before = first_of_each(list.drop_last());
        if has_name(before, list.last().name) {
            before
        } else {
            before.push(list.last())
        }
    }
}

/// The best candidate names that messages offer, strongest first.
pub open spec fn best(
    messages: Map<Seq<char>, usize>,
    owners: Map<Seq<char>, usize>,
    most: nat,
) -> Seq<CandidateModel> {
    let list = first_of_each(ranked(ordered(messages.dom()), messages, owners));
    if most < list.len() {
        list.take(most as int)
    } else {
        list
    }
}

/// The names of a list.
pub open spec fn names_of(list: Seq<CandidateModel>) -> Seq<Seq<char>> {
    list.map_values(|candidate: CandidateModel| candidate.name)
}

/// The names of a list but one.
pub open spec fn names_but(list: Seq<CandidateModel>, name: Seq<char>) -> Seq<Seq<char>>
    decreases list.len(),
{
    if list.len() == 0 {
        Seq::empty()
    } else {
        let before = names_but(list.drop_last(), name);
        if list.last().name == name {
            before
        } else {
            before.push(list.last().name)
        }
    }
}

// ---- what an assertion says ----

/// Whether an import is the first whose field says it reports a failed assertion.
pub open spec fn is_assert_fail(imports: Seq<ImportedFunc>, i: int) -> bool {
    &&& 0 <= i < imports.len()
    &&& holds(imports[i].field@, "assert_fail"@)
    &&& forall|j: int| 0 <= j < i ==> !holds((#[trigger] imports[j]).field@, "assert_fail"@)
}

/// The name a call of the assertion report at a position carries: its last
/// argument, a constant that is the address of an identifier.
pub open spec fn name_asserted(
    module: &Module,
    placements: Map<u32, Placement>,
    body: Seq<Op>,
    at: int,
) -> Option<Seq<char>> {
    if 0 < at < body.len() && body[at] is Call && is_assert_fail(
        module.func_imports@,
        body[at]->Call_0 as int,
    ) && body[at - 1] is I32Const {
        match message_at(module, placements, body[at - 1]->I32Const_0, None) {
            Some(text) => if c_identifier(text) {
                Some(text)
            } else {
                None
            },
            None => None,
        }
    } else {
        None
    }
}

/// The first name that one of the first `n` instructions asserts.
pub open spec fn asserted(
    module: &Module,
    placements: Map<u32, Placement>,
    body: Seq<Op>,
    n: int,
) -> Option<Seq<char>>
    decreases n,
{
    if n <= 0 {
        None
    } else {
        match asserted(module, placements, body, n - 1) {
            Some(name) => Some(name),
            None => name_asserted(module, placements, body, n - 1),
        }
    }
}

/// Whether the module names a function itself.
pub open spec fn named(module: &Module, index: u32) -> bool {
    exists|j: int| 0 <= j < module.func_names@.len() && (#[trigger] module.func_names@[j]).0 == index
}

/// The name guessed for the `at`th function defined here.
pub open spec fn derived_name(
    module: &Module,
    placements: Map<u32, Placement>,
    at: int,
) -> Option<DerivedNameModel> {
    let body = module.funcs@[at].body@;
    let messages = messages_of(module, placements, body);
    let owners = owners_of(module, placements, module.funcs@);
    if named(module, (module.func_imports@.len() + at) as u32) {
        None
    } else {
        match asserted(module, placements, body, body.len() as int) {
            Some(name) => Some(
                DerivedNameModel {
                    name,
                    evidence: "__assert_fail(.., \""@ + name + "\")"@,
                    source: NameSource::Assert,
                    rejected: names_but(best(messages, owners, 3), name),
                },
            ),
            None => {
                let list = best(messages, owners, 4);
                if list.len() == 0 {
                    None
                } else {
                    Some(
                        DerivedNameModel {
                            name: list[0].name,
                            evidence: list[0].text,
                            source: NameSource::Message {
                                references: list[0].references,
                                unique: list[0].unique,
                            },
                            rejected: names_of(list.drop_first()),
                        },
                    )
                }
            },
        }
    }
}

/// Whether a map holds the name guessed for each function that one is guessed for.
pub open spec fn are_derived_names(
    map: Map<u32, DerivedName>,
    module: &Module,
    placements: Map<u32, Placement>,
) -> bool {
    forall|index: u32|
        match index_in(module, index) {
            Some(at) => (#[trigger] map.contains_key(index)) == derived_name(module, placements, at)
                is Some && (map.contains_key(index) ==> derived_name(module, placements, at) == Some(
                map[index]@,
            )),
            None => !map.contains_key(index),
        }
}

/// Which of the functions defined here an index means.
pub open spec fn index_in(module: &Module, index: u32) -> Option<int> {
    let at = index - module.func_imports@.len();
    if 0 <= at < module.funcs@.len() {
        Some(at)
    } else {
        None
    }
}

// ---- reading them ----

/// The text an instruction references.
fn read_pushed(
    module: &Module,
    placements: &BTreeMap<u32, Placement>,
    body: &Vec<Op>,
    at: usize,
) -> (text: Option<String>)
    requires
        at < body@.len(),
    ensures
        match text {
            Some(text) => text_pushed(module, placements@, body@, at as int) == Some(text@),
            None => text_pushed(module, placements@, body@, at as int) is None,
        },
{
    let address: i32 = match &body[at] {
        Op::I32Const(address) => *address,
        _ => {
            return None;
        },
    };
    if body.len() - at > 3 {
        match &body[at + 3] {
            Op::MemoryInit(_) => {
                return None;
            },
            _ => {},
        }
    }
    if body.len() - at > 1 {
        match &body[at + 1] {
            Op::I32Const(length) => {
                if *length > 0 {
                    match placed_text(module, placements, address, Some(*length as u32)) {
                        Some(text) => {
                            return Some(text);
                        },
                        None => {},
                    }
                }
            },
            _ => {},
        }
    }
    placed_text(module, placements, address, None)
}

/// No more instructions reference a message than there are.
proof fn lemma_references(
    module: &Module,
    placements: Map<u32, Placement>,
    body: Seq<Op>,
    text: Seq<char>,
    n: int,
)
    requires
        0 <= n,
    ensures
        references(module, placements, body, text, n) <= n,
    decreases n,
{
    if n > 0 {
        lemma_references(module, placements, body, text, n - 1);
    }
}

/// Counts the messages a body references.
fn read_messages(
    module: &Module,
    placements: &BTreeMap<u32, Placement>,
    body: &Vec<Op>,
) -> (messages: TextMap<usize>)
    ensures
        messages.wf(),
        messages@ == messages_of(module, placements@, body@),
{
    let mut messages: TextMap<usize> = TextMap::new();
    let mut at: usize = 0;
    while at < body.len()
        invariant
            at <= body@.len(),
            messages.wf(),
            forall|text: Seq<char>| #[trigger]
                messages@.contains_key(text) == (references(
                    module,
                    placements@,
                    body@,
                    text,
                    at as int,
                ) > 0),
            forall|text: Seq<char>| #[trigger]
                messages@.contains_key(text) ==> messages@[text] == references(
                    module,
                    placements@,
                    body@,
                    text,
                    at as int,
                ),
        decreases body@.len() - at,
    {
        let ghost had = messages@;
        match read_pushed(module, placements, body, at) {
            Some(text) => {
                let logged: bool = identifier_in(text.as_str()).is_some();
                if logged {
                    proof {
                        lemma_references(module, placements@, body@, text@, at as int);
                    }
                    let count: usize = match messages.get(text.as_str()) {
                        Some(count) => *count,
                        None => 0,
                    };
                    messages.insert(text, count + 1);
                }
            },
            None => {},
        }
        proof {
            assert forall|text: Seq<char>| #[trigger]
                messages@.contains_key(text) == (references(
                    module,
                    placements@,
                    body@,
                    text,
                    at + 1,
                ) > 0) by {
                assert(had.contains_key(text) == (references(
                    module,
                    placements@,
                    body@,
                    text,
                    at as int,
                ) > 0));
            }
            assert forall|text: Seq<char>| #[trigger]
                messages@.contains_key(text) implies messages@[text] == references(
                module,
                placements@,
                body@,
                text,
                at + 1,
            ) by {
                assert(had.contains_key(text) == (references(
                    module,
                    placements@,
                    body@,
                    text,
                    at as int,
                ) > 0));
            }
        }
        at = at + 1;
    }
    assert(messages@ =~= messages_of(module, placements@, body@));
    messages
}

/// No more functions reference a message than there are.
proof fn lemma_owners(
    module: &Module,
    placements: Map<u32, Placement>,
    funcs: Seq<Func>,
    text: Seq<char>,
)
    ensures
        owners(module, placements, funcs, text) <= funcs.len(),
    decreases funcs.len(),
{
    if funcs.len() > 0 {
        lemma_owners(module, placements, funcs.drop_last(), text);
    }
}

/// The count a map has for a text, or zero.
spec fn counted(map: Map<Seq<char>, usize>, text: Seq<char>) -> nat {
    if map.contains_key(text) {
        map[text] as nat
    } else {
        0
    }
}

/// Counts one more for each key of a map.
fn count_keys(counts: &mut TextMap<usize>, messages: &TextMap<usize>)
    requires
        old(counts).wf(),
        messages.wf(),
        forall|text: Seq<char>| #[trigger] counted(old(counts)@, text) < usize::MAX,
        forall|text: Seq<char>| #[trigger]
            old(counts)@.contains_key(text) ==> old(counts)@[text] > 0,
    ensures
        final(counts).wf(),
        forall|text: Seq<char>| #[trigger]
            counted(final(counts)@, text) == counted(old(counts)@, text)
                + if messages@.contains_key(text) {
                1nat
            } else {
                0
            },
        forall|text: Seq<char>| #[trigger]
            final(counts)@.contains_key(text) ==> final(counts)@[text] > 0,
{
    let ghost before = counts@;
    let ghost keys = messages.keys();
    proof {
        messages.lemma_shape();
    }
    let mut i: usize = 0;
    while i < messages.len()
        invariant
            counts.wf(),
            messages.wf(),
            i <= keys.len(),
            keys == messages.keys(),
            keys.no_duplicates(),
            forall|text: Seq<char>| #[trigger] counted(before, text) < usize::MAX,
            forall|text: Seq<char>| #[trigger]
                counted(counts@, text) == counted(before, text) + if keys.take(i as int).contains(
                    text,
                ) {
                    1nat
                } else {
                    0
                },
            forall|text: Seq<char>| #[trigger]
                counts@.contains_key(text) ==> counts@[text] > 0,
        decreases keys.len() - i,
    {
        let key: &String = messages.key_at(i);
        let ghost had = counts@;
        proof {
            if keys.take(i as int).contains(key@) {
                let j = choose|j: int| 0 <= j < i && keys.take(i as int)[j] == key@;
                assert(keys[j] == keys[i as int]);
            }
            assert(counted(before, key@) < usize::MAX);
            assert(counted(had, key@) == counted(before, key@));
        }
        let count: usize = match counts.get(key.as_str()) {
            Some(count) => *count,
            None => 0,
        };
        counts.insert(key.clone(), count + 1);
        proof {
            let done = keys.take(i as int);
            let next = keys.take(i + 1);
            assert forall|text: Seq<char>| #[trigger]
                counted(counts@, text) == counted(before, text) + if next.contains(text) {
                    1nat
                } else {
                    0
                } by {
                assert(counted(had, text) == counted(before, text) + if done.contains(text) {
                    1nat
                } else {
                    0
                });
                if done.contains(text) {
                    let j = choose|j: int| 0 <= j < done.len() && done[j] == text;
                    assert(next[j] == text);
                }
                assert(next[i as int] == key@);
                if next.contains(text) {
                    let j = choose|j: int| 0 <= j < next.len() && next[j] == text;
                    if j < i {
                        assert(done[j] == text);
                    }
                }
            }
        }
        i = i + 1;
    }
    assert(keys.take(i as int) =~= keys);
}

/// Counts how many functions reference each message.
fn read_owners(
    module: &Module,
    placements: &BTreeMap<u32, Placement>,
    all: &Vec<TextMap<usize>>,
) -> (counts: TextMap<usize>)
    requires
        all@.len() == module.funcs@.len(),
        forall|i: int|
            0 <= i < all@.len() ==> (#[trigger] all@[i]).wf() && all@[i]@ == messages_of(
                module,
                placements@,
                module.funcs@[i].body@,
            ),
    ensures
        counts.wf(),
        counts@ == owners_of(module, placements@, module.funcs@),
{
    let mut counts: TextMap<usize> = TextMap::new();
    let mut i: usize = 0;
    assert(module.funcs@.take(0) =~= Seq::empty());
    while i < all.len()
        invariant
            i <= all@.len(),
            all@.len() == module.funcs@.len(),
            forall|i: int|
                0 <= i < all@.len() ==> (#[trigger] all@[i]).wf() && all@[i]@ == messages_of(
                    module,
                    placements@,
                    module.funcs@[i].body@,
                ),
            counts.wf(),
            forall|text: Seq<char>| #[trigger]
                counted(counts@, text) == owners(
                    module,
                    placements@,
                    module.funcs@.take(i as int),
                    text,
                ),
            forall|text: Seq<char>| #[trigger]
                counts@.contains_key(text) ==> counts@[text] > 0,
        decreases all@.len() - i,
    {
        let ghost done = module.funcs@.take(i as int);
        let ghost next = module.funcs@.take(i + 1);
        proof {
            assert(next.drop_last() =~= done);
            assert(next.last() == module.funcs@[i as int]);
            assert forall|text: Seq<char>| #[trigger] counted(counts@, text) < usize::MAX by {
                lemma_owners(module, placements@, done, text);
            }
        }
        count_keys(&mut counts, &all[i]);
        i = i + 1;
    }
    proof {
        assert(module.funcs@.take(i as int) =~= module.funcs@);
        assert forall|text: Seq<char>| #[trigger]
            counts@.contains_key(text) == owners_of(
                module,
                placements@,
                module.funcs@,
            ).contains_key(text) by {
            assert(counted(counts@, text) == owners(module, placements@, module.funcs@, text));
        }
        assert forall|text: Seq<char>| #[trigger]
            counts@.contains_key(text) implies counts@[text] == owners_of(
            module,
            placements@,
            module.funcs@,
        )[text] by {
            assert(counted(counts@, text) == owners(module, placements@, module.funcs@, text));
        }
        assert(counts@ =~= owners_of(module, placements@, module.funcs@));
    }
    counts
}

/// A name that a message offers.
pub struct Candidate {
    /// The name.
    pub name: String,
    /// The message.
    pub text: String,
    /// How many times the function references it.
    pub references: usize,
    /// Whether no other function does.
    pub unique: bool,
}

impl View for Candidate {
    type V = CandidateModel;

    open spec fn view(&self) -> CandidateModel {
        CandidateModel {
            name: self.name@,
            text: self.text@,
            references: self.references,
            unique: self.unique,
        }
    }
}

/// Candidates, as plain values.
pub open spec fn models(list: Seq<Candidate>) -> Seq<CandidateModel> {
    list.map_values(|candidate: Candidate| candidate@)
}

fn goes_before(a: &Candidate, b: &Candidate) -> (yes: bool)
    ensures
        yes == outranks(a@, b@),
{
    if a.references != b.references {
        return a.references > b.references;
    }
    if a.unique != b.unique {
        return a.unique;
    }
    let left: usize = chars_of(a.name.as_str()).len();
    let right: usize = chars_of(b.name.as_str()).len();
    if left != right {
        return left > right;
    }
    is_before(a.name.as_str(), b.name.as_str())
}

/// Where a name is inserted in a ranked list.
proof fn lemma_ranked_with(list: Seq<CandidateModel>, candidate: CandidateModel, at: int)
    requires
        0 <= at <= list.len(),
        at == 0 || !outranks(candidate, list[at - 1]),
        forall|i: int| at <= i < list.len() ==> outranks(candidate, #[trigger] list[i]),
    ensures
        ranked_with(list, candidate) == list.insert(at, candidate),
    decreases list.len(),
{
    if at < list.len() {
        assert(outranks(candidate, list[list.len() - 1]));
        let less = list.drop_last();
        assert forall|i: int| at <= i < less.len() implies outranks(
            candidate,
            #[trigger] less[i],
        ) by {
            assert(outranks(candidate, list[i]));
        }
        lemma_ranked_with(less, candidate, at);
        assert(less.insert(at, candidate).push(list.last()) =~= list.insert(at, candidate));
    } else {
        assert(list.insert(at, candidate) =~= list.push(candidate));
    }
}

/// Inserts a name in a ranked list.
fn insert_ranked(list: &mut Vec<Candidate>, candidate: Candidate)
    ensures
        models(final(list)@) == ranked_with(models(old(list)@), candidate@),
{
    let ghost before = models(list@);
    let mut at: usize = list.len();
    while at > 0 && goes_before(&candidate, &list[at - 1])
        invariant
            at <= list@.len(),
            before == models(list@),
            forall|i: int| at <= i < before.len() ==> outranks(candidate@, #[trigger] before[i]),
        decreases at,
    {
        assert(before[at - 1] == list@[at - 1]@);
        at = at - 1;
    }
    proof {
        if at > 0 {
            assert(before[at - 1] == list@[at - 1]@);
        }
        lemma_ranked_with(before, candidate@, at as int);
    }
    let ghost model = candidate@;
    list.insert(at, candidate);
    assert(models(list@) =~= before.insert(at as int, model));
}

/// Whether a list has a name.
fn list_has(list: &Vec<Candidate>, name: &str) -> (yes: bool)
    ensures
        yes == has_name(models(list@), name@),
{
    let ghost all = models(list@);
    let mut i: usize = 0;
    while i < list.len()
        invariant
            i <= list@.len(),
            all == models(list@),
            forall|j: int| 0 <= j < i ==> (#[trigger] all[j]).name != name@,
        decreases list@.len() - i,
    {
        assert(all[i as int] == list@[i as int]@);
        if same_text(list[i].name.as_str(), name) {
            return true;
        }
        i = i + 1;
    }
    false
}

/// A copy of a candidate.
fn copy_of(candidate: &Candidate) -> (copy: Candidate)
    ensures
        copy@ == candidate@,
{
    Candidate {
        name: candidate.name.clone(),
        text: candidate.text.clone(),
        references: candidate.references,
        unique: candidate.unique,
    }
}

/// The best candidate names a function's messages offer, strongest first.
///
/// Ordered by how often the function references the message, then by whether
/// anything else references it, then by how specific the identifier is. The first
/// of those is what tells a message about this function from a message about
/// something it called. Messages that offer the same name count once.
pub fn best_messages(messages: &TextMap<usize>, owners: &TextMap<usize>, most: usize) -> (list: Vec<
    Candidate,
>)
    requires
        messages.wf(),
        owners.wf(),
    ensures
        models(list@) == best(messages@, owners@, most as nat),
{
    let ghost keys = messages.keys();
    let ghost counts = messages@;
    proof {
        messages.lemma_shape();
        assert forall|key: Seq<char>| #[trigger]
            keys.contains(key) == messages@.dom().contains(key) by {
            assert(messages@.contains_key(key) == keys.contains(key));
        }
        lemma_ordered(keys, messages@.dom());
    }
    let mut candidates: Vec<Candidate> = Vec::new();
    let mut i: usize = 0;
    assert(keys.take(0) =~= Seq::empty());
    assert(models(candidates@) =~= Seq::empty());
    while i < messages.len()
        invariant
            messages.wf(),
            owners.wf(),
            keys == messages.keys(),
            counts == messages@,
            i <= keys.len(),
            keys.len() == messages.values().len(),
            forall|i: int|
                0 <= i < keys.len() ==> messages@[#[trigger] keys[i]] == messages.values()[i],
            models(candidates@) == ranked(keys.take(i as int), counts, owners@),
        decreases keys.len() - i,
    {
        let text: &String = messages.key_at(i);
        let references: usize = *messages.value_at(i);
        proof {
            assert(keys.take(i + 1).drop_last() =~= keys.take(i as int));
            assert(keys.take(i + 1).last() == keys[i as int]);
        }
        let unique: bool = match owners.get(text.as_str()) {
            Some(count) => *count <= 1,
            None => true,
        };
        match identifier_in(text.as_str()) {
            Some(name) => {
                if !(references == 1 && !unique) {
                    insert_ranked(
                        &mut candidates,
                        Candidate { name, text: text.clone(), references, unique },
                    );
                }
            },
            None => {},
        }
        i = i + 1;
    }
    assert(keys.take(i as int) =~= keys);
    let ghost all = models(candidates@);
    let mut list: Vec<Candidate> = Vec::new();
    let mut k: usize = 0;
    assert(all.take(0) =~= Seq::empty());
    assert(models(list@) =~= Seq::empty());
    while k < candidates.len()
        invariant
            k <= candidates@.len(),
            all == models(candidates@),
            models(list@) == first_of_each(all.take(k as int)),
        decreases candidates@.len() - k,
    {
        let ghost before = models(list@);
        proof {
            assert(all.take(k + 1).drop_last() =~= all.take(k as int));
            assert(all.take(k + 1).last() == candidates@[k as int]@);
        }
        if !list_has(&list, candidates[k].name.as_str()) {
            list.push(copy_of(&candidates[k]));
            assert(models(list@) =~= before.push(candidates@[k as int]@));
        }
        k = k + 1;
    }
    assert(all.take(k as int) =~= all);
    if most < list.len() {
        let ghost before = models(list@);
        list.truncate(most);
        assert(models(list@) =~= before.take(most as int));
    }
    list
}

/// Finds the first import that reports a failed assertion.
fn find_assert_fail(imports: &Vec<ImportedFunc>) -> (found: Option<usize>)
    ensures
        match found {
            Some(at) => is_assert_fail(imports@, at as int),
            None => forall|i: int| !is_assert_fail(imports@, i),
        },
{
    let mut i: usize = 0;
    while i < imports.len()
        invariant
            i <= imports@.len(),
            forall|j: int| 0 <= j < i ==> !holds((#[trigger] imports@[j]).field@, "assert_fail"@),
        decreases imports@.len() - i,
    {
        if text_holds(imports[i].field.as_str(), "assert_fail") {
            return Some(i);
        }
        i = i + 1;
    }
    None
}

/// Of the imports that report a failed assertion one is the first.
proof fn lemma_assert_fail(imports: Seq<ImportedFunc>, a: int, b: int)
    requires
        is_assert_fail(imports, a),
        is_assert_fail(imports, b),
    ensures
        a == b,
{
    if a < b {
        assert(!holds(imports[a].field@, "assert_fail"@));
    } else if b < a {
        assert(!holds(imports[b].field@, "assert_fail"@));
    }
}

/// Reads the first name a body asserts.
fn read_asserted(
    module: &Module,
    placements: &BTreeMap<u32, Placement>,
    body: &Vec<Op>,
    assert_fail: Option<usize>,
) -> (name: Option<String>)
    requires
        match assert_fail {
            Some(at) => is_assert_fail(module.func_imports@, at as int),
            None => forall|i: int| !is_assert_fail(module.func_imports@, i),
        },
    ensures
        match name {
            Some(name) => asserted(module, placements@, body@, body@.len() as int) == Some(name@),
            None => asserted(module, placements@, body@, body@.len() as int) is None,
        },
{
    let target: usize = match assert_fail {
        Some(at) => at,
        None => {
            proof {
                lemma_nothing_asserted(module, placements@, body@, body@.len() as int);
            }
            return None;
        },
    };
    let mut found: Option<String> = None;
    let mut at: usize = 0;
    while at < body.len()
        invariant
            is_assert_fail(module.func_imports@, target as int),
            at <= body@.len(),
            match found {
                Some(name) => asserted(module, placements@, body@, at as int) == Some(name@),
                None => asserted(module, placements@, body@, at as int) is None,
            },
        decreases body@.len() - at,
    {
        if found.is_none() && at > 0 {
            match (&body[at], &body[at - 1]) {
                (Op::Call(callee), Op::I32Const(address)) => {
                    proof {
                        if is_assert_fail(module.func_imports@, *callee as int) {
                            lemma_assert_fail(module.func_imports@, *callee as int, target as int);
                        }
                    }
                    if *callee as usize == target {
                        match placed_text(module, placements, *address, None) {
                            Some(text) => {
                                if is_c_identifier(text.as_str()) {
                                    found = Some(text);
                                }
                            },
                            None => {},
                        }
                    }
                },
                _ => {},
            }
        }
        at = at + 1;
    }
    found
}

/// Where nothing reports a failed assertion no name is asserted.
proof fn lemma_nothing_asserted(
    module: &Module,
    placements: Map<u32, Placement>,
    body: Seq<Op>,
    n: int,
)
    requires
        forall|i: int| !is_assert_fail(module.func_imports@, i),
    ensures
        asserted(module, placements, body, n) is None,
    decreases n,
{
    if n > 0 {
        lemma_nothing_asserted(module, placements, body, n - 1);
    }
}

/// The names of a list from a position on.
fn names_from(list: &Vec<Candidate>, from: usize) -> (names: Vec<String>)
    requires
        from <= list@.len(),
    ensures
        texts(names@) == names_of(models(list@).skip(from as int)),
{
    let mut names: Vec<String> = Vec::new();
    let ghost all = models(list@);
    let mut i: usize = from;
    assert(texts(names@) =~= names_of(all.subrange(from as int, from as int)));
    while i < list.len()
        invariant
            from <= i <= list@.len(),
            all == models(list@),
            texts(names@) == names_of(all.subrange(from as int, i as int)),
        decreases list@.len() - i,
    {
        let ghost before = texts(names@);
        names.push(list[i].name.clone());
        proof {
            assert(all[i as int] == list@[i as int]@);
            assert(texts(names@) =~= before.push(all[i as int].name));
            assert(all.subrange(from as int, i + 1) =~= all.subrange(from as int, i as int).push(
                all[i as int],
            ));
            assert(texts(names@) =~= names_of(all.subrange(from as int, i + 1)));
        }
        i = i + 1;
    }
    assert(all.subrange(from as int, i as int) =~= all.skip(from as int));
    names
}

/// The names of a list but one.
fn other_names(list: &Vec<Candidate>, name: &str) -> (names: Vec<String>)
    ensures
        texts(names@) == names_but(models(list@), name@),
{
    let mut names: Vec<String> = Vec::new();
    let ghost all = models(list@);
    let mut i: usize = 0;
    assert(all.take(0) =~= Seq::empty());
    assert(texts(names@) =~= Seq::empty());
    while i < list.len()
        invariant
            i <= list@.len(),
            all == models(list@),
            texts(names@) == names_but(all.take(i as int), name@),
        decreases list@.len() - i,
    {
        let ghost before = texts(names@);
        proof {
            assert(all.take(i + 1).drop_last() =~= all.take(i as int));
            assert(all.take(i + 1).last() == list@[i as int]@);
        }
        if !same_text(list[i].name.as_str(), name) {
            names.push(list[i].name.clone());
            assert(texts(names@) =~= before.push(list@[i as int].name@));
        }
        i = i + 1;
    }
    assert(all.take(i as int) =~= all);
    names
}

/// Guesses the name of one function.
fn derive_name(
    module: &Module,
    placements: &BTreeMap<u32, Placement>,
    at: usize,
    messages: &TextMap<usize>,
    owners: &TextMap<usize>,
    assert_fail: Option<usize>,
) -> (name: Option<DerivedName>)
    requires
        at < module.funcs@.len(),
        module.func_imports@.len() + module.funcs@.len() <= u32::MAX,
        messages.wf(),
        owners.wf(),
        messages@ == messages_of(module, placements@, module.funcs@[at as int].body@),
        owners@ == owners_of(module, placements@, module.funcs@),
        match assert_fail {
            Some(at) => is_assert_fail(module.func_imports@, at as int),
            None => forall|i: int| !is_assert_fail(module.func_imports@, i),
        },
    ensures
        match name {
            Some(name) => derived_name(module, placements@, at as int) == Some(name@),
            None => derived_name(module, placements@, at as int) is None,
        },
{
    let index: u32 = module.func_imports.len() as u32 + at as u32;
    if module.func_name(index).is_some() {
        return None;
    }
    match read_asserted(module, placements, &module.funcs[at].body, assert_fail) {
        Some(name) => {
            let mut evidence: String = "__assert_fail(.., \"".to_owned();
            evidence.append(name.as_str());
            evidence.append("\")");
            let list: Vec<Candidate> = best_messages(messages, owners, 3);
            let rejected: Vec<String> = other_names(&list, name.as_str());
            Some(DerivedName { name, evidence, source: NameSource::Assert, rejected })
        },
        None => {
            let list: Vec<Candidate> = best_messages(messages, owners, 4);
            if list.len() == 0 {
                return None;
            }
            let rejected: Vec<String> = names_from(&list, 1);
            assert(models(list@).skip(1) =~= models(list@).drop_first());
            assert(models(list@)[0] == list@[0]@);
            Some(
                DerivedName {
                    name: list[0].name.clone(),
                    evidence: list[0].text.clone(),
                    source: NameSource::Message {
                        references: list[0].references,
                        unique: list[0].unique,
                    },
                    rejected,
                },
            )
        },
    }
}

/// Guesses names for unnamed functions from what they say about themselves.
///
/// Two sources, in order of how much they are worth: the `__func__` that a failed
/// assertion carries, and the messages a function logs. For the second, how often a
/// message is referenced matters more than whether it is unique: a function built
/// out of several inlined ones references all of their strings.
pub fn derive_names(module: &Module, placements: &BTreeMap<u32, Placement>) -> (names: BTreeMap<
    u32,
    DerivedName,
>)
    requires
        module.func_imports@.len() + module.funcs@.len() <= u32::MAX,
    ensures
        are_derived_names(names@, module, placements@),
{
    let import_count: u32 = module.func_imports.len() as u32;
    let assert_fail: Option<usize> = find_assert_fail(&module.func_imports);
    let mut all: Vec<TextMap<usize>> = Vec::new();
    let mut i: usize = 0;
    while i < module.funcs.len()
        invariant
            i <= module.funcs@.len(),
            all@.len() == i,
            forall|j: int|
                0 <= j < i ==> (#[trigger] all@[j]).wf() && all@[j]@ == messages_of(
                    module,
                    placements@,
                    module.funcs@[j].body@,
                ),
        decreases module.funcs@.len() - i,
    {
        all.push(read_messages(module, placements, &module.funcs[i].body));
        i = i + 1;
    }
    let owners: TextMap<usize> = read_owners(module, placements, &all);
    let mut names: BTreeMap<u32, DerivedName> = BTreeMap::new();
    let mut at: usize = 0;
    while at < module.funcs.len()
        invariant
            import_count == module.func_imports@.len(),
            module.func_imports@.len() + module.funcs@.len() <= u32::MAX,
            at <= module.funcs@.len(),
            all@.len() == module.funcs@.len(),
            forall|j: int|
                0 <= j < all@.len() ==> (#[trigger] all@[j]).wf() && all@[j]@ == messages_of(
                    module,
                    placements@,
                    module.funcs@[j].body@,
                ),
            owners.wf(),
            owners@ == owners_of(module, placements@, module.funcs@),
            match assert_fail {
                Some(at) => is_assert_fail(module.func_imports@, at as int),
                None => forall|i: int| !is_assert_fail(module.func_imports@, i),
            },
            forall|index: u32| #[trigger]
                names@.contains_key(index) ==> import_count <= index < import_count + at,
            forall|index: u32|
                import_count <= index < import_count + at ==> (#[trigger] names@.contains_key(
                    index,
                )) == derived_name(module, placements@, index - import_count) is Some,
            forall|index: u32| #[trigger]
                names@.contains_key(index) ==> derived_name(
                    module,
                    placements@,
                    index - import_count,
                ) == Some(names@[index]@),
        decreases module.funcs@.len() - at,
    {
        let index: u32 = import_count + at as u32;
        match derive_name(module, placements, at, &all[at], &owners, assert_fail) {
            Some(name) => {
                names.insert(index, name);
            },
            None => {},
        }
        at = at + 1;
    }
    names
}

/// What messages offer stands in the order of rank: nothing stands after a name
/// that it outranks.
pub proof fn candidates_stand_by_rank(
    messages: Map<Seq<char>, usize>,
    owners: Map<Seq<char>, usize>,
    most: nat,
    i: int,
    j: int,
)
    requires
        0 <= i < j < best(messages, owners, most).len(),
    ensures
        !outranks(best(messages, owners, most)[j], best(messages, owners, most)[i]),
{
    let keys = ordered(messages.dom());
    let all = ranked(keys, messages, owners);
    lemma_ranked(keys, messages, owners);
    lemma_first_of_each(all);
}

/// Whether nothing stands after what it outranks.
pub open spec fn by_rank(list: Seq<CandidateModel>) -> bool {
    forall|i: int, j: int| 0 <= i < j < list.len() ==> !outranks(list[j], list[i])
}

/// Ranking is transitive where it does not hold.
proof fn lemma_not_outranked(a: CandidateModel, b: CandidateModel, c: CandidateModel)
    requires
        !outranks(b, a),
        !outranks(c, b),
    ensures
        !outranks(c, a),
{
    crate::text::order::lemma_order_total(a.name, b.name);
    crate::text::order::lemma_order_total(b.name, c.name);
    crate::text::order::lemma_order_irreflexive(a.name);
    if comes_before(a.name, b.name) && comes_before(b.name, c.name) {
        crate::text::order::lemma_order_transitive(a.name, b.name, c.name);
    }
    if comes_before(a.name, c.name) && comes_before(c.name, a.name) {
        crate::text::order::lemma_order_transitive(a.name, c.name, a.name);
    }
}

proof fn lemma_ranked_with_sorted(list: Seq<CandidateModel>, candidate: CandidateModel)
    requires
        by_rank(list),
    ensures
        by_rank(ranked_with(list, candidate)),
        ranked_with(list, candidate).len() == list.len() + 1,
        forall|i: int|
            0 <= i <= list.len() ==> (#[trigger] ranked_with(list, candidate)[i]) == candidate
                || list.contains(ranked_with(list, candidate)[i]),
    decreases list.len(),
{
    let out = ranked_with(list, candidate);
    if list.len() > 0 && outranks(candidate, list.last()) {
        let less = list.drop_last();
        let before = ranked_with(less, candidate);
        lemma_ranked_with_sorted(less, candidate);
        assert forall|i: int| 0 <= i <= list.len() implies (#[trigger] out[i]) == candidate
            || list.contains(out[i]) by {
            if i < before.len() {
                assert(out[i] == before[i]);
                if before[i] != candidate {
                    let k = choose|k: int| 0 <= k < less.len() && less[k] == before[i];
                    assert(list[k] == out[i]);
                }
            } else {
                assert(out[i] == list[list.len() - 1]);
            }
        }
        assert forall|i: int, j: int| 0 <= i < j < out.len() implies !outranks(out[j], out[i]) by {
            if j < before.len() {
                assert(!outranks(before[j], before[i]));
            } else {
                assert(out[j] == list.last());
                if before[i] == candidate {
                    crate::text::order::lemma_order_irreflexive(candidate.name);
                    lemma_outranks_one_way(candidate, list.last());
                } else {
                    let k = choose|k: int| 0 <= k < less.len() && less[k] == before[i];
                    assert(!outranks(list[list.len() - 1], list[k]));
                }
            }
        }
    } else {
        assert forall|i: int, j: int| 0 <= i < j < out.len() implies !outranks(out[j], out[i]) by {
            if j == list.len() && i < list.len() - 1 {
                lemma_not_outranked(list[i], list[list.len() - 1], candidate);
            }
        }
        assert forall|i: int| 0 <= i <= list.len() implies (#[trigger] out[i]) == candidate
            || list.contains(out[i]) by {
            if i < list.len() {
                assert(list[i] == out[i]);
            }
        }
    }
}

/// Ranking goes one way.
proof fn lemma_outranks_one_way(a: CandidateModel, b: CandidateModel)
    requires
        outranks(a, b),
    ensures
        !outranks(b, a),
{
    if comes_before(a.name, b.name) && comes_before(b.name, a.name) {
        crate::text::order::lemma_order_transitive(a.name, b.name, a.name);
        crate::text::order::lemma_order_irreflexive(a.name);
    }
}

/// What messages offer stands by rank.
pub proof fn lemma_ranked(
    keys: Seq<Seq<char>>,
    messages: Map<Seq<char>, usize>,
    owners: Map<Seq<char>, usize>,
)
    ensures
        by_rank(ranked(keys, messages, owners)),
    decreases keys.len(),
{
    if keys.len() > 0 {
        lemma_ranked(keys.drop_last(), messages, owners);
        match offer(keys.last(), messages[keys.last()], owners) {
            Some(candidate) => {
                lemma_ranked_with_sorted(ranked(keys.drop_last(), messages, owners), candidate);
            },
            None => {},
        }
    }
}

/// What messages offer is what each of them does.
pub proof fn lemma_ranked_members(
    keys: Seq<Seq<char>>,
    messages: Map<Seq<char>, usize>,
    owners: Map<Seq<char>, usize>,
)
    ensures
        forall|candidate: CandidateModel| #[trigger]
            ranked(keys, messages, owners).contains(candidate) == exists|key: Seq<char>|
                keys.contains(key) && #[trigger] offer(key, messages[key], owners) == Some(
                    candidate,
                ),
    decreases keys.len(),
{
    let list = ranked(keys, messages, owners);
    if keys.len() > 0 {
        let less = keys.drop_last();
        let before = ranked(less, messages, owners);
        let last = keys.last();
        lemma_ranked_members(less, messages, owners);
        match offer(last, messages[last], owners) {
            Some(candidate) => {
                lemma_ranked(less, messages, owners);
                lemma_ranked_with_sorted(before, candidate);
                lemma_ranked_with_keeps(before, candidate);
            },
            None => {},
        }
        assert forall|candidate: CandidateModel| #[trigger]
            list.contains(candidate) == exists|key: Seq<char>|
                keys.contains(key) && #[trigger] offer(key, messages[key], owners) == Some(
                    candidate,
                ) by {
            if list.contains(candidate) {
                let i = choose|i: int| 0 <= i < list.len() && list[i] == candidate;
                if before.contains(candidate) {
                    let key = choose|key: Seq<char>|
                        less.contains(key) && #[trigger] offer(key, messages[key], owners) == Some(
                            candidate,
                        );
                    let k = choose|k: int| 0 <= k < less.len() && less[k] == key;
                    assert(keys[k] == key);
                } else {
                    assert(keys[keys.len() - 1] == last);
                    assert(offer(last, messages[last], owners) == Some(candidate));
                }
            }
            if exists|key: Seq<char>|
                keys.contains(key) && #[trigger] offer(key, messages[key], owners) == Some(
                    candidate,
                ) {
                let key = choose|key: Seq<char>|
                    keys.contains(key) && #[trigger] offer(key, messages[key], owners) == Some(
                        candidate,
                    );
                let k = choose|k: int| 0 <= k < keys.len() && keys[k] == key;
                if k < less.len() {
                    assert(less[k] == key);
                    assert(before.contains(candidate));
                }
            }
        }
    }
}

/// A ranked list keeps what it has, and has what is added.
proof fn lemma_ranked_with_keeps(list: Seq<CandidateModel>, candidate: CandidateModel)
    ensures
        ranked_with(list, candidate).contains(candidate),
        forall|other: CandidateModel| #[trigger]
            list.contains(other) ==> ranked_with(list, candidate).contains(other),
    decreases list.len(),
{
    let out = ranked_with(list, candidate);
    if list.len() > 0 && outranks(candidate, list.last()) {
        let less = list.drop_last();
        let before = ranked_with(less, candidate);
        lemma_ranked_with_keeps(less, candidate);
        let i = choose|i: int| 0 <= i < before.len() && before[i] == candidate;
        assert(out[i] == candidate);
        assert forall|other: CandidateModel| #[trigger] list.contains(other) implies out.contains(
            other,
        ) by {
            let k = choose|k: int| 0 <= k < list.len() && list[k] == other;
            if k < less.len() {
                assert(less[k] == other);
                assert(less.contains(other));
                assert(before.contains(other));
                let j = choose|j: int| 0 <= j < before.len() && before[j] == other;
                assert(out[j] == other);
            } else {
                assert(out[out.len() - 1] == other);
            }
        }
    } else {
        assert(out[list.len() as int] == candidate);
        assert forall|other: CandidateModel| #[trigger] list.contains(other) implies out.contains(
            other,
        ) by {
            let k = choose|k: int| 0 <= k < list.len() && list[k] == other;
            assert(out[k] == other);
        }
    }
}

proof fn lemma_first_of_each(list: Seq<CandidateModel>)
    requires
        by_rank(list),
    ensures
        by_rank(first_of_each(list)),
        forall|i: int|
            0 <= i < first_of_each(list).len() ==> list.contains(#[trigger] first_of_each(list)[i]),
    decreases list.len(),
{
    if list.len() > 0 {
        let less = list.drop_last();
        let before = first_of_each(less);
        let out = first_of_each(list);
        lemma_first_of_each(less);
        assert forall|i: int| 0 <= i < out.len() implies list.contains(#[trigger] out[i]) by {
            if i < before.len() {
                assert(out[i] == before[i]);
                let k = choose|k: int| 0 <= k < less.len() && less[k] == before[i];
                assert(list[k] == out[i]);
            } else {
                assert(list[list.len() - 1] == out[i]);
            }
        }
        assert forall|i: int, j: int| 0 <= i < j < out.len() implies !outranks(out[j], out[i]) by {
            if j < before.len() {
                assert(!outranks(before[j], before[i]));
            } else {
                assert(out[i] == before[i]);
                let k = choose|k: int| 0 <= k < less.len() && less[k] == before[i];
                assert(!outranks(list[list.len() - 1], list[k]));
            }
        }
    }
}

} // verus!
