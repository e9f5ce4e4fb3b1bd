//! What holds of every name that is guessed for a function.

use vstd::prelude::*;
use vstd::set_lib::set_int_range;
use crate::analysis::names::{
    asserted, best, c_identifier, derived_name, first_of_each, identifier_of, is_assert_fail,
    lemma_ranked, lemma_ranked_members, messages_of, name_asserted, named, names_but, offer, outranks, owners,
    owners_of, ranked, references, text_pushed, word_end, CandidateModel, NameSource,
};
use crate::analysis::placement::{message_at, Placement};
use crate::module::types::{Module, Op};
use crate::text::order::{comes_before, lemma_order_total, lemma_order_transitive};
use crate::text::pieces::{holds, stands_at};
use crate::text::table::{in_order, lemma_ordered, ordered};

verus! {

// ---- identifiers ----

/// Whether a word may name a function: six to sixty lower-case letters, digits and
/// underscores, of which the first is a letter and one an underscore.
pub open spec fn may_name(word: Seq<char>) -> bool {
    &&& 6 <= word.len() <= 60
    &&& 'a' <= word[0] <= 'z'
    &&& word.contains('_')
    &&& forall|i: int|
        0 <= i < word.len() ==> 'a' <= #[trigger] word[i] <= 'z' || '0' <= word[i] <= '9'
            || word[i] == '_'
}

/// Whether a character may follow the word a message starts with.
pub open spec fn may_follow(ch: char) -> bool {
    ch == ':' || ch == ' ' || ch == '(' || ch == ','
}

/// Where a word of other characters is followed by one that ends it, it ends there.
proof fn lemma_word_ends(text: Seq<char>, at: int, end: int)
    requires
        0 <= at <= end <= text.len(),
        forall|i: int| at <= i < end ==> !may_follow(#[trigger] text[i]),
        end < text.len() ==> may_follow(text[end]),
    ensures
        word_end(text, at) == end,
    decreases end - at,
{
    if at < end {
        assert(!may_follow(text[at]));
        lemma_word_ends(text, at + 1, end);
    }
}

/// A message that starts with a word that may name a function, and goes on after a
/// colon, a space, a bracket or a comma or not at all, names that function, unless two
/// colons follow the word: then it is a module.
pub proof fn a_message_names_what_it_starts_with(word: Seq<char>, rest: Seq<char>)
    requires
        may_name(word),
        rest.len() > 0 ==> may_follow(rest[0]),
    ensures
        identifier_of(word + rest) == if rest.len() > 1 && rest[0] == ':' && rest[1] == ':' {
            None
        } else {
            Some(word)
        },
{
    let text = word + rest;
    let end = word.len() as int;
    assert forall|i: int| 0 <= i < end implies !may_follow(#[trigger] text[i]) by {
        assert(text[i] == word[i]);
    }
    lemma_word_ends(text, 0, end);
    assert(text.take(end) =~= word);
    let i = choose|i: int| 0 <= i < word.len() && word[i] == '_';
    assert(word[i] == '_');
}

/// What a message names is the word it starts with, and that may name a function.
pub proof fn a_named_function_is_what_the_message_starts_with(text: Seq<char>, name: Seq<char>)
    requires
        identifier_of(text) == Some(name),
    ensures
        may_name(name),
        name.len() <= text.len(),
        text.take(name.len() as int) == name,
        name.len() < text.len() ==> may_follow(text[name.len() as int]),
        name.len() + 1 < text.len() ==> !(text[name.len() as int] == ':' && text[name.len() as int + 1]
            == ':'),
{
    lemma_first_word(text, 0);
    let i = choose|i: int| 0 <= i < name.len() && #[trigger] name[i] == '_';
    assert(name.contains('_'));
}

/// A word ends at the end of the text or before a character that ends one.
proof fn lemma_first_word(text: Seq<char>, at: int)
    requires
        0 <= at <= text.len(),
    ensures
        at <= word_end(text, at) <= text.len(),
        word_end(text, at) < text.len() ==> may_follow(text[word_end(text, at)]),
    decreases text.len() - at,
{
    if at < text.len() && !may_follow(text[at]) {
        lemma_first_word(text, at + 1);
    }
}

/// A C identifier is one to a hundred and twenty letters, digits and underscores, and
/// does not start with a digit.
pub proof fn a_c_identifier_is_made_of_its_characters(text: Seq<char>)
    ensures
        c_identifier(text) == {
            &&& 1 <= text.len() <= 120
            &&& !('0' <= text[0] <= '9')
            &&& forall|i: int|
                0 <= i < text.len() ==> 'a' <= #[trigger] text[i] <= 'z' || 'A' <= text[i] <= 'Z'
                    || '0' <= text[i] <= '9' || text[i] == '_'
        },
{
    if text.len() > 0 {
        let ch = text[0];
        assert(ch == text[0]);
    }
}

// ---- what a function references ----

/// The positions at which a body pushes the address of a text.
pub open spec fn pushes(
    module: &Module,
    placements: Map<u32, Placement>,
    body: Seq<Op>,
    text: Seq<char>,
) -> Set<int> {
    Set::new(
        |p: int| 0 <= p < body.len() && text_pushed(module, placements, body, p) == Some(text),
    )
}

/// A constant that addresses text references it: with the length that is pushed after
/// it, where that many bytes are text, and else up to its NUL. What a `memory.init`
/// copies to is no reference.
pub proof fn a_constant_references_the_text_it_addresses(
    module: &Module,
    placements: Map<u32, Placement>,
    body: Seq<Op>,
    p: int,
)
    requires
        0 <= p < body.len(),
    ensures
        ({
            let found = text_pushed(module, placements, body, p);
            &&& !(body[p] is I32Const) ==> found is None
            &&& p + 3 < body.len() && body[p + 3] is MemoryInit ==> found is None
            &&& body[p] is I32Const && !(p + 3 < body.len() && body[p + 3] is MemoryInit) ==> {
                let address = body[p]->I32Const_0;
                let whole = message_at(module, placements, address, None);
                match (p + 1 < body.len(), body[p + 1]) {
                    (true, Op::I32Const(length)) => if length > 0 && message_at(
                        module,
                        placements,
                        address,
                        Some(length as usize),
                    ) is Some {
                        found == message_at(module, placements, address, Some(length as usize))
                    } else {
                        found == whole
                    },
                    _ => found == whole,
                }
            }
        }),
{
}

/// As many references are counted as there are positions that push the text.
proof fn lemma_references_are_pushes(
    module: &Module,
    placements: Map<u32, Placement>,
    body: Seq<Op>,
    text: Seq<char>,
    n: int,
)
    requires
        0 <= n <= body.len(),
        identifier_of(text) is Some,
    ensures
        ({
            let before = pushes(module, placements, body, text).filter(|p: int| p < n);
            &&& before.finite()
            &&& before.len() == references(module, placements, body, text, n)
        }),
    decreases n,
{
    let all = pushes(module, placements, body, text);
    let before = all.filter(|p: int| p < n);
    if n == 0 {
        assert(before =~= Set::empty());
    } else {
        lemma_references_are_pushes(module, placements, body, text, n - 1);
        let less = all.filter(|p: int| p < n - 1);
        if all.contains(n - 1) {
            assert(before =~= less.insert(n - 1));
        } else {
            assert(before =~= less);
        }
    }
}

/// A message is counted as often as the body pushes it.
proof fn lemma_messages(
    module: &Module,
    placements: Map<u32, Placement>,
    body: Seq<Op>,
    text: Seq<char>,
)
    requires
        body.len() <= usize::MAX,
    ensures
        pushes(module, placements, body, text).finite(),
        messages_of(module, placements, body).contains_key(text) == (identifier_of(text) is Some
            && pushes(module, placements, body, text).len() > 0),
        messages_of(module, placements, body).contains_key(text) ==> messages_of(
            module,
            placements,
            body,
        )[text] == pushes(module, placements, body, text).len(),
{
    let all = pushes(module, placements, body, text);
    assert(all.subset_of(set_int_range(0, body.len() as int)));
    vstd::set_lib::lemma_int_range(0, body.len() as int);
    vstd::set_lib::lemma_len_subset(all, set_int_range(0, body.len() as int));
    if identifier_of(text) is Some {
        lemma_references_are_pushes(module, placements, body, text, body.len() as int);
        assert(all.filter(|p: int| p < body.len()) =~= all);
    } else {
        lemma_never(module, placements, body, text, body.len() as int);
    }
}

/// A message without a name is not counted.
proof fn lemma_never(
    module: &Module,
    placements: Map<u32, Placement>,
    body: Seq<Op>,
    text: Seq<char>,
    n: int,
)
    requires
        identifier_of(text) is None,
    ensures
        references(module, placements, body, text, n) == 0,
    decreases n,
{
    if n > 0 {
        lemma_never(module, placements, body, text, n - 1);
    }
}

/// Whether a function references a message that names something.
pub open spec fn mentions(
    module: &Module,
    placements: Map<u32, Placement>,
    f: int,
    text: Seq<char>,
) -> bool {
    identifier_of(text) is Some && exists|p: int| #[trigger]
        pushes(module, placements, module.funcs@[f].body@, text).contains(p)
}

/// Whether no function but one references a message.
pub open spec fn only_mentioned_by(
    module: &Module,
    placements: Map<u32, Placement>,
    f: int,
    text: Seq<char>,
) -> bool {
    forall|g: int|
        0 <= g < module.funcs@.len() && g != f ==> !#[trigger] mentions(
            module,
            placements,
            g,
            text,
        )
}

/// A function mentions a message exactly where it has it.
proof fn lemma_mentions(module: &Module, placements: Map<u32, Placement>, f: int, text: Seq<char>)
    requires
        0 <= f < module.funcs@.len(),
        module.funcs@[f].body@.len() <= usize::MAX,
    ensures
        mentions(module, placements, f, text) == messages_of(
            module,
            placements,
            module.funcs@[f].body@,
        ).contains_key(text),
{
    let body = module.funcs@[f].body@;
    let all = pushes(module, placements, body, text);
    lemma_messages(module, placements, body, text);
    if all.len() > 0 {
        assert(all.contains(all.choose()));
    } else {
        assert(all =~= Set::empty());
    }
}

/// How many functions own a message: none, one or more.
proof fn lemma_owners(
    module: &Module,
    placements: Map<u32, Placement>,
    text: Seq<char>,
    f: int,
    n: int,
)
    requires
        0 <= f < module.funcs@.len(),
        0 <= n <= module.funcs@.len(),
        forall|g: int|
            0 <= g < module.funcs@.len() ==> (#[trigger] module.funcs@[g]).body@.len()
                <= usize::MAX,
        mentions(module, placements, f, text),
    ensures
        ({
            let count = owners(module, placements, module.funcs@.take(n), text);
            &&& count <= n
            &&& f < n ==> count >= 1
            &&& f < n ==> (count == 1) == (forall|g: int|
                0 <= g < n && g != f ==> !#[trigger] mentions(module, placements, g, text))
            &&& f >= n ==> (count == 0) == (forall|g: int|
                0 <= g < n ==> !#[trigger] mentions(module, placements, g, text))
        }),
    decreases n,
{
    if n > 0 {
        let funcs = module.funcs@.take(n);
        assert(funcs.drop_last() =~= module.funcs@.take(n - 1));
        assert(funcs.last() == module.funcs@[n - 1]);
        lemma_owners(module, placements, text, f, n - 1);
        lemma_mentions(module, placements, n - 1, text);
    }
}

// ---- which name wins ----

/// A text put in its place among texts in order.
spec fn put_in_order(keys: Seq<Seq<char>>, key: Seq<char>) -> Seq<Seq<char>>
    decreases keys.len(),
{
    if keys.len() == 0 || comes_before(keys.last(), key) {
        keys.push(key)
    } else {
        put_in_order(keys.drop_last(), key).push(keys.last())
    }
}

proof fn lemma_put_in_order(keys: Seq<Seq<char>>, key: Seq<char>)
    requires
        in_order(keys),
        !keys.contains(key),
    ensures
        in_order(put_in_order(keys, key)),
        forall|other: Seq<char>| #[trigger]
            put_in_order(keys, key).contains(other) == (keys.contains(other) || other == key),
    decreases keys.len(),
{
    let out = put_in_order(keys, key);
    if keys.len() == 0 || comes_before(keys.last(), key) {
        assert forall|i: int, j: int| 0 <= i < j < out.len() implies comes_before(
            #[trigger] out[i],
            #[trigger] out[j],
        ) by {
            if j == keys.len() && i < keys.len() - 1 {
                assert(comes_before(keys[i], keys[keys.len() - 1]));
                lemma_order_transitive(keys[i], keys[keys.len() - 1], key);
            }
        }
        assert forall|other: Seq<char>| #[trigger]
            out.contains(other) == (keys.contains(other) || other == key) by {
            if keys.contains(other) {
                let i = choose|i: int| 0 <= i < keys.len() && keys[i] == other;
                assert(out[i] == other);
            }
            assert(out[keys.len() as int] == key);
        }
    } else {
        let less = keys.drop_last();
        let before = put_in_order(less, key);
        let last = keys.last();
        assert(keys.contains(keys[keys.len() - 1]));
        lemma_order_total(key, last);
        assert(comes_before(key, last));
        if less.contains(key) {
            let i = choose|i: int| 0 <= i < less.len() && less[i] == key;
            assert(keys[i] == key);
        }
        assert(in_order(less));
        lemma_put_in_order(less, key);
        assert forall|i: int, j: int| 0 <= i < j < out.len() implies comes_before(
            #[trigger] out[i],
            #[trigger] out[j],
        ) by {
            if j < before.len() {
                assert(comes_before(before[i], before[j]));
            } else {
                assert(out[j] == last);
                assert(before.contains(before[i]));
                if before[i] != key {
                    let k = choose|k: int| 0 <= k < less.len() && less[k] == before[i];
                    assert(comes_before(keys[k], keys[keys.len() - 1]));
                }
            }
        }
        assert forall|other: Seq<char>| #[trigger]
            out.contains(other) == (keys.contains(other) || other == key) by {
            if keys.contains(other) && other != last {
                let i = choose|i: int| 0 <= i < keys.len() && keys[i] == other;
                assert(less[i] == other);
            }
            if less.contains(other) {
                let i = choose|i: int| 0 <= i < less.len() && less[i] == other;
                assert(keys[i] == other);
            }
            if before.contains(other) {
                let i = choose|i: int| 0 <= i < before.len() && before[i] == other;
                assert(out[i] == other);
            }
            assert(out[before.len() as int] == last);
            if out.contains(other) && other != last {
                let i = choose|i: int| 0 <= i < out.len() && out[i] == other;
                assert(before[i] == other);
            }
        }
    }
}

/// A finite set of texts can be put in order.
pub proof fn lemma_can_be_ordered(set: Set<Seq<char>>)
    requires
        set.finite(),
    ensures
        in_order(ordered(set)),
        forall|key: Seq<char>| #[trigger] ordered(set).contains(key) == set.contains(key),
    decreases set.len(),
{
    if set.len() == 0 {
        assert(set =~= Set::empty());
        let keys = Seq::<Seq<char>>::empty();
        assert(in_order(keys));
        lemma_ordered(keys, set);
    } else {
        let key = set.choose();
        let rest = set.remove(key);
        lemma_can_be_ordered(rest);
        let keys = put_in_order(ordered(rest), key);
        assert(!ordered(rest).contains(key));
        lemma_put_in_order(ordered(rest), key);
        assert forall|other: Seq<char>| #[trigger]
            keys.contains(other) == set.contains(other) by {
            assert(ordered(rest).contains(other) == rest.contains(other));
        }
        lemma_ordered(keys, set);
    }
}

/// Only so many messages are referenced as there are instructions.
proof fn lemma_messages_finite(module: &Module, placements: Map<u32, Placement>, body: Seq<Op>)
    requires
        body.len() <= usize::MAX,
    ensures
        messages_of(module, placements, body).dom().finite(),
{
    let dom = messages_of(module, placements, body).dom();
    let positions = set_int_range(0, body.len() as int);
    vstd::set_lib::lemma_int_range(0, body.len() as int);
    let text_of = |p: int|
        match text_pushed(module, placements, body, p) {
            Some(text) => text,
            None => Seq::empty(),
        };
    let image = positions.map(text_of);
    positions.lemma_map_finite(text_of);
    assert forall|text: Seq<char>| dom.contains(text) implies image.contains(text) by {
        lemma_messages(module, placements, body, text);
        let all = pushes(module, placements, body, text);
        let p = all.choose();
        assert(all.contains(p));
        assert(positions.contains(p));
        assert(text_of(p) == text);
    }
    assert(dom.subset_of(image));
    vstd::set_lib::lemma_len_subset(dom, image);
}

/// The first of each name starts with the first.
proof fn lemma_first_is_first(module: &Module, list: Seq<CandidateModel>)
    requires
        list.len() > 0,
    ensures
        first_of_each(list).len() > 0,
        first_of_each(list)[0] == list[0],
    decreases list.len(),
{
    if list.len() > 1 {
        lemma_first_is_first(module, list.drop_last());
    } else {
        assert(first_of_each(list.drop_last()) =~= Seq::empty());
    }
}

/// A function that the module does not name and that asserts nothing is named after the
/// message it references most. Of two it references as often, one that no other function
/// references wins, then the one with the longer name. A message referenced once, and by
/// another function too, names nothing. Where none is left there is no name.
pub proof fn the_message_referenced_most_names_the_function(
    module: &Module,
    placements: Map<u32, Placement>,
    f: int,
)
    requires
        0 <= f < module.funcs@.len(),
        module.funcs@.len() <= usize::MAX,
        forall|g: int|
            0 <= g < module.funcs@.len() ==> (#[trigger] module.funcs@[g]).body@.len()
                <= usize::MAX,
        !named(module, (module.func_imports@.len() + f) as u32),
        asserted(
            module,
            placements,
            module.funcs@[f].body@,
            module.funcs@[f].body@.len() as int,
        ) is None,
    ensures
        ({
            let body = module.funcs@[f].body@;
            let times = |text: Seq<char>| pushes(module, placements, body, text).len();
            let counts = |text: Seq<char>|
                mentions(module, placements, f, text) && !(times(text) == 1 && !only_mentioned_by(
                    module,
                    placements,
                    f,
                    text,
                ));
            match derived_name(module, placements, f) {
                None => forall|text: Seq<char>| !#[trigger] counts(text),
                Some(guess) => {
                    let text = guess.evidence;
                    let unique = only_mentioned_by(module, placements, f, text);
                    &&& counts(text)
                    &&& identifier_of(text) == Some(guess.name)
                    &&& guess.source == NameSource::Message {
                        references: times(text) as usize,
                        unique,
                    }
                    &&& times(text) <= usize::MAX
                    &&& forall|other: Seq<char>| #[trigger]
                        counts(other) ==> {
                            let others = only_mentioned_by(module, placements, f, other);
                            ||| times(other) < times(text)
                            ||| times(other) == times(text) && unique && !others
                            ||| times(other) == times(text) && unique == others && (
                            identifier_of(other)->0).len() <= guess.name.len()
                        }
                },
            }
        }),
{
    let body = module.funcs@[f].body@;
    let messages = messages_of(module, placements, body);
    let all = owners_of(module, placements, module.funcs@);
    let keys = ordered(messages.dom());
    let list = ranked(keys, messages, all);
    lemma_messages_finite(module, placements, body);
    lemma_can_be_ordered(messages.dom());
    lemma_ranked(keys, messages, all);
    lemma_ranked_members(keys, messages, all);
    assert(module.funcs@.take(module.funcs@.len() as int) =~= module.funcs@);
    assert forall|text: Seq<char>| #[trigger] messages.contains_key(text) implies (
    offer(text, messages[text], all) is Some == !(pushes(module, placements, body, text).len() == 1
        && !only_mentioned_by(module, placements, f, text))) && (offer(text, messages[text], all)
        is Some ==> {
        let candidate = offer(text, messages[text], all)->0;
        &&& candidate.text == text
        &&& identifier_of(text) == Some(candidate.name)
        &&& candidate.references == pushes(module, placements, body, text).len()
        &&& candidate.unique == only_mentioned_by(module, placements, f, text)
    }) by {
        lemma_messages(module, placements, body, text);
        lemma_mentions(module, placements, f, text);
        lemma_owners(module, placements, text, f, module.funcs@.len() as int);
    }
    assert forall|text: Seq<char>|
        #![trigger mentions(module, placements, f, text)]
        mentions(module, placements, f, text) == messages.contains_key(text) by {
        lemma_mentions(module, placements, f, text);
    }
    let most = best(messages, all, 4);
    if list.len() > 0 {
        lemma_first_is_first(module, list);
        assert(most[0] == list[0]);
        let first = list[0];
        let key = choose|key: Seq<char>|
            keys.contains(key) && #[trigger] offer(key, messages[key], all) == Some(first);
        assert(list.contains(list[0]));
        assert(messages.contains_key(key));
        assert(key == first.text);
        let guess = derived_name(module, placements, f)->0;
        assert(guess.evidence == key);
        lemma_messages(module, placements, body, key);
        assert forall|other: Seq<char>|
            mentions(module, placements, f, other) && !(pushes(module, placements, body, other).len()
                == 1 && !only_mentioned_by(module, placements, f, other)) implies {
            let others = only_mentioned_by(module, placements, f, other);
            let count = pushes(module, placements, body, other).len();
            ||| count < first.references
            ||| count == first.references && first.unique && !others
            ||| count == first.references && first.unique == others && (identifier_of(
                other,
            )->0).len() <= first.name.len()
        } by {
            assert(messages.contains_key(other));
            assert(keys.contains(other));
            let candidate = offer(other, messages[other], all)->0;
            assert(list.contains(candidate));
            let i = choose|i: int| 0 <= i < list.len() && list[i] == candidate;
            if i > 0 {
                assert(!outranks(list[i], list[0]));
            }
        }
    } else {
        assert(first_of_each(list) =~= Seq::empty());
        assert(most.len() == 0);
        assert forall|text: Seq<char>| mentions(module, placements, f, text) implies pushes(
            module,
            placements,
            body,
            text,
        ).len() == 1 && !only_mentioned_by(module, placements, f, text) by {
            assert(messages.contains_key(text));
            assert(keys.contains(text));
            if offer(text, messages[text], all) is Some {
                assert(list.contains(offer(text, messages[text], all)->0));
            }
        }
    }
}

/// Whether a message is in question for the name of a function: the function references it,
/// and not only once while another function does too.
pub open spec fn in_question(
    module: &Module,
    placements: Map<u32, Placement>,
    f: int,
    text: Seq<char>,
) -> bool {
    mentions(module, placements, f, text) && !(pushes(
        module,
        placements,
        module.funcs@[f].body@,
        text,
    ).len() == 1 && !only_mentioned_by(module, placements, f, text))
}

/// Whether a message that is in question starts with a name.
pub open spec fn offered(
    module: &Module,
    placements: Map<u32, Placement>,
    f: int,
    name: Seq<char>,
) -> bool {
    exists|text: Seq<char>| #[trigger]
        in_question(module, placements, f, text) && identifier_of(text) == Some(name)
}

/// The names that lost are the next best: three at most, none of them twice and none of
/// them the one that won, each what a message starts with that the function references;
/// and where there are fewer than three, no other name was in question.
pub proof fn the_names_that_lost_are_the_next_best(
    module: &Module,
    placements: Map<u32, Placement>,
    f: int,
    other: Seq<char>,
)
    requires
        0 <= f < module.funcs@.len(),
        module.funcs@.len() <= usize::MAX,
        forall|g: int|
            0 <= g < module.funcs@.len() ==> (#[trigger] module.funcs@[g]).body@.len()
                <= usize::MAX,
        asserted(
            module,
            placements,
            module.funcs@[f].body@,
            module.funcs@[f].body@.len() as int,
        ) is None,
        derived_name(module, placements, f) is Some,
    ensures
        ({
            let guess = derived_name(module, placements, f)->0;
            &&& guess.rejected.len() <= 3
            &&& guess.rejected.no_duplicates()
            &&& !guess.rejected.contains(guess.name)
            &&& forall|k: int|
                0 <= k < guess.rejected.len() ==> offered(module, placements, f, #[trigger] guess.rejected[k])
            &&& guess.rejected.len() < 3 && in_question(module, placements, f, other) ==> identifier_of(other) == Some(
                guess.name,
            ) || guess.rejected.contains(identifier_of(other)->0)
        }),
{
    let body = module.funcs@[f].body@;
    let messages = messages_of(module, placements, body);
    let all = owners_of(module, placements, module.funcs@);
    let keys = ordered(messages.dom());
    let list = ranked(keys, messages, all);
    lemma_messages_finite(module, placements, body);
    lemma_can_be_ordered(messages.dom());
    lemma_ranked_members(keys, messages, all);
    assert(module.funcs@.take(module.funcs@.len() as int) =~= module.funcs@);
    let guess = derived_name(module, placements, f)->0;
    let most = best(messages, all, 4);
    let firsts = first_of_each(list);
    lemma_firsts(list);
    assert(forall|k: int| 0 <= k < most.len() ==> most[k] == #[trigger] firsts[k]);
    assert forall|k: int| 0 <= k < guess.rejected.len() implies #[trigger] guess.rejected[k]
        == most[k + 1].name by {}
    assert forall|text: Seq<char>| #[trigger] messages.contains_key(text) implies (offer(
        text,
        messages[text],
        all,
    ) is Some == !(pushes(module, placements, body, text).len() == 1 && !only_mentioned_by(
        module,
        placements,
        f,
        text,
    ))) && (offer(text, messages[text], all) is Some ==> identifier_of(text) == Some(
        offer(text, messages[text], all)->0.name,
    )) by {
        lemma_messages(module, placements, body, text);
        lemma_mentions(module, placements, f, text);
        lemma_owners(module, placements, text, f, module.funcs@.len() as int);
    }
    assert forall|k: int| 0 <= k < guess.rejected.len() implies offered(module, placements, f, #[trigger] guess.rejected[k]) by {
        let candidate = most[k + 1];
        assert(candidate == firsts[k + 1]);
        assert(list.contains(candidate));
        let key = choose|key: Seq<char>|
            keys.contains(key) && #[trigger] offer(key, messages[key], all) == Some(candidate);
        assert(messages.contains_key(key));
        lemma_mentions(module, placements, f, key);
        assert(in_question(module, placements, f, key));
    }
    assert(guess.rejected.no_duplicates()) by {
        assert forall|i: int, j: int|
            0 <= i < guess.rejected.len() && 0 <= j < guess.rejected.len() && i
                != j implies guess.rejected[i] != guess.rejected[j] by {
            assert(firsts[i + 1].name != firsts[j + 1].name);
        }
    }
    if guess.rejected.contains(guess.name) {
        let k = choose|k: int| 0 <= k < guess.rejected.len() && guess.rejected[k] == guess.name;
        assert(firsts[0].name != firsts[k + 1].name);
    }
    if guess.rejected.len() < 3 && in_question(module, placements, f, other) {
        lemma_mentions(module, placements, f, other);
        assert(messages.contains_key(other));
        assert(keys.contains(other));
        let candidate = offer(other, messages[other], all)->0;
        assert(list.contains(candidate));
        let k = choose|k: int| 0 <= k < firsts.len() && (#[trigger] firsts[k]).name
            == candidate.name;
        assert(most.len() == firsts.len());
        assert(identifier_of(other) == Some(candidate.name));
        assert(most[k] == firsts[k]);
        if k > 0 {
            assert(guess.rejected[k - 1] == most[k].name);
            assert(guess.rejected.contains(candidate.name));
        } else {
            assert(guess.name == candidate.name);
        }
    }
    assert(guess.rejected.len() <= 3);
    assert(!guess.rejected.contains(guess.name));
}

/// Of each name the first is kept, and of no name two.
proof fn lemma_firsts(list: Seq<CandidateModel>)
    ensures
        forall|i: int|
            0 <= i < first_of_each(list).len() ==> list.contains(#[trigger] first_of_each(list)[i]),
        forall|i: int, j: int|
            0 <= i < first_of_each(list).len() && 0 <= j < first_of_each(list).len() && i != j
                ==> (#[trigger] first_of_each(list)[i]).name != (
            #[trigger] first_of_each(list)[j]).name,
        forall|candidate: CandidateModel| #[trigger]
            list.contains(candidate) ==> exists|k: int|
                0 <= k < first_of_each(list).len() && (#[trigger] first_of_each(list)[k]).name
                    == candidate.name,
    decreases list.len(),
{
    let out = first_of_each(list);
    if list.len() > 0 {
        let less = list.drop_last();
        let before = first_of_each(less);
        let last = list.last();
        lemma_firsts(less);
        assert(list[list.len() - 1] == last);
        assert(forall|k: int| 0 <= k < before.len() ==> out[k] == #[trigger] before[k]);
        assert forall|i: int| 0 <= i < out.len() implies list.contains(#[trigger] out[i]) by {
            if i < before.len() {
                assert(less.contains(before[i]));
                let k = choose|k: int| 0 <= k < less.len() && less[k] == before[i];
                assert(list[k] == out[i]);
            }
        }
        assert forall|i: int, j: int|
            0 <= i < out.len() && 0 <= j < out.len() && i != j implies (#[trigger] out[i]).name != (
        #[trigger] out[j]).name by {
            if i < before.len() && j < before.len() {
                assert(before[i].name != before[j].name);
            } else if i < before.len() {
                assert(before[i] == out[i]);
            } else if j < before.len() {
                assert(before[j] == out[j]);
            }
        }
        assert forall|candidate: CandidateModel| #[trigger] list.contains(candidate) implies
            exists|k: int| 0 <= k < out.len() && (#[trigger] out[k]).name == candidate.name by {
            let at = choose|at: int| 0 <= at < list.len() && list[at] == candidate;
            if at < less.len() {
                assert(less[at] == candidate);
                assert(less.contains(candidate));
                let k = choose|k: int|
                    0 <= k < before.len() && (#[trigger] before[k]).name == candidate.name;
                assert(out[k].name == candidate.name);
            } else if before.len() < out.len() {
                assert(out[before.len() as int].name == candidate.name);
            } else {
                let k = choose|k: int|
                    0 <= k < before.len() && (#[trigger] before[k]).name == candidate.name;
                assert(out[k].name == candidate.name);
            }
        }
    }
}

// ---- assertions ----

/// Whether an import's name says that it reports a failed assertion.
pub open spec fn reports_failure(module: &Module, import: int) -> bool {
    let word = "assert_fail"@;
    &&& 0 <= import < module.func_imports@.len()
    &&& exists|at: int|
        0 <= at && at + word.len() <= module.func_imports@[import].field@.len()
            && #[trigger] module.func_imports@[import].field@.subrange(at, at + word.len()) == word
}

proof fn lemma_reports(module: &Module, import: int)
    requires
        0 <= import < module.func_imports@.len(),
    ensures
        reports_failure(module, import) == holds(
            module.func_imports@[import].field@,
            "assert_fail"@,
        ),
{
    let word = "assert_fail"@;
    let field = module.func_imports@[import].field@;
    if holds(field, word) {
        let at = choose|at: int| stands_at(field, word, at);
        assert(field.subrange(at, at + word.len()) == word);
    }
    if reports_failure(module, import) {
        let at = choose|at: int|
            0 <= at && at + word.len() <= field.len() && #[trigger] field.subrange(
                at,
                at + word.len(),
            ) == word;
        assert(stands_at(field, word, at));
    }
}

/// The first import whose name says so is the one that is called.
proof fn lemma_assert_fail(module: &Module, import: int)
    ensures
        is_assert_fail(module.func_imports@, import) == (reports_failure(module, import)
            && forall|j: int| 0 <= j < import ==> !#[trigger] reports_failure(module, j)),
{
    if 0 <= import < module.func_imports@.len() {
        lemma_reports(module, import);
        assert forall|j: int| 0 <= j < import implies #[trigger] reports_failure(module, j)
            == holds(module.func_imports@[j].field@, "assert_fail"@) by {
            lemma_reports(module, j);
        }
        if is_assert_fail(module.func_imports@, import) {
            assert forall|j: int| 0 <= j < import implies !#[trigger] reports_failure(
                module,
                j,
            ) by {
                assert(!holds(module.func_imports@[j].field@, "assert_fail"@));
            }
        }
        if reports_failure(module, import) && forall|j: int|
            0 <= j < import ==> !#[trigger] reports_failure(module, j) {
            assert forall|j: int| 0 <= j < import implies !holds(
                (#[trigger] module.func_imports@[j]).field@,
                "assert_fail"@,
            ) by {
                assert(!reports_failure(module, j));
            }
        }
    }
}

/// Whether an instruction calls the import that reports a failed assertion, directly
/// after the address of a C identifier, which is then the name of the function.
pub open spec fn asserts(
    module: &Module,
    placements: Map<u32, Placement>,
    body: Seq<Op>,
    p: int,
    name: Seq<char>,
) -> bool {
    &&& 0 < p < body.len()
    &&& body[p] is Call
    &&& reports_failure(module, body[p]->Call_0 as int)
    &&& forall|j: int| 0 <= j < body[p]->Call_0 ==> !#[trigger] reports_failure(module, j)
    &&& body[p - 1] is I32Const
    &&& message_at(module, placements, body[p - 1]->I32Const_0, None) == Some(name)
    &&& c_identifier(name)
}

/// The first assertion a function makes names it, whatever its messages say, with the
/// assertion as the evidence; where the module names the function itself, nothing is
/// guessed.
pub proof fn the_first_assertion_names_the_function(
    module: &Module,
    placements: Map<u32, Placement>,
    f: int,
    p: int,
    name: Seq<char>,
)
    requires
        0 <= f < module.funcs@.len(),
        asserts(module, placements, module.funcs@[f].body@, p, name),
        forall|q: int, other: Seq<char>|
            0 <= q < p ==> !#[trigger] asserts(
                module,
                placements,
                module.funcs@[f].body@,
                q,
                other,
            ),
    ensures
        match derived_name(module, placements, f) {
            None => named(module, (module.func_imports@.len() + f) as u32),
            Some(guess) => {
                &&& !named(module, (module.func_imports@.len() + f) as u32)
                &&& guess.name == name
                &&& guess.source == NameSource::Assert
                &&& guess.evidence == "__assert_fail(.., \""@ + name + "\")"@
            },
        },
{
    let body = module.funcs@[f].body@;
    lemma_first_asserted(module, placements, body, p, name, body.len() as int);
}

/// What the first assertion says is what is asserted.
proof fn lemma_first_asserted(
    module: &Module,
    placements: Map<u32, Placement>,
    body: Seq<Op>,
    p: int,
    name: Seq<char>,
    n: int,
)
    requires
        0 <= n <= body.len(),
        asserts(module, placements, body, p, name),
        forall|q: int, other: Seq<char>|
            0 <= q < p ==> !#[trigger] asserts(module, placements, body, q, other),
    ensures
        asserted(module, placements, body, n) == if n > p {
            Some(name)
        } else {
            None
        },
    decreases n,
{
    if n > 0 {
        lemma_first_asserted(module, placements, body, p, name, n - 1);
        if body[n - 1] is Call {
            lemma_assert_fail(module, body[n - 1]->Call_0 as int);
        }
        if n - 1 < p {
            match name_asserted(module, placements, body, n - 1) {
                Some(other) => {
                    assert(asserts(module, placements, body, n - 1, other));
                },
                None => {},
            }
        }
    }
}

/// The names but one are those of the list without it, in its order.
proof fn lemma_names_but(list: Seq<CandidateModel>, name: Seq<char>)
    ensures
        names_but(list, name) == list.map_values(|candidate: CandidateModel| candidate.name).filter(
            |other: Seq<char>| other != name,
        ),
    decreases list.len(),
{
    reveal(Seq::filter);
    let names = list.map_values(|candidate: CandidateModel| candidate.name);
    if list.len() > 0 {
        let less = list.drop_last();
        lemma_names_but(less, name);
        assert(names.drop_last() =~= less.map_values(|candidate: CandidateModel| candidate.name));
        assert(names.last() == list.last().name);
    } else {
        assert(names =~= Seq::empty());
    }
}

/// Where an assertion names a function, the names that its messages offer best, up to
/// three, have lost, but for the one that won.
pub proof fn messages_lose_against_an_assertion(
    module: &Module,
    placements: Map<u32, Placement>,
    f: int,
)
    requires
        derived_name(module, placements, f) is Some,
        (derived_name(module, placements, f)->0).source == NameSource::Assert,
    ensures
        ({
            let guess = derived_name(module, placements, f)->0;
            let offers = best(
                messages_of(module, placements, module.funcs@[f].body@),
                owners_of(module, placements, module.funcs@),
                3,
            );
            &&& offers.len() <= 3
            &&& guess.rejected == offers.map_values(
                |candidate: CandidateModel| candidate.name,
            ).filter(|other: Seq<char>| other != guess.name)
        }),
{
    let guess = derived_name(module, placements, f)->0;
    let offers = best(
        messages_of(module, placements, module.funcs@[f].body@),
        owners_of(module, placements, module.funcs@),
        3,
    );
    lemma_names_but(offers, guess.name);
}

} // verus!
