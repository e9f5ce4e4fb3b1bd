//! What was answered with a default.

use vstd::prelude::*;
use vstd::string::StringExecFns;
use crate::text::pieces::{
    decimal, join, joined, push_decimal, push_signed, signed_decimal, texts,
};
use crate::text::table::TextMap;

verus! {

/// The imports a run answered with a default rather than with an answer.
///
/// A stub that returns zero is a hypothesis: the module cannot tell it from a real
/// answer, and neither can a reader. This does not make it safe; it makes it
/// visible. Every default is counted and the arguments of the first call are kept.
#[derive(Debug, Clone, PartialEq, Eq)]
pub struct Unanswered {
    /// Each import that was answered with a default: how many times, and the
    /// arguments it was given the first time.
    pub calls: TextMap<(usize, Vec<i64>)>,
    /// The order they were first reached in, which is usually the story.
    pub order: Vec<String>,
}

/// Calls, as plain values.
pub open spec fn call_models(calls: Map<Seq<char>, (usize, Vec<i64>)>) -> Map<
    Seq<char>,
    (usize, Seq<i64>),
> {
    calls.map_values(|call: (usize, Vec<i64>)| (call.0, call.1@))
}

/// Calls with one more: it is counted, and the arguments kept are those of the first
/// call.
pub open spec fn with_call(
    calls: Map<Seq<char>, (usize, Seq<i64>)>,
    import: Seq<char>,
    arguments: Seq<i64>,
) -> Map<Seq<char>, (usize, Seq<i64>)> {
    if calls.contains_key(import) {
        calls.insert(import, ((calls[import].0 + 1) as usize, calls[import].1))
    } else {
        calls.insert(import, (1usize, arguments))
    }
}

/// Whether an order holds exactly the imports of some calls, each once.
pub open spec fn accounts_for(
    order: Seq<Seq<char>>,
    calls: Map<Seq<char>, (usize, Seq<i64>)>,
) -> bool {
    &&& order.no_duplicates()
    &&& forall|import: Seq<char>| #[trigger] order.contains(import) == calls.contains_key(import)
}

/// The order in which imports were first reached, with one more call.
pub open spec fn with_place(order: Seq<Seq<char>>, import: Seq<char>) -> Seq<Seq<char>> {
    if order.contains(import) {
        order
    } else {
        order.push(import)
    }
}

/// An order that accounts for some calls accounts for them with one more.
pub proof fn lemma_accounts_for(
    order: Seq<Seq<char>>,
    calls: Map<Seq<char>, (usize, Seq<i64>)>,
    import: Seq<char>,
    arguments: Seq<i64>,
)
    requires
        accounts_for(order, calls),
    ensures
        accounts_for(with_place(order, import), with_call(calls, import, arguments)),
{
    let after = with_place(order, import);
    let made = with_call(calls, import, arguments);
    assert forall|other: Seq<char>| #[trigger] after.contains(other) == made.contains_key(other) by {
        assert(order.contains(other) == calls.contains_key(other));
        if order.contains(other) {
            let i = choose|i: int| 0 <= i < order.len() && order[i] == other;
            assert(after[i] == other);
        }
        if other == import && !order.contains(import) {
            assert(after[order.len() as int] == import);
        }
        if after.contains(other) && other != import {
            let i = choose|i: int| 0 <= i < after.len() && after[i] == other;
            assert(order[i] == other);
        }
    }
}

/// Numbers as they are written out.
pub open spec fn numbers(list: Seq<i64>) -> Seq<Seq<char>> {
    list.map_values(|n: i64| signed_decimal(n as int))
}

/// The line a report has for an import.
pub open spec fn line_for(import: Seq<char>, call: (usize, Seq<i64>)) -> Seq<char> {
    "  "@ + import + "  "@ + decimal(call.0 as nat) + "x, first ("@ + joined(
        numbers(call.1),
        ", "@,
    ) + ")\n"@
}

/// The lines a report has for some imports.
pub open spec fn lines_for(order: Seq<Seq<char>>, calls: Map<Seq<char>, (usize, Seq<i64>)>) -> Seq<
    char,
>
    decreases order.len(),
{
    if order.len() == 0 {
        Seq::empty()
    } else {
        let before = lines_for(order.drop_last(), calls);
        if calls.contains_key(order.last()) {
            before + line_for(order.last(), calls[order.last()])
        } else {
            before
        }
    }
}

impl Default for Unanswered {
    fn default() -> (unanswered: Self)
        ensures
            unanswered.wf(),
            unanswered.made() == Map::<Seq<char>, (usize, Seq<i64>)>::empty(),
            texts(unanswered.order@) == Seq::<Seq<char>>::empty(),
    {
        let unanswered: Unanswered = Unanswered { calls: TextMap::new(), order: Vec::new() };
        assert(unanswered.made() =~= Map::empty());
        assert(texts(unanswered.order@) =~= Seq::empty());
        assert(forall|import: Seq<char>| !Seq::<Seq<char>>::empty().contains(import));
        unanswered
    }
}

impl Unanswered {
    /// The order holds exactly the imports that were recorded, each once.
    pub open spec fn wf(&self) -> bool {
        &&& self.calls.wf()
        &&& accounts_for(texts(self.order@), self.made())
    }

    /// The calls that were made, as plain values.
    pub open spec fn made(&self) -> Map<Seq<char>, (usize, Seq<i64>)> {
        call_models(self.calls@)
    }

    /// Records one call answered with a default.
    pub fn record(&mut self, import: &str, arguments: &[i64])
        requires
            old(self).wf(),
            old(self).made().contains_key(import@) ==> old(self).made()[import@].0 < usize::MAX,
        ensures
            final(self).wf(),
            final(self).made() == with_call(old(self).made(), import@, arguments@),
            texts(final(self).order@) == with_place(texts(old(self).order@), import@),
    {
        let ghost before = self.made();
        let ghost order = texts(self.order@);
        proof {
            lemma_accounts_for(order, before, import@, arguments@);
            assert(order.contains(import@) == before.contains_key(import@));
        }
        match self.calls.remove(import) {
            Some((count, first)) => {
                assert(before[import@] == (count, first@));
                let ghost kept = first@;
                self.calls.insert(import.to_owned(), (count + 1, first));
                assert(self.made() =~= before.insert(import@, ((count + 1) as usize, kept)));
            },
            None => {
                let first: Vec<i64> = copy_numbers(arguments);
                self.calls.insert(import.to_owned(), (1, first));
                self.order.push(import.to_owned());
                assert(self.made() =~= before.insert(import@, (1usize, arguments@)));
                assert(texts(self.order@) =~= order.push(import@));
            },
        }
    }

    /// Whether nothing was.
    pub fn is_empty(&self) -> (yes: bool)
        requires
            self.wf(),
        ensures
            yes == (self.made() == Map::<Seq<char>, (usize, Seq<i64>)>::empty()),
    {
        let yes: bool = self.calls.is_empty();
        proof {
            self.calls.lemma_shape();
            if yes {
                assert(self.made() =~= Map::empty());
            } else {
                assert(self.made().contains_key(self.calls.keys()[0]));
            }
        }
        yes
    }

    /// What a run rested on, in the order it reached them.
    ///
    /// Print this beside any result from such a run. A conclusion drawn under forty
    /// invented answers is a conclusion about forty invented answers.
    pub fn report(&self) -> (text: String)
        requires
            self.wf(),
        ensures
            text@ == if self.made() == Map::<Seq<char>, (usize, Seq<i64>)>::empty() {
                "nothing was answered with a default\n"@
            } else {
                decimal(self.made().dom().len())
                    + " imports were answered with a default rather than an answer:\n"@ + lines_for(
                    texts(self.order@),
                    self.made(),
                )
            },
    {
        if self.is_empty() {
            return "nothing was answered with a default\n".to_owned();
        }
        let mut text: String = String::new();
        push_decimal(&mut text, self.calls.len() as u64);
        text.append(" imports were answered with a default rather than an answer:\n");
        let ghost head = text@;
        let ghost order = texts(self.order@);
        proof {
            self.calls.lemma_shape();
            self.calls.keys().unique_seq_to_set();
            assert(self.calls.keys().to_set() =~= self.made().dom());
            assert(head =~= decimal(self.made().dom().len())
                + " imports were answered with a default rather than an answer:\n"@);
            assert(order.take(0) =~= Seq::empty());
            assert(head + Seq::<char>::empty() =~= head);
        }
        let mut i: usize = 0;
        while i < self.order.len()
            invariant
                self.wf(),
                i <= self.order@.len(),
                order == texts(self.order@),
                text@ == head + lines_for(order.take(i as int), self.made()),
            decreases self.order@.len() - i,
        {
            let import: &String = &self.order[i];
            let ghost had = text@;
            proof {
                assert(order.take(i + 1).drop_last() =~= order.take(i as int));
                assert(order.take(i + 1).last() == import@);
            }
            match self.calls.get(import.as_str()) {
                Some(call) => {
                    assert(self.made()[import@] == (call.0, call.1@));
                    text.append("  ");
                    text.append(import.as_str());
                    text.append("  ");
                    push_decimal(&mut text, call.0 as u64);
                    text.append("x, first (");
                    let shown: Vec<String> = spell(&call.1);
                    text.append(join(&shown, ", ").as_str());
                    text.append(")\n");
                    assert(text@ =~= had + line_for(import@, self.made()[import@]));
                },
                None => {},
            }
            i = i + 1;
            assert(text@ =~= head + lines_for(order.take(i as int), self.made()));
        }
        assert(order.take(i as int) =~= order);
        text
    }
}

/// The same numbers.
fn copy_numbers(list: &[i64]) -> (copy: Vec<i64>)
    ensures
        copy@ == list@,
{
    let mut copy: Vec<i64> = Vec::new();
    let mut i: usize = 0;
    while i < list.len()
        invariant
            i <= list@.len(),
            copy@ == list@.take(i as int),
        decreases list@.len() - i,
    {
        copy.push(list[i]);
        i = i + 1;
        assert(copy@ =~= list@.take(i as int));
    }
    assert(list@.take(i as int) =~= list@);
    copy
}

/// Writes numbers out.
fn spell(list: &Vec<i64>) -> (out: Vec<String>)
    ensures
        texts(out@) == numbers(list@),
{
    let mut out: Vec<String> = Vec::new();
    let mut i: usize = 0;
    assert(texts(out@) =~= numbers(list@).take(0));
    while i < list.len()
        invariant
            i <= list@.len(),
            texts(out@) == numbers(list@).take(i as int),
        decreases list@.len() - i,
    {
        let ghost before = texts(out@);
        let mut text: String = String::new();
        push_signed(&mut text, list[i]);
        assert(text@ =~= signed_decimal(list@[i as int] as int));
        out.push(text);
        i = i + 1;
        proof {
            assert(texts(out@) =~= before.push(numbers(list@)[i - 1]));
            assert(texts(out@) =~= numbers(list@).take(i as int));
        }
    }
    assert(numbers(list@).take(i as int) =~= numbers(list@));
    out
}

} // verus!
