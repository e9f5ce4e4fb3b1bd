//! Filling a template in.

use vstd::prelude::*;
use vstd::string::StringExecFns;
use crate::module::operator::{all_digits, digits_value};
use crate::text::pieces::{chars_of, text_of, texts};

verus! {

/// Where a character first stands at or after `at`, or the end.
pub open spec fn find_char(text: Seq<char>, ch: char, at: int) -> int
    decreases text.len() - at,
{
    if at >= text.len() {
        text.len() as int
    } else if text[at] == ch {
        at
    } else {
        find_char(text, ch, at + 1)
    }
}

/// The operand a placeholder names: decimal digits, with or without a plus.
pub open spec fn placeholder(inside: Seq<char>) -> Option<nat> {
    let digits = if inside.len() > 0 && inside[0] == '+' {
        inside.drop_first()
    } else {
        inside
    };
    if digits.len() > 0 && all_digits(digits) {
        Some(digits_value(digits))
    } else {
        None
    }
}

/// A template with its placeholders replaced, if every one of them names an
/// operand.
pub open spec fn rendered(template: Seq<char>, operands: Seq<Seq<char>>) -> Option<Seq<char>>
    decreases template.len(),
{
    let open = find_char(template, '{', 0);
    if open >= template.len() {
        Some(template)
    } else {
        let close = find_char(template, '}', open);
        if close >= template.len() {
            None
        } else {
            proof {
                lemma_find_char(template, '{', 0);
                lemma_find_char(template, '}', open);
            }
            match placeholder(template.subrange(open + 1, close)) {
                Some(operand) => match rendered(template.skip(close + 1), operands) {
                    Some(rest) => if operand < operands.len() {
                        Some(template.take(open) + operands[operand as int] + rest)
                    } else {
                        None
                    },
                    None => None,
                },
                None => None,
            }
        }
    }
}

/// The search for a character stays between where it starts and the end.
pub proof fn lemma_find_char(text: Seq<char>, ch: char, at: int)
    requires
        0 <= at <= text.len(),
    ensures
        at <= find_char(text, ch, at) <= text.len(),
        find_char(text, ch, at) < text.len() ==> text[find_char(text, ch, at)] == ch,
    decreases text.len() - at,
{
    if at < text.len() && text[at] != ch {
        lemma_find_char(text, ch, at + 1);
    }
}

/// Looking from `from` on is looking in what is left from there.
proof fn lemma_find_char_shift(text: Seq<char>, ch: char, from: int, at: int)
    requires
        0 <= from,
        0 <= at,
        from + at <= text.len(),
    ensures
        find_char(text.skip(from), ch, at) == find_char(text, ch, from + at) - from,
    decreases text.len() - from - at,
{
    if from + at < text.len() {
        assert(text.skip(from)[at] == text[from + at]);
        if text[from + at] != ch {
            lemma_find_char_shift(text, ch, from, at + 1);
        }
    }
}

/// Where a character first stands at or after `at`, or the end.
fn position(chars: &Vec<char>, ch: char, from: usize) -> (at: usize)
    requires
        from <= chars@.len(),
    ensures
        at == find_char(chars@, ch, from as int),
        from <= at <= chars@.len(),
{
    let mut at: usize = from;
    while at < chars.len()
        invariant
            from <= at <= chars@.len(),
            find_char(chars@, ch, from as int) == find_char(chars@, ch, at as int),
        decreases chars@.len() - at,
    {
        if chars[at] == ch {
            return at;
        }
        at = at + 1;
    }
    at
}

/// A longer run of digits is worth no less.
proof fn lemma_digits_grow(digits: Seq<char>, n: int)
    requires
        0 <= n <= digits.len(),
        all_digits(digits),
    ensures
        digits_value(digits.take(n)) <= digits_value(digits),
    decreases digits.len() - n,
{
    if n < digits.len() {
        let longer = digits.take(n + 1);
        assert(longer.drop_last() =~= digits.take(n));
        assert('0' <= digits[n] <= '9');
        lemma_digits_grow(digits, n + 1);
    } else {
        assert(digits.take(n) =~= digits);
    }
}

/// The number the digits between `from` and `to` spell, if it is below `limit`.
fn operand_number(chars: &Vec<char>, from: usize, to: usize, limit: usize) -> (value: usize)
    requires
        from < to <= chars@.len(),
        all_digits(chars@.subrange(from as int, to as int)),
        digits_value(chars@.subrange(from as int, to as int)) < limit,
    ensures
        value == digits_value(chars@.subrange(from as int, to as int)),
{
    let ghost digits = chars@.subrange(from as int, to as int);
    let mut value: usize = 0;
    let mut at: usize = from;
    assert(digits.take(0) =~= Seq::empty());
    while at < to
        invariant
            digits == chars@.subrange(from as int, to as int),
            from <= at <= to <= chars@.len(),
            all_digits(digits),
            digits_value(digits) < limit,
            value == digits_value(digits.take(at - from)),
        decreases to - at,
    {
        let ch: char = chars[at];
        proof {
            assert(digits[at - from] == ch);
            assert(digits.take(at - from + 1).drop_last() =~= digits.take(at - from));
            assert(digits.take(at - from + 1).last() == ch);
            lemma_digits_grow(digits, at - from + 1);
        }
        value = value * 10 + (ch as u32 as usize - 48);
        at = at + 1;
    }
    assert(digits.take(at - from) =~= digits);
    value
}

/// Substitutes `{0}`, `{1}`, `{2}` in a template with the given operands.
pub fn render(template: &str, operands: &[String]) -> (text: String)
    requires
        rendered(template@, texts(operands@)) is Some,
    ensures
        Some(text@) == rendered(template@, texts(operands@)),
{
    let chars: Vec<char> = chars_of(template);
    let ghost all = texts(operands@);
    let mut out: String = String::new();
    let mut at: usize = 0;
    assert(chars@.skip(0) =~= chars@);
    assert(out@ + rendered(chars@, all)->0 =~= rendered(chars@, all)->0);
    loop
        invariant
            chars@ == template@,
            all == texts(operands@),
            at <= chars@.len(),
            rendered(template@, all) is Some,
            rendered(chars@.skip(at as int), all) is Some,
            out@ + rendered(chars@.skip(at as int), all)->0 == rendered(template@, all)->0,
        decreases chars@.len() - at,
    {
        let ghost rest = chars@.skip(at as int);
        let open: usize = position(&chars, '{', at);
        proof {
            lemma_find_char_shift(chars@, '{', at as int, 0);
        }
        let ahead: String = text_of(&chars, at, open);
        out.append(ahead.as_str());
        if open == chars.len() {
            assert(ahead@ =~= rest);
            return out;
        }
        let close: usize = position(&chars, '}', open);
        proof {
            lemma_find_char(chars@, '{', at as int);
            lemma_find_char(chars@, '}', open as int);
            lemma_find_char_shift(chars@, '}', at as int, open - at);
            assert(open < close < chars@.len());
            assert(rest.subrange(open - at + 1, close - at) =~= chars@.subrange(
                open + 1,
                close as int,
            ));
            assert(rest.skip(close - at + 1) =~= chars@.skip(close + 1));
            assert(rest.take(open - at) =~= ahead@);
        }
        let ghost inside = chars@.subrange(open + 1, close as int);
        let from: usize = if open + 1 < close && chars[open + 1] == '+' {
            assert(inside[0] == '+');
            assert(inside.drop_first() =~= chars@.subrange(open + 2, close as int));
            open + 2
        } else {
            assert(inside.len() > 0 ==> inside[0] == chars@[open + 1]);
            open + 1
        };
        let operand: usize = operand_number(&chars, from, close, operands.len());
        assert(all[operand as int] == operands@[operand as int]@);
        out.append(operands[operand].as_str());
        at = close + 1;
        assert(out@ + rendered(chars@.skip(at as int), all)->0 =~= rendered(template@, all)->0);
    }
}

} // verus!
