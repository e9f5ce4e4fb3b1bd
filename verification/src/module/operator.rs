//! An operator as the decoder spells it.
//!
//! The decoder's own text of an operator is its name and its immediates, such as
//! `I32Load { memarg: MemArg { align: 2, max_align: 2, offset: 8, memory: 0 } }`.
//! It is taken apart into words, and an immediate is the word after its key.

use vstd::prelude::*;
use crate::text::pieces::{chars_of, same_as};

verus! {

/// An operator, as the decoder spells it.
#[derive(Debug, Clone, PartialEq, Eq)]
pub struct Operator {
    /// The text: the operator's name, and its immediates in braces.
    pub text: String,
}

/// Whether a character belongs to a word rather than between words.
pub open spec fn in_word(ch: char) -> bool {
    ||| 'a' <= ch <= 'z'
    ||| 'A' <= ch <= 'Z'
    ||| '0' <= ch <= '9'
    ||| ch == '_'
    ||| ch == '-'
}

/// Where the word that is under way at `at` ends.
pub open spec fn word_end(text: Seq<char>, at: int) -> int
    decreases text.len() - at,
{
    if 0 <= at < text.len() && in_word(text[at]) {
        word_end(text, at + 1)
    } else {
        at
    }
}

/// The words of a text from `at` on: the longest runs of word characters.
pub open spec fn words_from(text: Seq<char>, at: int) -> Seq<Seq<char>>
    decreases text.len() - at,
{
    if at < 0 || at >= text.len() {
        Seq::empty()
    } else if in_word(text[at]) {
        proof {
            lemma_word_end(text, at);
        }
        seq![text.subrange(at, word_end(text, at))] + words_from(text, word_end(text, at))
    } else {
        words_from(text, at + 1)
    }
}

/// The words of a text.
pub open spec fn words_of(text: Seq<char>) -> Seq<Seq<char>> {
    words_from(text, 0)
}

/// The first word of a text, or nothing.
pub open spec fn first_word(text: Seq<char>) -> Seq<char> {
    if words_of(text).len() > 0 {
        words_of(text)[0]
    } else {
        Seq::empty()
    }
}

/// A word that is under way ends after where it is, and inside the text.
pub proof fn lemma_word_end(text: Seq<char>, at: int)
    requires
        0 <= at <= text.len(),
    ensures
        at <= word_end(text, at) <= text.len(),
        at < text.len() && in_word(text[at]) ==> at < word_end(text, at),
    decreases text.len() - at,
{
    if at < text.len() && in_word(text[at]) {
        lemma_word_end(text, at + 1);
    }
}

/// Whether a character belongs to a word.
fn is_in_word(ch: char) -> (yes: bool)
    ensures
        yes == in_word(ch),
{
    ('a' <= ch && ch <= 'z') || ('A' <= ch && ch <= 'Z') || ('0' <= ch && ch <= '9') || ch == '_'
        || ch == '-'
}

/// The word at `from`, and where it ends.
fn take_word(chars: &Vec<char>, from: usize) -> (word: (Vec<char>, usize))
    requires
        from <= chars@.len(),
    ensures
        word.1 == word_end(chars@, from as int),
        word.1 <= chars@.len(),
        word.0@ == chars@.subrange(from as int, word.1 as int),
{
    let mut word: Vec<char> = Vec::new();
    let mut at: usize = from;
    while at < chars.len() && is_in_word(chars[at])
        invariant
            from <= at <= chars@.len(),
            word@ == chars@.subrange(from as int, at as int),
            word_end(chars@, from as int) == word_end(chars@, at as int),
        decreases chars@.len() - at,
    {
        word.push(chars[at]);
        at = at + 1;
        assert(word@ =~= chars@.subrange(from as int, at as int));
    }
    (word, at)
}

/// Lists of characters as texts.
pub open spec fn spelled(words: Seq<Vec<char>>) -> Seq<Seq<char>> {
    words.map_values(|word: Vec<char>| word@)
}

impl Operator {
    /// Reads an operator.
    pub fn read(text: &str) -> (operator: Self)
        ensures
            operator.text@ == text@,
    {
        Operator { text: text.to_owned() }
    }

    /// Its words: the name, and the keys and values of the immediates.
    pub open spec fn parts(&self) -> Seq<Seq<char>> {
        words_of(self.text@)
    }

    /// Its name.
    pub open spec fn name(&self) -> Seq<char> {
        first_word(self.text@)
    }

    /// Its words.
    pub fn words(&self) -> (words: Vec<Vec<char>>)
        ensures
            spelled(words@) == self.parts(),
    {
        let chars: Vec<char> = chars_of(self.text.as_str());
        let mut words: Vec<Vec<char>> = Vec::new();
        let mut at: usize = 0;
        assert(spelled(words@) + words_from(chars@, 0) =~= words_from(chars@, 0));
        while at < chars.len()
            invariant
                chars@ == self.text@,
                at <= chars@.len(),
                spelled(words@) + words_from(chars@, at as int) == self.parts(),
            decreases chars@.len() - at,
        {
            proof {
                lemma_word_end(chars@, at as int);
            }
            if is_in_word(chars[at]) {
                let ghost before = words@;
                let (word, end) = take_word(&chars, at);
                words.push(word);
                proof {
                    assert(spelled(words@) =~= spelled(before).push(word@));
                    let rest = words_from(chars@, end as int);
                    assert(spelled(words@) + rest =~= spelled(before) + (seq![word@] + rest));
                }
                at = end;
            } else {
                at = at + 1;
            }
        }
        assert(spelled(words@) =~= self.parts());
        words
    }

    /// Its name.
    pub fn name_chars(&self) -> (name: Vec<char>)
        ensures
            name@ == self.name(),
    {
        let chars: Vec<char> = chars_of(self.text.as_str());
        let mut at: usize = 0;
        while at < chars.len()
            invariant
                chars@ == self.text@,
                at <= chars@.len(),
                words_from(chars@, at as int) == self.parts(),
            decreases chars@.len() - at,
        {
            proof {
                lemma_word_end(chars@, at as int);
            }
            if is_in_word(chars[at]) {
                let (word, end) = take_word(&chars, at);
                return word;
            }
            at = at + 1;
        }
        let name: Vec<char> = Vec::new();
        assert(name@ =~= self.name());
        name
    }
}

/// The word that follows the first `key` at or after `at`.
pub open spec fn value_from(words: Seq<Seq<char>>, key: Seq<char>, at: int) -> Option<Seq<char>>
    decreases words.len() - at,
{
    if at < 0 || at + 1 >= words.len() {
        None
    } else if words[at] == key {
        Some(words[at + 1])
    } else {
        value_from(words, key, at + 1)
    }
}

/// The value of an immediate: the word after its key.
pub open spec fn value_of(words: Seq<Seq<char>>, key: Seq<char>) -> Option<Seq<char>> {
    value_from(words, key, 1)
}

/// Where the value of an immediate stands.
pub(crate) fn find_value(words: &Vec<Vec<char>>, key: &str) -> (at: Option<usize>)
    ensures
        match at {
            Some(at) => at < words@.len() && value_of(spelled(words@), key@) == Some(
                words@[at as int]@,
            ),
            None => value_of(spelled(words@), key@) is None,
        },
{
    let mut at: usize = 1;
    while at < words.len() && words.len() - at > 1
        invariant
            1 <= at,
            value_of(spelled(words@), key@) == value_from(spelled(words@), key@, at as int),
        decreases words@.len() - at,
    {
        assert(spelled(words@)[at as int] == words@[at as int]@);
        if same_as(&words[at], key) {
            assert(spelled(words@)[at + 1] == words@[at + 1]@);
            return Some(at + 1);
        }
        at = at + 1;
    }
    None
}

/// The value of a run of decimal digits.
pub open spec fn digits_value(digits: Seq<char>) -> nat
    decreases digits.len(),
{
    if digits.len() == 0 {
        0
    } else {
        digits_value(digits.drop_last()) * 10 + (digits.last() as nat - 48) as nat
    }
}

/// Whether all characters are decimal digits.
pub open spec fn all_digits(digits: Seq<char>) -> bool {
    forall|i: int| 0 <= i < digits.len() ==> '0' <= #[trigger] digits[i] <= '9'
}

/// The number a word spells, if it spells one of at most twenty digits.
pub open spec fn number(word: Seq<char>) -> Option<int> {
    if word.len() > 0 && word[0] == '-' {
        if 0 < word.len() - 1 <= 20 && all_digits(word.drop_first()) {
            Some(-(digits_value(word.drop_first()) as int))
        } else {
            None
        }
    } else if 0 < word.len() <= 20 && all_digits(word) {
        Some(digits_value(word) as int)
    } else {
        None
    }
}

/// The number the digits of a word from `from` on spell.
fn read_digits(word: &Vec<char>, from: usize) -> (value: Option<i128>)
    requires
        from <= word@.len(),
    ensures
        ({
            let digits = word@.skip(from as int);
            value == if 0 < digits.len() <= 20 && all_digits(digits) {
                Some(digits_value(digits) as i128)
            } else {
                None
            }
        }),
        value is Some ==> 0 <= value->0 < 100_000_000_000_000_000_000,
        value is Some ==> value->0 == digits_value(word@.skip(from as int)),
{
    let ghost digits = word@.skip(from as int);
    if word.len() == from || word.len() - from > 20 {
        return None;
    }
    let mut value: i128 = 0;
    let mut at: usize = from;
    let ghost mut bound: int = 1;
    assert(digits.take(0) =~= Seq::empty());
    while at < word.len()
        invariant
            digits == word@.skip(from as int),
            from <= at <= word@.len(),
            word@.len() - from <= 20,
            value == digits_value(digits.take(at - from)),
            bound == pow10((at - from) as nat),
            0 <= value < bound,
            forall|i: int| 0 <= i < at - from ==> '0' <= #[trigger] digits[i] <= '9',
        decreases word@.len() - at,
    {
        let ch: char = word[at];
        assert(digits[at - from] == ch);
        if ch < '0' || ch > '9' {
            return None;
        }
        proof {
            lemma_pow10_bound((at - from) as nat);
            assert(digits.take(at - from + 1).drop_last() =~= digits.take(at - from));
            assert(digits.take(at - from + 1).last() == ch);
            bound = bound * 10;
        }
        value = value * 10 + (ch as u32 as i128 - 48);
        at = at + 1;
    }
    proof {
        assert(digits.take(at - from) =~= digits);
        lemma_pow10_twenty((at - from) as nat);
    }
    Some(value)
}

/// Ten to the power of `n`.
pub open spec fn pow10(n: nat) -> int
    decreases n,
{
    if n == 0 {
        1
    } else {
        10 * pow10((n - 1) as nat)
    }
}

/// No more than twenty digits stay below ten to the twentieth.
proof fn lemma_pow10_twenty(n: nat)
    requires
        n <= 20,
    ensures
        1 <= pow10(n) <= 100_000_000_000_000_000_000,
{
    reveal_with_fuel(pow10, 21);
    lemma_pow10_monotonic(n, 20);
}

/// A bound for the powers that occur.
proof fn lemma_pow10_bound(n: nat)
    requires
        n < 20,
    ensures
        pow10(n + 1) == 10 * pow10(n),
        1 <= pow10(n) <= 100_000_000_000_000_000_000,
{
    lemma_pow10_twenty(n);
}

/// More digits reach further.
proof fn lemma_pow10_monotonic(a: nat, b: nat)
    requires
        a <= b,
    ensures
        1 <= pow10(a) <= pow10(b),
    decreases b,
{
    if a < b {
        lemma_pow10_monotonic(a, (b - 1) as nat);
    } else if a > 0 {
        lemma_pow10_monotonic((a - 1) as nat, (a - 1) as nat);
    }
}

/// The number a word spells.
pub fn read_number(word: &Vec<char>) -> (value: Option<i128>)
    ensures
        match value {
            Some(value) => number(word@) == Some(value as int),
            None => number(word@) is None,
        },
{
    if word.len() > 0 && word[0] == '-' {
        assert(word@.skip(1) =~= word@.drop_first());
        match read_digits(word, 1) {
            Some(value) => Some(-value),
            None => None,
        }
    } else {
        assert(word@.skip(0) =~= word@);
        read_digits(word, 0)
    }
}

/// The number of an immediate, if it is there.
pub open spec fn immediate(words: Seq<Seq<char>>, key: Seq<char>) -> Option<int> {
    match value_of(words, key) {
        Some(word) => number(word),
        None => None,
    }
}

/// The number of an immediate, if it is there.
pub fn read_immediate(words: &Vec<Vec<char>>, key: &str) -> (value: Option<i128>)
    ensures
        match value {
            Some(value) => immediate(spelled(words@), key@) == Some(value as int),
            None => immediate(spelled(words@), key@) is None,
        },
{
    match find_value(words, key) {
        Some(at) => read_number(&words[at]),
        None => None,
    }
}

} // verus!
