//! Taking text apart and putting it together.

use vstd::prelude::*;
use vstd::string::StringExecFns;
use vstd::utf8::{decode_utf8, valid_utf8};

verus! {

/// `String::push` appends one character.
pub assume_specification[ String::push ](text: &mut String, ch: char)
    ensures
        final(text)@ == old(text)@.push(ch),
;

/// What `String::from_utf8_lossy` makes of a run of bytes.
pub uninterp spec fn lossy_text(bytes: Seq<u8>) -> Seq<char>;

/// `String::from_utf8_lossy`: the text some bytes spell, with anything that is
/// not UTF-8 replaced rather than refused. Bytes that are UTF-8 come out as the
/// characters they encode; which replacements stand for the rest is left to the
/// name.
#[verifier::external_body]
pub(crate) fn from_utf8_lossy(bytes: &[u8]) -> (text: String)
    ensures
        text@ == lossy_text(bytes@),
        valid_utf8(bytes@) ==> text@ == decode_utf8(bytes@),
{
    String::from_utf8_lossy(bytes).into_owned()
}

/// The characters of a text.
pub fn chars_of(text: &str) -> (chars: Vec<char>)
    ensures
        chars@ == text@,
{
    let mut chars: Vec<char> = Vec::new();
    for ch in left: text.chars()
        invariant
            left.seq() == text@,
            chars@ == text@.take(left.index() as int),
    {
        chars.push(ch);
        assert(chars@ =~= text@.take(left.index() + 1));
    }
    assert(chars@ =~= text@);
    chars
}

/// The characters from `from` up to `to`, as a text of their own.
pub fn text_of(chars: &Vec<char>, from: usize, to: usize) -> (text: String)
    requires
        from <= to <= chars@.len(),
    ensures
        text@ == chars@.subrange(from as int, to as int),
{
    let mut text: String = String::new();
    let mut at: usize = from;
    while at < to
        invariant
            from <= at <= to <= chars@.len(),
            text@ == chars@.subrange(from as int, at as int),
        decreases to - at,
    {
        text.push(chars[at]);
        at = at + 1;
        assert(text@ =~= chars@.subrange(from as int, at as int));
    }
    text
}

/// Whether two runs of characters are the same.
pub fn same_chars(left: &Vec<char>, right: &Vec<char>) -> (same: bool)
    ensures
        same == (left@ == right@),
{
    if left.len() != right.len() {
        return false;
    }
    let mut i: usize = 0;
    while i < left.len()
        invariant
            left@.len() == right@.len(),
            i <= left@.len(),
            forall|j: int| 0 <= j < i ==> left@[j] == right@[j],
        decreases left@.len() - i,
    {
        if left[i] != right[i] {
            return false;
        }
        i = i + 1;
    }
    assert(left@ =~= right@);
    true
}

/// Whether two texts are the same.
pub fn same_text(left: &str, right: &str) -> (same: bool)
    ensures
        same == (left@ == right@),
{
    let left: Vec<char> = chars_of(left);
    let right: Vec<char> = chars_of(right);
    same_chars(&left, &right)
}

/// Whether a run of characters spells a text.
pub fn same_as(chars: &Vec<char>, text: &str) -> (same: bool)
    ensures
        same == (chars@ == text@),
{
    let mut i: usize = 0;
    for ch in left: text.chars()
        invariant
            left.seq() == text@,
            i == left.index(),
            i <= chars@.len(),
            chars@.take(i as int) == text@.take(i as int),
    {
        if i >= chars.len() || chars[i] != ch {
            assert(i < chars@.len() ==> chars@[i as int] != text@[i as int]);
            return false;
        }
        i = i + 1;
        assert(chars@.take(i as int) =~= text@.take(i as int));
    }
    assert(text@.take(i as int) =~= text@);
    if i == chars.len() {
        assert(chars@.take(i as int) =~= chars@);
        true
    } else {
        false
    }
}

/// Whether `part` stands in `text` at `at`.
pub open spec fn stands_at(text: Seq<char>, part: Seq<char>, at: int) -> bool {
    0 <= at && at + part.len() <= text.len() && text.subrange(at, at + part.len()) == part
}

/// Whether a text begins with another.
pub open spec fn begins_with(text: Seq<char>, part: Seq<char>) -> bool {
    stands_at(text, part, 0)
}

/// Whether a text ends with another.
pub open spec fn ends_with(text: Seq<char>, part: Seq<char>) -> bool {
    stands_at(text, part, text.len() - part.len())
}

/// Whether a text has another somewhere in it.
pub open spec fn holds(text: Seq<char>, part: Seq<char>) -> bool {
    exists|at: int| stands_at(text, part, at)
}

/// Whether `part` stands in `text` at `at`.
pub fn is_at(text: &Vec<char>, part: &Vec<char>, at: usize) -> (yes: bool)
    ensures
        yes == stands_at(text@, part@, at as int),
{
    if at > text.len() || part.len() > text.len() - at {
        return false;
    }
    let mut i: usize = 0;
    while i < part.len()
        invariant
            at + part@.len() <= text.len(),
            i <= part@.len(),
            forall|j: int| 0 <= j < i ==> text@[at + j] == part@[j],
        decreases part@.len() - i,
    {
        if text[at + i] != part[i] {
            assert(text@.subrange(at as int, at + part@.len())[i as int] != part@[i as int]);
            return false;
        }
        i = i + 1;
    }
    assert(text@.subrange(at as int, at + part@.len()) =~= part@);
    true
}

/// Whether a text begins with another.
pub fn text_begins(text: &str, part: &str) -> (yes: bool)
    ensures
        yes == begins_with(text@, part@),
{
    let text: Vec<char> = chars_of(text);
    let part: Vec<char> = chars_of(part);
    is_at(&text, &part, 0)
}

/// Whether a text ends with another.
pub fn text_ends(text: &str, part: &str) -> (yes: bool)
    ensures
        yes == ends_with(text@, part@),
{
    let text: Vec<char> = chars_of(text);
    let part: Vec<char> = chars_of(part);
    if part.len() > text.len() {
        return false;
    }
    is_at(&text, &part, text.len() - part.len())
}

/// Whether a text has another somewhere in it.
pub fn text_holds(text: &str, part: &str) -> (yes: bool)
    ensures
        yes == holds(text@, part@),
{
    let whole: Vec<char> = chars_of(text);
    let piece: Vec<char> = chars_of(part);
    let mut at: usize = 0;
    while at < whole.len()
        invariant
            whole@ == text@,
            piece@ == part@,
            at <= whole@.len(),
            forall|j: int| 0 <= j < at ==> !stands_at(text@, part@, j),
        decreases whole@.len() - at,
    {
        if is_at(&whole, &piece, at) {
            return true;
        }
        at = at + 1;
    }
    is_at(&whole, &piece, at)
}

/// The character of a decimal digit.
pub open spec fn digit_char(digit: nat) -> char {
    (48 + digit) as char
}

/// A number written in decimal.
pub open spec fn decimal(n: nat) -> Seq<char>
    decreases n,
{
    if n < 10 {
        seq![digit_char(n)]
    } else {
        decimal(n / 10).push(digit_char(n % 10))
    }
}

/// A number written in decimal, with a sign where it is negative.
pub open spec fn signed_decimal(n: int) -> Seq<char> {
    if n < 0 {
        seq!['-'] + decimal((-n) as nat)
    } else {
        decimal(n as nat)
    }
}

/// Appends a number in decimal.
pub fn push_decimal(text: &mut String, n: u64)
    ensures
        final(text)@ == old(text)@ + decimal(n as nat),
    decreases n,
{
    if n >= 10 {
        push_decimal(text, n / 10);
    }
    let ghost before = text@;
    let digit: char = (48 + (n % 10) as u8) as char;
    text.push(digit);
    proof {
        if n >= 10 {
            assert(text@ =~= old(text)@ + decimal(n as nat));
        } else {
            assert(text@ =~= old(text)@ + decimal(n as nat));
        }
    }
}

/// Appends a number in decimal, with a sign where it is negative.
pub fn push_signed(text: &mut String, n: i64)
    ensures
        final(text)@ == old(text)@ + signed_decimal(n as int),
{
    if n < 0 {
        text.push('-');
        let size: u64 = (-(n as i128)) as u64;
        push_decimal(text, size);
        assert(text@ =~= old(text)@ + signed_decimal(n as int));
    } else {
        push_decimal(text, n as u64);
    }
}

/// A number written in decimal.
pub fn decimal_text(n: u64) -> (text: String)
    ensures
        text@ == decimal(n as nat),
{
    let mut text: String = String::new();
    push_decimal(&mut text, n);
    assert(text@ =~= decimal(n as nat));
    text
}

/// The texts of a list.
pub open spec fn texts(list: Seq<String>) -> Seq<Seq<char>> {
    list.map_values(|text: String| text@)
}

/// Texts with a separator between each two.
pub open spec fn joined(list: Seq<Seq<char>>, separator: Seq<char>) -> Seq<char>
    decreases list.len(),
{
    if list.len() == 0 {
        Seq::empty()
    } else if list.len() == 1 {
        list[0]
    } else {
        joined(list.drop_last(), separator) + separator + list.last()
    }
}

/// Texts with a separator between each two.
pub fn join(list: &Vec<String>, separator: &str) -> (text: String)
    ensures
        text@ == joined(texts(list@), separator@),
{
    let mut text: String = String::new();
    let mut i: usize = 0;
    let ghost all = texts(list@);
    assert(all.take(0) =~= Seq::empty());
    while i < list.len()
        invariant
            i <= list@.len(),
            all == texts(list@),
            text@ == joined(all.take(i as int), separator@),
        decreases list@.len() - i,
    {
        proof {
            assert(all.take(i + 1).drop_last() =~= all.take(i as int));
            assert(all.take(i + 1).last() == list@[i as int]@);
        }
        if i > 0 {
            text.append(separator);
        }
        text.append(list[i].as_str());
        i = i + 1;
        assert(text@ =~= joined(all.take(i as int), separator@));
    }
    assert(all.take(i as int) =~= all);
    text
}

} // verus!
