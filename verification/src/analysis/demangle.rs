//! Reading the type names of the Itanium C++ ABI.

use vstd::prelude::*;
use vstd::string::StringExecFns;
use vstd::utf8::{decode_utf8, encode_utf8, is_char_boundary};
use crate::text::pieces::{chars_of, join, joined, text_of, texts};

verus! {

/// Whether a byte is an ASCII digit.
pub open spec fn is_digit(byte: u8) -> bool {
    0x30 <= byte <= 0x39
}

/// Whether a byte is an ASCII upper-case letter.
pub open spec fn is_upper(byte: u8) -> bool {
    0x41 <= byte <= 0x5a
}

/// Whether a byte is an ASCII lower-case letter.
pub open spec fn is_lower(byte: u8) -> bool {
    0x61 <= byte <= 0x7a
}

/// Whether a byte may stand in a mangled type name.
pub open spec fn in_mangled(byte: u8) -> bool {
    is_digit(byte) || is_upper(byte) || is_lower(byte) || byte == 0x5f || byte == 0x24 || byte
        == 0x2e
}

/// Whether a text has the shape of a class type's name: a source name, which
/// begins with a digit, or a nested one, which begins with an `N`.
pub open spec fn mangled_type(name: Seq<char>) -> bool {
    let bytes = encode_utf8(name);
    &&& bytes.len() >= 3
    &&& is_digit(bytes[0]) || bytes[0] == 0x4e
    &&& forall|i: int| 0 <= i < bytes.len() ==> in_mangled(#[trigger] bytes[i])
}

/// Whether a string is the shape `_ZTS` holds for a class type.
///
/// Anything but a source name or a nested one, such as a builtin, a pointer or a
/// function type, is not something to name a class after.
pub fn is_mangled_type(name: &str) -> (yes: bool)
    ensures
        yes == mangled_type(name@),
{
    let bytes: &[u8] = name.as_bytes();
    if bytes.len() < 3 {
        return false;
    }
    let first: u8 = bytes[0];
    if !((0x30 <= first && first <= 0x39) || first == 0x4e) {
        return false;
    }
    let mut i: usize = 0;
    while i < bytes.len()
        invariant
            i <= bytes@.len(),
            bytes@ == encode_utf8(name@),
            forall|j: int| 0 <= j < i ==> in_mangled(#[trigger] bytes@[j]),
        decreases bytes@.len() - i,
    {
        let byte: u8 = bytes[i];
        if !((0x30 <= byte && byte <= 0x39) || (0x41 <= byte && byte <= 0x5a) || (0x61 <= byte
            && byte <= 0x7a) || byte == 0x5f || byte == 0x24 || byte == 0x2e) {
            assert(!in_mangled(bytes@[i as int]));
            return false;
        }
        i = i + 1;
    }
    true
}

/// Where a run of digits that starts at a position ends.
pub open spec fn digits_end(bytes: Seq<u8>, at: int) -> int
    decreases bytes.len() - at,
{
    if 0 <= at < bytes.len() && is_digit(bytes[at]) {
        digits_end(bytes, at + 1)
    } else {
        at
    }
}

/// The number that decimal digits spell.
pub open spec fn number_of(digits: Seq<u8>) -> nat
    decreases digits.len(),
{
    if digits.len() == 0 {
        0
    } else {
        10 * number_of(digits.drop_last()) + (digits.last() - 0x30) as nat
    }
}

/// Where what a length announces starts and ends. `None` where the text is shorter
/// than that.
pub open spec fn counted_range(bytes: Seq<u8>, at: int) -> Option<(int, int)> {
    let start = digits_end(bytes, at);
    let end = start + number_of(bytes.subrange(at, start));
    if end <= bytes.len() {
        Some((start, end))
    } else {
        None
    }
}

/// A run of digits ends no earlier than it starts.
pub proof fn lemma_digits_end(bytes: Seq<u8>, at: int)
    requires
        0 <= at <= bytes.len(),
    ensures
        at <= digits_end(bytes, at) <= bytes.len(),
        at < bytes.len() && is_digit(bytes[at]) ==> at < digits_end(bytes, at),
        forall|i: int| at <= i < digits_end(bytes, at) ==> is_digit(#[trigger] bytes[i]),
    decreases bytes.len() - at,
{
    if at < bytes.len() && is_digit(bytes[at]) {
        lemma_digits_end(bytes, at + 1);
    }
}

/// More digits spell no smaller number.
proof fn lemma_number_grows(digits: Seq<u8>, n: int)
    requires
        0 <= n <= digits.len(),
        forall|i: int| 0 <= i < digits.len() ==> is_digit(#[trigger] digits[i]),
    ensures
        number_of(digits.take(n)) <= number_of(digits),
    decreases digits.len(),
{
    if n == digits.len() {
        assert(digits.take(n) =~= digits);
    } else {
        let less = digits.drop_last();
        lemma_number_grows(less, n);
        assert(less.take(n) =~= digits.take(n));
    }
}

/// Reads a length, and says where what it announces starts and ends.
fn read_counted(bytes: &[u8], at: usize) -> (range: Option<(usize, usize)>)
    requires
        at <= bytes@.len(),
    ensures
        match range {
            Some((start, end)) => counted_range(bytes@, at as int) == Some(
                (start as int, end as int),
            ),
            None => counted_range(bytes@, at as int) is None,
        },
{
    let total: usize = bytes.len();
    let mut end: usize = at;
    let mut value: Option<usize> = Some(0);
    assert(bytes@.subrange(at as int, at as int) =~= Seq::empty());
    proof {
        lemma_digits_end(bytes@, at as int);
    }
    while end < total && 0x30 <= bytes[end] && bytes[end] <= 0x39
        invariant
            at <= end <= total,
            total == bytes@.len(),
            digits_end(bytes@, at as int) == digits_end(bytes@, end as int),
            match value {
                Some(value) => number_of(bytes@.subrange(at as int, end as int)) == value,
                None => number_of(bytes@.subrange(at as int, end as int)) > usize::MAX,
            },
        decreases total - end,
    {
        proof {
            let next = bytes@.subrange(at as int, end + 1);
            assert(next.drop_last() =~= bytes@.subrange(at as int, end as int));
            assert(next.last() == bytes@[end as int]);
        }
        let digit: usize = (bytes[end] - 0x30) as usize;
        value = match value {
            Some(value) => match value.checked_mul(10) {
                Some(tens) => tens.checked_add(digit),
                None => None,
            },
            None => None,
        };
        end = end + 1;
    }
    match value {
        Some(length) => if length <= total - end {
            Some((end, end + length))
        } else {
            None
        },
        None => None,
    }
}

/// Where a run of digits and upper-case letters that starts at a position ends.
pub open spec fn id_end(bytes: Seq<u8>, at: int) -> int
    decreases bytes.len() - at,
{
    if 0 <= at < bytes.len() && (is_digit(bytes[at]) || is_upper(bytes[at])) {
        id_end(bytes, at + 1)
    } else {
        at
    }
}

/// Where a substitution ends whose `S` stands just before a position: after its
/// sequence number and underscore, or after the one letter of a fixed
/// abbreviation.
pub open spec fn substitution_end(bytes: Seq<u8>, id: int) -> int {
    let end = id_end(bytes, id);
    if end < bytes.len() && bytes[end] == 0x5f {
        end + 1
    } else if end == id {
        end + 1
    } else {
        end
    }
}

/// A run of digits and letters ends no earlier than it starts.
pub proof fn lemma_id_end(bytes: Seq<u8>, at: int)
    requires
        0 <= at <= bytes.len(),
    ensures
        at <= id_end(bytes, at) <= bytes.len(),
    decreases bytes.len() - at,
{
    if at < bytes.len() && (is_digit(bytes[at]) || is_upper(bytes[at])) {
        lemma_id_end(bytes, at + 1);
    }
}

/// Whether a byte opens a scope that an `E` closes: `I` a template list, `N` a
/// nested name, `J` an argument pack, `Z` a local name, `L` a literal, `F` a
/// function type.
pub open spec fn opens(byte: u8) -> bool {
    byte == 0x49 || byte == 0x4e || byte == 0x4a || byte == 0x5a || byte == 0x4c || byte == 0x46
}

/// Where the scope ends that is open `depth` times at a position. A source name is
/// passed over by its length and a substitution as a whole, so that their letters
/// open and close nothing.
pub open spec fn scope_end(bytes: Seq<u8>, at: int, depth: nat) -> Option<int>
    decreases bytes.len() - at,
{
    if !(0 <= at < bytes.len()) {
        None
    } else if is_digit(bytes[at]) {
        proof {
            lemma_digits_end(bytes, at);
        }
        match counted_range(bytes, at) {
            Some((start, end)) => if end > at {
                scope_end(bytes, end, depth)
            } else {
                None
            },
            None => None,
        }
    } else if bytes[at] == 0x53 {
        proof {
            lemma_id_end(bytes, at + 1);
        }
        let end = substitution_end(bytes, at + 1);
        if at < end <= bytes.len() {
            scope_end(bytes, end, depth)
        } else {
            None
        }
    } else if opens(bytes[at]) {
        scope_end(bytes, at + 1, depth + 1)
    } else if bytes[at] == 0x45 {
        if depth == 0 {
            None
        } else if depth == 1 {
            Some(at + 1)
        } else {
            scope_end(bytes, at + 1, (depth - 1) as nat)
        }
    } else {
        scope_end(bytes, at + 1, depth)
    }
}

/// Finds the end of the scope that opens at a position.
fn skip_template(bytes: &[u8], from: usize) -> (end: Option<usize>)
    requires
        from <= bytes@.len(),
    ensures
        match end {
            Some(end) => scope_end(bytes@, from as int, 0) == Some(end as int) && from < end
                <= bytes@.len(),
            None => scope_end(bytes@, from as int, 0) is None,
        },
{
    let total: usize = bytes.len();
    let mut at: usize = from;
    let mut depth: usize = 0;
    while at < total
        invariant
            total == bytes@.len(),
            from <= at <= total,
            depth <= at,
            scope_end(bytes@, from as int, 0) == scope_end(bytes@, at as int, depth as nat),
        decreases total - at,
    {
        let byte: u8 = bytes[at];
        if 0x30 <= byte && byte <= 0x39 {
            proof {
                lemma_digits_end(bytes@, at as int);
            }
            match read_counted(bytes, at) {
                Some((_, end)) => {
                    at = end;
                },
                None => {
                    return None;
                },
            }
        } else if byte == 0x53 {
            let id: usize = at + 1;
            let mut end: usize = id;
            proof {
                lemma_id_end(bytes@, id as int);
            }
            while end < total && ((0x30 <= bytes[end] && bytes[end] <= 0x39) || (0x41 <= bytes[end]
                && bytes[end] <= 0x5a))
                invariant
                    total == bytes@.len(),
                    id <= end <= total,
                    id_end(bytes@, id as int) == id_end(bytes@, end as int),
                decreases total - end,
            {
                end = end + 1;
            }
            if end == id || (end < total && bytes[end] == 0x5f) {
                if end == total {
                    return None;
                }
                end = end + 1;
            }
            at = end;
        } else if byte == 0x49 || byte == 0x4e || byte == 0x4a || byte == 0x5a || byte == 0x4c
            || byte == 0x46 {
            depth = depth + 1;
            at = at + 1;
        } else if byte == 0x45 {
            if depth == 0 {
                return None;
            }
            if depth == 1 {
                return Some(at + 1);
            }
            depth = depth - 1;
            at = at + 1;
        } else {
            at = at + 1;
        }
    }
    None
}

/// The source name at a position, and where it ends.
pub open spec fn source_name_at(bytes: Seq<u8>, at: int) -> Option<(Seq<char>, int)> {
    match counted_range(bytes, at) {
        Some((start, end)) => if is_char_boundary(bytes, start) && is_char_boundary(bytes, end) {
            Some((decode_utf8(bytes.subrange(start, end)), end))
        } else {
            None
        },
        None => None,
    }
}

/// The part of a text between two character boundaries.
fn part_of<'a>(text: &'a str, start: usize, end: usize) -> (part: &'a str)
    requires
        start <= end <= encode_utf8(text@).len(),
        is_char_boundary(encode_utf8(text@), start as int),
        is_char_boundary(encode_utf8(text@), end as int),
    ensures
        part@ == decode_utf8(encode_utf8(text@).subrange(start as int, end as int)),
{
    broadcast use vstd::utf8::group_utf8_lib;
    let (head, _) = text.split_at(end);
    proof {
        let bytes = encode_utf8(text@);
        if start < end {
            assert(encode_utf8(head@)[start as int] == bytes[start as int]);
            vstd::utf8::is_char_boundary_iff_not_is_continuation_byte(bytes, start as int);
            vstd::utf8::is_char_boundary_iff_not_is_continuation_byte(
                encode_utf8(head@),
                start as int,
            );
        } else {
            vstd::utf8::is_char_boundary_start_end_of_seq(encode_utf8(head@));
        }
    }
    let (_, part) = head.split_at(start);
    proof {
        assert(encode_utf8(part@) =~= encode_utf8(text@).subrange(start as int, end as int));
        vstd::utf8::encode_utf8_decode_utf8(part@);
    }
    part
}

/// What an elided template argument list is written as.
pub open spec fn elided() -> Seq<char> {
    "<\u{2026}>"@
}

/// The components of a name from a position on, after those already read. `None`
/// where it holds something that is not read, is left open, or does not end where
/// the text does.
pub open spec fn components_from(
    bytes: Seq<u8>,
    at: int,
    nested: bool,
    components: Seq<Seq<char>>,
) -> Option<Seq<Seq<char>>>
    decreases bytes.len() - at,
{
    if !(0 <= at < bytes.len()) {
        if nested {
            None
        } else {
            Some(components)
        }
    } else if bytes[at] == 0x45 && nested {
        if at + 1 == bytes.len() {
            Some(components)
        } else {
            None
        }
    } else if bytes[at] == 0x53 && at + 1 < bytes.len() && bytes[at + 1] == 0x74 {
        components_from(bytes, at + 2, nested, components.push("std"@))
    } else if bytes[at] == 0x49 {
        match scope_end(bytes, at, 0) {
            Some(end) => if at < end <= bytes.len() && components.len() > 0 {
                components_from(
                    bytes,
                    end,
                    nested,
                    components.drop_last().push(components.last() + elided()),
                )
            } else {
                None
            },
            None => None,
        }
    } else if is_digit(bytes[at]) {
        proof {
            lemma_digits_end(bytes, at);
        }
        match source_name_at(bytes, at) {
            Some((name, end)) => if end > at {
                components_from(bytes, end, nested, components.push(name))
            } else {
                None
            },
            None => None,
        }
    } else {
        None
    }
}

/// The components of a type name, if all of it can be read.
pub open spec fn components_of(bytes: Seq<u8>) -> Option<Seq<Seq<char>>> {
    let nested = bytes.len() > 0 && bytes[0] == 0x4e;
    match components_from(
        bytes,
        if nested {
            1
        } else {
            0
        },
        nested,
        Seq::empty(),
    ) {
        Some(components) => if components.len() > 0 {
            Some(components)
        } else {
            None
        },
        None => None,
    }
}

/// A text up to its first `<`.
pub open spec fn before_angle(text: Seq<char>) -> Seq<char>
    decreases text.len(),
{
    if text.len() == 0 {
        text
    } else if before_angle(text.drop_last()).len() < text.len() - 1 || text.last() == '<' {
        before_angle(text.drop_last())
    } else {
        text
    }
}

/// A type name as a person reads it: the whole path, and its last component
/// without template arguments. Both are the name itself where it cannot be read.
pub open spec fn demangled(mangled: Seq<char>) -> (Seq<char>, Seq<char>) {
    match components_of(encode_utf8(mangled)) {
        Some(components) => (joined(components, "::"@), before_angle(components.last())),
        None => (mangled, mangled),
    }
}

fn up_to_angle(text: &str) -> (head: String)
    ensures
        head@ == before_angle(text@),
{
    let chars: Vec<char> = chars_of(text);
    let mut i: usize = 0;
    assert(chars@.take(0) =~= Seq::empty());
    while i < chars.len() && chars[i] != '<'
        invariant
            i <= chars@.len(),
            before_angle(chars@.take(i as int)) == chars@.take(i as int),
        decreases chars@.len() - i,
    {
        assert(chars@.take(i + 1).drop_last() =~= chars@.take(i as int));
        assert(chars@.take(i + 1).last() == chars@[i as int]);
        i = i + 1;
    }
    proof {
        if i < chars@.len() {
            lemma_before_angle(chars@, i as int);
        }
        assert(chars@.take(chars@.len() as int) =~= chars@);
        assert(chars@.subrange(0, i as int) =~= chars@.take(i as int));
    }
    text_of(&chars, 0, i)
}

/// The text before the first `<` is what stands before it.
proof fn lemma_before_angle(text: Seq<char>, at: int)
    requires
        0 <= at < text.len(),
        text[at] == '<',
        before_angle(text.take(at)) == text.take(at),
    ensures
        before_angle(text) == text.take(at),
    decreases text.len(),
{
    let less = text.drop_last();
    if at < less.len() {
        assert(less.take(at) =~= text.take(at));
        lemma_before_angle(less, at);
    } else {
        assert(less =~= text.take(at));
    }
}

/// Reads an Itanium type name into something a person can read, and says so
/// only as far as it got.
///
/// Returns the whole path, and its last component without template arguments,
/// which is what a function derived from the class is named after. When the name
/// cannot be read at all, both are the mangled string: a wrong name is worse than
/// a mangled one.
///
/// What it reads is nested names, source names, and `St` for `std`. What it does
/// not read is the inside of a template argument list, because that needs a
/// substitution table: a list comes out as `<\u{2026}>`.
pub fn demangle_type(mangled: &str) -> (names: (String, String))
    ensures
        (names.0@, names.1@) == demangled(mangled@),
{
    let bytes: &[u8] = mangled.as_bytes();
    let total: usize = bytes.len();
    let nested: bool = total > 0 && bytes[0] == 0x4e;
    let mut at: usize = if nested {
        1
    } else {
        0
    };
    let mut components: Vec<String> = Vec::new();
    let ghost start = at as int;
    assert(texts(components@) =~= Seq::empty());
    while at < total && !(nested && bytes[at] == 0x45)
        invariant
            bytes@ == encode_utf8(mangled@),
            total == bytes@.len(),
            at <= total,
            components_from(bytes@, start, nested, Seq::empty()) == components_from(
                bytes@,
                at as int,
                nested,
                texts(components@),
            ),
            nested == (bytes@.len() > 0 && bytes@[0] == 0x4e),
            start == if nested {
                1int
            } else {
                0
            },
        decreases total - at,
    {
        let ghost before = components@;
        let byte: u8 = bytes[at];
        if byte == 0x53 && total - at > 1 && bytes[at + 1] == 0x74 {
            components.push("std".to_owned());
            assert(texts(components@) =~= texts(before).push("std"@));
            at = at + 2;
        } else if byte == 0x49 {
            match skip_template(bytes, at) {
                Some(end) => {
                    at = end;
                },
                None => {
                    return (mangled.to_owned(), mangled.to_owned());
                },
            }
            match components.pop() {
                Some(last) => {
                    let mut last: String = last;
                    last.append("<\u{2026}>");
                    components.push(last);
                    assert(texts(components@) =~= texts(before).drop_last().push(
                        texts(before).last() + elided(),
                    ));
                },
                None => {
                    return (mangled.to_owned(), mangled.to_owned());
                },
            }
        } else if 0x30 <= byte && byte <= 0x39 {
            proof {
                lemma_digits_end(bytes@, at as int);
            }
            match read_counted(bytes, at) {
                Some((from, end)) => {
                    if !(mangled.is_char_boundary(from) && mangled.is_char_boundary(end)) {
                        return (mangled.to_owned(), mangled.to_owned());
                    }
                    components.push(part_of(mangled, from, end).to_owned());
                    assert(texts(components@) =~= texts(before).push(
                        decode_utf8(bytes@.subrange(from as int, end as int)),
                    ));
                    at = end;
                },
                None => {
                    return (mangled.to_owned(), mangled.to_owned());
                },
            }
        } else {
            return (mangled.to_owned(), mangled.to_owned());
        }
    }
    if components.len() == 0 || (nested && !(at < total && total - at == 1)) {
        return (mangled.to_owned(), mangled.to_owned());
    }
    let name: String = join(&components, "::");
    let short: String = up_to_angle(components[components.len() - 1].as_str());
    (name, short)
}

} // verus!
