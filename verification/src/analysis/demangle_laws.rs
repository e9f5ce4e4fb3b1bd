//! What holds of every type name that is read.

use vstd::prelude::*;
use vstd::utf8::encode_utf8;
use crate::analysis::demangle::{
    before_angle, components_from, components_of, counted_range, demangled, digits_end, is_digit,
    mangled_type, number_of, scope_end, source_name_at,
};
use crate::text::pieces::{decimal, joined};

verus! {

/// Whether a text is all ASCII.
pub open spec fn ascii(text: Seq<char>) -> bool {
    forall|i: int| 0 <= i < text.len() ==> (#[trigger] text[i] as u32) < 128
}

/// Whether a text may be a component of a type's name: ASCII that does not start with a
/// digit and holds no angle bracket.
pub open spec fn plain(name: Seq<char>) -> bool {
    &&& name.len() > 0
    &&& ascii(name)
    &&& !('0' <= name[0] <= '9')
    &&& !name.contains('<')
}

/// How a component is mangled: its length, and then itself.
pub open spec fn counted(name: Seq<char>) -> Seq<char> {
    decimal(name.len()) + name
}

/// How components one after the other are mangled.
pub open spec fn counted_all(names: Seq<Seq<char>>) -> Seq<char>
    decreases names.len(),
{
    if names.len() == 0 {
        Seq::empty()
    } else {
        counted_all(names.drop_last()) + counted(names.last())
    }
}

/// An ASCII character is the same number as a byte.
proof fn lemma_char(c: char)
    requires
        (c as u32) < 128,
    ensures
        (c as u8) as u32 == c as u32,
        c as u32 as u8 == c as u8,
        ('0' <= c <= '9') == (0x30 <= (c as u8) <= 0x39),
        ('A' <= c <= 'Z') == (0x41 <= (c as u8) <= 0x5a),
        ('a' <= c <= 'z') == (0x61 <= (c as u8) <= 0x7a),
        (c == '_') == (c as u8 == 0x5f),
        (c == '$') == (c as u8 == 0x24),
        (c == '.') == (c as u8 == 0x2e),
{
    assert('0' as u32 == 0x30 && '9' as u32 == 0x39);
    vstd::utf8::char_u32_cast(c, c as u32);
    vstd::utf8::char_u32_cast('_', 0x5f);
    vstd::utf8::char_u32_cast('$', 0x24);
    vstd::utf8::char_u32_cast('.', 0x2e);
}

/// The bytes of ASCII are its characters.
proof fn lemma_ascii(text: Seq<char>)
    requires
        ascii(text),
    ensures
        encode_utf8(text) == text.map_values(|c: char| c as u8),
    decreases text.len(),
{
    if text.len() > 0 {
        let rest = text.drop_first();
        assert forall|i: int| 0 <= i < rest.len() implies (#[trigger] rest[i] as u32) < 128 by {
            assert(rest[i] == text[i + 1]);
        }
        lemma_ascii(rest);
        let c = text[0] as u32;
        assert((text[0] as u32) < 128);
        assert((c & 0x7f) as u8 == c as u8) by (bit_vector)
            requires
                c < 128,
        ;
        lemma_char(text[0]);
        assert(encode_utf8(text)[0] == text[0] as u8);
        assert forall|i: int| 0 <= i < rest.len() implies encode_utf8(text)[i + 1]
            == #[trigger] text[i + 1] as u8 by {
            assert(encode_utf8(text)[i + 1] == encode_utf8(rest)[i]);
            assert(rest[i] == text[i + 1]);
        }
        assert(encode_utf8(text) =~= text.map_values(|c: char| c as u8));
    } else {
        assert(encode_utf8(text) =~= text.map_values(|c: char| c as u8));
    }
}

/// A number in decimal is digits that spell it.
proof fn lemma_decimal(n: nat)
    ensures
        decimal(n).len() > 0,
        forall|i: int| 0 <= i < decimal(n).len() ==> '0' <= #[trigger] decimal(n)[i] <= '9',
        number_of(decimal(n).map_values(|c: char| c as u8)) == n,
    decreases n,
{
    let bytes = decimal(n).map_values(|c: char| c as u8);
    if n < 10 {
        assert(bytes.drop_last() =~= Seq::empty());
        assert(number_of(bytes.drop_last()) == 0);
        assert(bytes.last() == (48 + n) as u8);
    } else {
        lemma_decimal(n / 10);
        let less = decimal(n / 10).map_values(|c: char| c as u8);
        assert(bytes.drop_last() =~= less);
        assert(bytes.last() == (48 + n % 10) as u8);
        assert(10 * (n / 10) + n % 10 == n);
    }
}

/// A run of digits ends where something else stands.
proof fn lemma_digits_until(bytes: Seq<u8>, at: int, end: int)
    requires
        0 <= at <= end <= bytes.len(),
        forall|i: int| at <= i < end ==> is_digit(#[trigger] bytes[i]),
        end < bytes.len() ==> !is_digit(bytes[end]),
    ensures
        digits_end(bytes, at) == end,
    decreases end - at,
{
    if at < end {
        assert(is_digit(bytes[at]));
        lemma_digits_until(bytes, at + 1, end);
    }
}

/// A component is read whole, wherever in a name it stands.
proof fn lemma_component(
    text: Seq<char>,
    at: int,
    name: Seq<char>,
    nested: bool,
    components: Seq<Seq<char>>,
)
    requires
        ascii(text),
        plain(name),
        0 <= at,
        at + counted(name).len() <= text.len(),
        text.subrange(at, at + counted(name).len()) == counted(name),
    ensures
        components_from(encode_utf8(text), at, nested, components) == components_from(
            encode_utf8(text),
            at + counted(name).len(),
            nested,
            components.push(name),
        ),
{
    let bytes = encode_utf8(text);
    lemma_ascii(text);
    lemma_ascii(name);
    lemma_decimal(name.len());
    let digits = decimal(name.len());
    let start = at + digits.len();
    let end = start + name.len();
    let part = text.subrange(at, end);
    assert(part == counted(name));
    assert forall|i: int| at <= i < start implies is_digit(#[trigger] bytes[i]) by {
        assert(text[i] == part[i - at]);
        assert(part[i - at] == digits[i - at]);
    }
    assert(text[start] == part[start - at]);
    assert(part[start - at] == name[0]);
    assert((text[start] as u32) < 128);
    lemma_char(text[start]);
    assert(bytes[start] == text[start] as u8);
    assert(!is_digit(bytes[start]));
    lemma_digits_until(bytes, at, start);
    assert(bytes.subrange(at, start) =~= digits.map_values(|c: char| c as u8)) by {
        assert forall|i: int| 0 <= i < digits.len() implies bytes.subrange(at, start)[i]
            == digits.map_values(|c: char| c as u8)[i] by {
            assert(text[at + i] == part[i]);
        }
    }
    assert(counted_range(bytes, at) == Some((start, end)));
    assert(bytes.subrange(start, end) =~= encode_utf8(name)) by {
        assert forall|i: int| 0 <= i < name.len() implies bytes.subrange(start, end)[i]
            == encode_utf8(name)[i] by {
            assert(text[start + i] == part[digits.len() + i]);
        }
    }
    vstd::utf8::encode_utf8_valid_utf8(text);
    vstd::utf8::encode_utf8_decode_utf8(name);
    lemma_boundary(text, start);
    lemma_boundary(text, end);
    assert(source_name_at(bytes, at) == Some((name, end)));
    assert(is_digit(bytes[at]));
}

/// Every place in ASCII is between characters.
proof fn lemma_boundary(text: Seq<char>, at: int)
    requires
        ascii(text),
        0 <= at <= text.len(),
    ensures
        vstd::utf8::is_char_boundary(encode_utf8(text), at),
{
    let bytes = encode_utf8(text);
    lemma_ascii(text);
    vstd::utf8::encode_utf8_valid_utf8(text);
    if at == text.len() {
        vstd::utf8::is_char_boundary_start_end_of_seq(bytes);
    } else {
        assert((text[at] as u32) < 128);
        lemma_char(text[at]);
        assert(bytes[at] == text[at] as u8);
        assert(vstd::utf8::is_leading_byte_width_1(bytes[at]));
        vstd::utf8::is_char_boundary_iff_is_leading_byte(bytes, at);
    }
}

/// Components one after the other are read one after the other.
proof fn lemma_components(text: Seq<char>, at: int, names: Seq<Seq<char>>, nested: bool)
    requires
        ascii(text),
        0 <= at,
        at + counted_all(names).len() <= text.len(),
        text.subrange(at, at + counted_all(names).len()) == counted_all(names),
        forall|i: int| 0 <= i < names.len() ==> plain(#[trigger] names[i]),
    ensures
        components_from(encode_utf8(text), at, nested, Seq::empty()) == components_from(
            encode_utf8(text),
            at + counted_all(names).len(),
            nested,
            names,
        ),
    decreases names.len(),
{
    if names.len() == 0 {
        assert(names =~= Seq::empty());
    } else {
        let less = names.drop_last();
        let last = names.last();
        let whole = counted_all(names);
        let front = counted_all(less);
        assert(whole == front + counted(last));
        assert(text.subrange(at, at + front.len()) =~= front) by {
            assert forall|i: int| 0 <= i < front.len() implies text.subrange(
                at,
                at + front.len(),
            )[i] == front[i] by {
                assert(text.subrange(at, at + whole.len())[i] == whole[i]);
            }
        }
        let next = at + front.len();
        assert(text.subrange(next, next + counted(last).len()) =~= counted(last)) by {
            assert forall|i: int| 0 <= i < counted(last).len() implies text.subrange(
                next,
                next + counted(last).len(),
            )[i] == counted(last)[i] by {
                assert(text.subrange(at, at + whole.len())[front.len() + i] == whole[front.len()
                    + i]);
            }
        }
        assert forall|i: int| 0 <= i < less.len() implies plain(#[trigger] less[i]) by {
            assert(less[i] == names[i]);
        }
        assert(plain(names[names.len() - 1]));
        lemma_components(text, at, less, nested);
        lemma_component(text, next, last, nested, less);
        assert(less.push(last) =~= names);
    }
}

/// Mangled components are ASCII.
proof fn lemma_counted_ascii(names: Seq<Seq<char>>)
    requires
        forall|i: int| 0 <= i < names.len() ==> plain(#[trigger] names[i]),
    ensures
        ascii(counted_all(names)),
    decreases names.len(),
{
    if names.len() > 0 {
        let less = names.drop_last();
        let last = names.last();
        assert forall|i: int| 0 <= i < less.len() implies plain(#[trigger] less[i]) by {
            assert(less[i] == names[i]);
        }
        lemma_counted_ascii(less);
        lemma_decimal(last.len());
        assert(plain(names[names.len() - 1]));
        let whole = counted_all(names);
        let front = counted_all(less);
        assert forall|i: int| 0 <= i < whole.len() implies (#[trigger] whole[i] as u32) < 128 by {
            if i < front.len() {
                assert(whole[i] == front[i]);
            } else if i < front.len() + decimal(last.len()).len() {
                assert(whole[i] == decimal(last.len())[i - front.len()]);
            } else {
                assert(whole[i] == last[i - front.len() - decimal(last.len()).len()]);
            }
        }
    }
}

/// A text without an angle bracket is all before one.
proof fn lemma_no_angle(text: Seq<char>)
    requires
        !text.contains('<'),
    ensures
        before_angle(text) == text,
    decreases text.len(),
{
    if text.len() > 0 {
        let less = text.drop_last();
        assert(text.contains(text[text.len() - 1]));
        if less.contains('<') {
            let i = choose|i: int| 0 <= i < less.len() && less[i] == '<';
            assert(text[i] == '<');
        }
        lemma_no_angle(less);
    }
}

/// A text is before its first angle bracket what it is before.
proof fn lemma_angle(name: Seq<char>, rest: Seq<char>)
    requires
        !name.contains('<'),
        rest.len() > 0,
        rest[0] == '<',
    ensures
        before_angle(name + rest) == name,
    decreases rest.len(),
{
    let text = name + rest;
    let less = text.drop_last();
    if rest.len() == 1 {
        assert(less =~= name);
        lemma_no_angle(name);
    } else {
        assert(less =~= name + rest.drop_last());
        lemma_angle(name, rest.drop_last());
    }
}

/// A nested name is its components with two colons between each two, and its short form
/// is the last of them.
pub proof fn a_nested_name_is_its_components(names: Seq<Seq<char>>)
    requires
        names.len() > 0,
        forall|i: int| 0 <= i < names.len() ==> plain(#[trigger] names[i]),
    ensures
        demangled(seq!['N'] + counted_all(names) + seq!['E']) == (
            joined(names, "::"@),
            names.last(),
        ),
{
    let inner = counted_all(names);
    let text = seq!['N'] + inner + seq!['E'];
    lemma_counted_ascii(names);
    assert forall|i: int| 0 <= i < text.len() implies (#[trigger] text[i] as u32) < 128 by {
        if 0 < i < text.len() - 1 {
            assert(text[i] == inner[i - 1]);
        }
    }
    lemma_ascii(text);
    let bytes = encode_utf8(text);
    assert(text.subrange(1, 1 + inner.len() as int) =~= inner);
    lemma_components(text, 1, names, true);
    assert(text[text.len() - 1] == 'E');
    assert(bytes[bytes.len() - 1] == 0x45);
    assert(bytes[0] == 0x4e);
    assert(components_of(bytes) == Some(names));
    assert(plain(names[names.len() - 1]));
    lemma_no_angle(names.last());
}

/// A name that is not nested is the one component it counts.
pub proof fn a_counted_name_is_itself(name: Seq<char>)
    requires
        plain(name),
    ensures
        demangled(counted(name)) == (name, name),
{
    let names = seq![name];
    assert(names.drop_last() =~= Seq::empty());
    assert(counted_all(names.drop_last()) =~= Seq::empty());
    assert(counted_all(names) =~= counted(name));
    lemma_counted_ascii(names);
    let text = counted(name);
    lemma_ascii(text);
    let bytes = encode_utf8(text);
    assert(text.subrange(0, text.len() as int) =~= text);
    lemma_components(text, 0, names, false);
    lemma_decimal(name.len());
    assert(text[0] == decimal(name.len())[0]);
    assert(bytes[0] != 0x4e);
    assert(components_of(bytes) == Some(names));
    lemma_no_angle(name);
}

/// A scope of plain letters ends after the `E` that follows them.
proof fn lemma_scope(bytes: Seq<u8>, at: int, end: int)
    requires
        0 <= at <= end < bytes.len(),
        forall|i: int| at <= i < end ==> 0x61 <= #[trigger] bytes[i] <= 0x7a,
        bytes[end] == 0x45,
    ensures
        scope_end(bytes, at, 1) == Some(end + 1),
    decreases end - at,
{
    if at < end {
        assert(0x61 <= bytes[at] <= 0x7a);
        lemma_scope(bytes, at + 1, end);
    }
}

/// The arguments of a template are elided: what is left is the name, and angle brackets
/// with an ellipsis in them; the short form has neither. This is stated of arguments that
/// are builtin types, which are lower-case letters.
pub proof fn template_arguments_are_elided(name: Seq<char>, arguments: Seq<char>)
    requires
        plain(name),
        forall|i: int| 0 <= i < arguments.len() ==> 'a' <= #[trigger] arguments[i] <= 'z',
    ensures
        demangled(counted(name) + seq!['I'] + arguments + seq!['E']) == (
            name + "<\u{2026}>"@,
            name,
        ),
{
    let names = seq![name];
    assert(names.drop_last() =~= Seq::empty());
    assert(counted_all(names.drop_last()) =~= Seq::empty());
    assert(counted_all(names) =~= counted(name));
    lemma_counted_ascii(names);
    let head = counted(name);
    let text = head + seq!['I'] + arguments + seq!['E'];
    let open = head.len() as int;
    assert forall|i: int| 0 <= i < text.len() implies (#[trigger] text[i] as u32) < 128 by {
        if i < head.len() {
            assert(text[i] == head[i]);
        } else if head.len() < i < text.len() - 1 {
            assert(text[i] == arguments[i - open - 1]);
        }
    }
    lemma_ascii(text);
    let bytes = encode_utf8(text);
    assert(text.subrange(0, open) =~= head);
    lemma_components(text, 0, names, false);
    lemma_decimal(name.len());
    assert(text[0] == decimal(name.len())[0]);
    assert(bytes[0] != 0x4e);
    assert(text[open] == 'I');
    assert(bytes[open] == 0x49);
    assert(text[text.len() - 1] == 'E');
    assert forall|i: int| open < i < bytes.len() - 1 implies 0x61 <= #[trigger] bytes[i]
        <= 0x7a by {
        assert(text[i] == arguments[i - open - 1]);
    }
    lemma_scope(bytes, open + 1, bytes.len() - 1);
    assert(scope_end(bytes, open, 0) == Some(bytes.len() as int));
    let elided = "<\u{2026}>"@;
    let after = seq![name + elided];
    assert(names.drop_last().push(names.last() + elided) =~= after);
    assert(components_from(bytes, open, false, names) == components_from(
        bytes,
        bytes.len() as int,
        false,
        after,
    ));
    assert(components_of(bytes) == Some(after));
    reveal_strlit("<\u{2026}>");
    assert(elided[0] == '<');
    lemma_angle(name, elided);
}

/// The abbreviation for the standard namespace is read as its name.
pub proof fn the_standard_namespace_is_named(name: Seq<char>)
    requires
        plain(name),
    ensures
        demangled(seq!['S', 't'] + counted(name)) == ("std"@ + "::"@ + name, name),
{
    let text = seq!['S', 't'] + counted(name);
    let one = seq![name];
    assert(one.drop_last() =~= Seq::empty());
    assert(counted_all(one.drop_last()) =~= Seq::empty());
    assert(counted_all(one) =~= counted(name));
    lemma_counted_ascii(one);
    assert forall|i: int| 0 <= i < text.len() implies (#[trigger] text[i] as u32) < 128 by {
        if i >= 2 {
            assert(text[i] == counted(name)[i - 2]);
        }
    }
    lemma_ascii(text);
    let bytes = encode_utf8(text);
    assert(text[0] == 'S' && text[1] == 't');
    assert(bytes[0] == 0x53 && bytes[1] == 0x74);
    assert(text.subrange(2, 2 + counted(name).len() as int) =~= counted(name));
    let first = Seq::<Seq<char>>::empty().push("std"@);
    lemma_component(text, 2, name, false, first);
    let names = first.push(name);
    assert(components_of(bytes) == Some(names));
    assert(names.drop_last() =~= first);
    assert(joined(first, "::"@) == "std"@);
    assert(joined(names, "::"@) == "std"@ + "::"@ + name);
    lemma_no_angle(name);
}

/// A text has the shape of a class's name exactly where it is at least three characters
/// long, starts with a digit or an `N`, and is made of letters, digits, underscores,
/// dollars and dots.
pub proof fn a_mangled_type_has_its_shape(name: Seq<char>)
    requires
        ascii(name),
    ensures
        mangled_type(name) == {
            &&& name.len() >= 3
            &&& '0' <= name[0] <= '9' || name[0] == 'N'
            &&& forall|i: int|
                0 <= i < name.len() ==> '0' <= #[trigger] name[i] <= '9' || 'A' <= name[i] <= 'Z'
                    || 'a' <= name[i] <= 'z' || name[i] == '_' || name[i] == '$' || name[i] == '.'
        },
{
    lemma_ascii(name);
    let bytes = encode_utf8(name);
    assert(forall|i: int| 0 <= i < name.len() ==> (#[trigger] name[i] as u32) < 128);
    if mangled_type(name) {
        assert forall|i: int| 0 <= i < name.len() implies '0' <= #[trigger] name[i] <= '9' || 'A'
            <= name[i] <= 'Z' || 'a' <= name[i] <= 'z' || name[i] == '_' || name[i] == '$'
            || name[i] == '.' by {
            assert(crate::analysis::demangle::in_mangled(bytes[i]));
            lemma_char(name[i]);
            assert(bytes[i] == name[i] as u8);
        }
    }
    if name.len() > 0 {
        lemma_char(name[0]);
    }
}

} // verus!
