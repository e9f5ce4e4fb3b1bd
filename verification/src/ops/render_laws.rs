//! What holds of every template that is rendered.

use vstd::prelude::*;
use crate::module::operator::{all_digits, digits_value};
use crate::ops::render::{find_char, placeholder, rendered};
use crate::text::pieces::{decimal, digit_char};

verus! {

proof fn lemma_found(text: Seq<char>, ch: char, at: int, end: int)
    requires
        0 <= at <= end <= text.len(),
        forall|i: int| at <= i < end ==> #[trigger] text[i] != ch,
        end < text.len() ==> text[end] == ch,
    ensures
        find_char(text, ch, at) == end,
    decreases end - at,
{
    if at < end {
        assert(text[at] != ch);
        lemma_found(text, ch, at + 1, end);
    }
}

proof fn lemma_digits(n: nat)
    ensures
        all_digits(decimal(n)),
        decimal(n).len() > 0,
        digits_value(decimal(n)) == n,
    decreases n,
{
    let text = decimal(n);
    if n < 10 {
        assert(text.drop_last() =~= Seq::empty());
        assert(digits_value(text.drop_last()) == 0);
        assert(text.last() == digit_char(n));
    } else {
        lemma_digits(n / 10);
        assert(text.drop_last() =~= decimal(n / 10));
        assert(text.last() == digit_char(n % 10));
        assert(10 * (n / 10) + n % 10 == n);
        assert forall|i: int| 0 <= i < text.len() implies '0' <= #[trigger] text[i] <= '9' by {
            if i < text.len() - 1 {
                assert(text[i] == decimal(n / 10)[i]);
            }
        }
    }
}

/// Text without a bracket is left as it is.
pub proof fn plain_text_is_left_as_it_is(text: Seq<char>, operands: Seq<Seq<char>>)
    requires
        !text.contains('{'),
    ensures
        rendered(text, operands) == Some(text),
{
    assert forall|i: int| 0 <= i < text.len() implies #[trigger] text[i] != '{' by {
        assert(text.contains(text[i]));
    }
    lemma_found(text, '{', 0, text.len() as int);
}

/// A number in brackets is replaced by the operand of that number, and what stands before
/// it and after it stays where it is; an operand that is not there is not rendered.
pub proof fn a_placeholder_is_replaced_by_its_operand(
    before: Seq<char>,
    n: nat,
    after: Seq<char>,
    operands: Seq<Seq<char>>,
)
    requires
        !before.contains('{'),
    ensures
        ({
            let whole = rendered(
                before + seq!['{'] + decimal(n) + seq!['}'] + after,
                operands,
            );
            match rendered(after, operands) {
                Some(rest) => if n < operands.len() {
                    whole == Some(before + operands[n as int] + rest)
                } else {
                    whole is None
                },
                None => whole is None,
            }
        }),
{
    let digits = decimal(n);
    let text = before + seq!['{'] + digits + seq!['}'] + after;
    let open = before.len() as int;
    let close = open + 1 + digits.len();
    lemma_digits(n);
    assert forall|i: int| 0 <= i < open implies #[trigger] text[i] != '{' by {
        assert(text[i] == before[i]);
        assert(before.contains(before[i]));
    }
    assert(text[open] == '{');
    lemma_found(text, '{', 0, open);
    assert forall|i: int| open <= i < close implies #[trigger] text[i] != '}' by {
        if i > open {
            assert(text[i] == digits[i - open - 1]);
            assert('0' <= digits[i - open - 1] <= '9');
        }
    }
    assert(text[close] == '}');
    lemma_found(text, '}', open, close);
    assert(text.subrange(open + 1, close) =~= digits);
    assert('0' <= digits[0] <= '9');
    assert(placeholder(digits) == Some(n));
    assert(text.skip(close + 1) =~= after);
    assert(text.take(open) =~= before);
}

} // verus!
