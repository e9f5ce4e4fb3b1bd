//! The order of texts: by the first character that differs.

use vstd::prelude::*;
use crate::text::pieces::chars_of;

verus! {

/// Whether one text comes before another: by the first character in which they
/// differ, and a text before its own continuations.
pub open spec fn comes_before(left: Seq<char>, right: Seq<char>) -> bool
    decreases left.len(),
{
    if right.len() == 0 {
        false
    } else if left.len() == 0 {
        true
    } else if left[0] != right[0] {
        left[0] < right[0]
    } else {
        comes_before(left.drop_first(), right.drop_first())
    }
}

/// No text comes before itself.
pub proof fn lemma_order_irreflexive(text: Seq<char>)
    ensures
        !comes_before(text, text),
    decreases text.len(),
{
    if text.len() > 0 {
        lemma_order_irreflexive(text.drop_first());
    }
}

/// The order is transitive.
pub proof fn lemma_order_transitive(a: Seq<char>, b: Seq<char>, c: Seq<char>)
    requires
        comes_before(a, b),
        comes_before(b, c),
    ensures
        comes_before(a, c),
    decreases a.len(),
{
    if a.len() > 0 && b.len() > 0 && c.len() > 0 {
        if a[0] == b[0] && b[0] == c[0] {
            lemma_order_transitive(a.drop_first(), b.drop_first(), c.drop_first());
        }
    }
}

/// Of two texts that differ, one comes first.
pub proof fn lemma_order_total(a: Seq<char>, b: Seq<char>)
    ensures
        a == b || comes_before(a, b) || comes_before(b, a),
    decreases a.len(),
{
    if a.len() > 0 && b.len() > 0 {
        if a[0] == b[0] {
            lemma_order_total(a.drop_first(), b.drop_first());
            if a.drop_first() == b.drop_first() {
                assert(a =~= seq![a[0]] + a.drop_first());
                assert(b =~= seq![b[0]] + b.drop_first());
            }
        }
    } else {
        if a.len() == 0 && b.len() == 0 {
            assert(a =~= b);
        }
    }
}

/// Whether one text comes before another.
pub fn is_before(left: &str, right: &str) -> (yes: bool)
    ensures
        yes == comes_before(left@, right@),
{
    let a: Vec<char> = chars_of(left);
    let b: Vec<char> = chars_of(right);
    let mut i: usize = 0;
    assert(a@.skip(0) =~= a@);
    assert(b@.skip(0) =~= b@);
    loop
        invariant
            a@ == left@,
            b@ == right@,
            i <= a@.len(),
            i <= b@.len(),
            comes_before(a@, b@) == comes_before(a@.skip(i as int), b@.skip(i as int)),
        decreases a@.len() - i,
    {
        if i == b.len() {
            return false;
        }
        if i == a.len() {
            return true;
        }
        let ghost l = a@.skip(i as int);
        let ghost r = b@.skip(i as int);
        assert(l[0] == a@[i as int]);
        assert(r[0] == b@[i as int]);
        if a[i] != b[i] {
            return a[i] < b[i];
        }
        assert(l.drop_first() =~= a@.skip(i + 1));
        assert(r.drop_first() =~= b@.skip(i + 1));
        i = i + 1;
    }
}

} // verus!
