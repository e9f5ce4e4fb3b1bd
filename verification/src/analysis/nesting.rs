//! How deep the code nests.

use vstd::prelude::*;
use crate::module::types::{Module, Op};

verus! {

/// How deep a function can nest before a compiler's default stack is not enough
/// to parse what it is written out as.
pub const NESTING_RUSTC_HANDLES: usize = 300;

/// How many regions are open after a body. Closing more than were opened leaves
/// none open.
pub open spec fn open_after(body: Seq<Op>) -> nat
    decreases body.len(),
{
    if body.len() == 0 {
        0
    } else {
        let before = open_after(body.drop_last());
        match body.last() {
            Op::Block(_) | Op::Loop(_) | Op::If(_) => before + 1,
            Op::End => if before > 0 {
                (before - 1) as nat
            } else {
                0
            },
            _ => before,
        }
    }
}

/// The most regions that are ever open in a body.
pub open spec fn most_open(body: Seq<Op>) -> nat
    decreases body.len(),
{
    if body.len() == 0 {
        0
    } else {
        let before = most_open(body.drop_last());
        if open_after(body) > before {
            open_after(body)
        } else {
            before
        }
    }
}

/// The first of the first `n` functions that nests deepest, by function index, and
/// how deep.
pub open spec fn deepest_of(module: &Module, n: int) -> Option<(u32, nat)>
    decreases n,
{
    if n <= 0 {
        None
    } else {
        let depth = most_open(module.funcs@[n - 1].body@);
        let index = (module.func_imports@.len() + n - 1) as u32;
        match deepest_of(module, n - 1) {
            None => Some((index, depth)),
            Some((func, seen)) => if depth > seen {
                Some((index, depth))
            } else {
                Some((func, seen))
            },
        }
    }
}

/// No more regions are open than there are instructions.
proof fn lemma_open(body: Seq<Op>)
    ensures
        open_after(body) <= body.len(),
        most_open(body) <= body.len(),
    decreases body.len(),
{
    if body.len() > 0 {
        lemma_open(body.drop_last());
    }
}

/// The deepest nesting of one body.
fn nesting(body: &Vec<Op>) -> (most: usize)
    ensures
        most == most_open(body@),
{
    let mut depth: usize = 0;
    let mut most: usize = 0;
    let mut i: usize = 0;
    assert(body@.take(0) =~= Seq::empty());
    while i < body.len()
        invariant
            i <= body@.len(),
            depth == open_after(body@.take(i as int)),
            most == most_open(body@.take(i as int)),
        decreases body@.len() - i,
    {
        proof {
            let next = body@.take(i + 1);
            assert(next.drop_last() =~= body@.take(i as int));
            assert(next.last() == body@[i as int]);
            lemma_open(body@.take(i as int));
            lemma_open(next);
        }
        match &body[i] {
            Op::Block(_) | Op::Loop(_) | Op::If(_) => {
                depth = depth + 1;
                if depth > most {
                    most = depth;
                }
            },
            Op::End => {
                if depth > 0 {
                    depth = depth - 1;
                }
            },
            _ => {},
        }
        proof {
            lemma_open_below_most(body@.take(i as int));
        }
        i = i + 1;
    }
    assert(body@.take(i as int) =~= body@);
    most
}

/// What is open now is no more than the most that ever was.
proof fn lemma_open_below_most(body: Seq<Op>)
    ensures
        open_after(body) <= most_open(body),
    decreases body.len(),
{
}

/// The most deeply nested function in the module, and how deep it goes.
///
/// wasm's nesting becomes the nesting of what is written out, one labelled block
/// per `block`, `loop` or `if`, and a compiler parses that recursively. `None`
/// for a module with no functions.
pub fn deepest_nesting(module: &Module) -> (deepest: Option<(u32, usize)>)
    requires
        module.func_imports@.len() + module.funcs@.len() <= u32::MAX,
    ensures
        match deepest {
            Some((func, depth)) => deepest_of(module, module.funcs@.len() as int) == Some(
                (func, depth as nat),
            ),
            None => deepest_of(module, module.funcs@.len() as int) is None,
        },
{
    let import_count: u32 = module.func_imports.len() as u32;
    let mut deepest: Option<(u32, usize)> = None;
    let mut at: usize = 0;
    while at < module.funcs.len()
        invariant
            import_count == module.func_imports@.len(),
            module.func_imports@.len() + module.funcs@.len() <= u32::MAX,
            at <= module.funcs@.len(),
            match deepest {
                Some((func, depth)) => deepest_of(module, at as int) == Some((func, depth as nat)),
                None => deepest_of(module, at as int) is None,
            },
        decreases module.funcs@.len() - at,
    {
        let most: usize = nesting(&module.funcs[at].body);
        let index: u32 = import_count + at as u32;
        deepest = match deepest {
            Some((func, seen)) => if most > seen {
                Some((index, most))
            } else {
                Some((func, seen))
            },
            None => Some((index, most)),
        };
        at = at + 1;
    }
    deepest
}

} // verus!
