//! What holds of every module that is read.

use vstd::prelude::*;
use crate::error::Failure;
use crate::module::assemble::{body_offsets, body_op, function_of, numbered};
use crate::module::model::{gathered, Instruction};
use crate::module::parse::{after_parts, module_of};
use crate::module::types::Op;
use crate::module::wire::PartModel;

verus! {

/// A list whose results are gathered has each of them.
pub proof fn lemma_gathered_all<T>(results: Seq<Result<T, Failure>>)
    requires
        gathered(results) is Ok,
    ensures
        (gathered(results)->Ok_0).len() == results.len(),
        forall|i: int|
            0 <= i < results.len() ==> #[trigger] results[i] == Ok::<T, Failure>(
                (gathered(results)->Ok_0)[i],
            ),
    decreases results.len(),
{
    if results.len() > 0 {
        let less = results.drop_last();
        lemma_gathered_all(less);
        assert forall|i: int| 0 <= i < results.len() implies #[trigger] results[i] == Ok::<
            T,
            Failure,
        >((gathered(results)->Ok_0)[i]) by {
            if i < less.len() {
                assert(less[i] == results[i]);
            }
        }
    }
}

/// Nothing is skipped: each instruction of a function is an operator of its body,
/// in order, and the only operator that may be missing is a closing `end`. Each
/// instruction has its place in the file.
pub proof fn nothing_is_skipped(
    runs: Seq<Result<(u32, Seq<char>), Seq<char>>>,
    operators: Seq<Result<(Seq<char>, usize), Seq<char>>>,
    end: usize,
    type_index: u32,
    index: int,
)
    requires
        function_of(runs, operators, end, type_index, index) is Ok,
    ensures
        ({
            let func = function_of(runs, operators, end, type_index, index)->Ok_0;
            let location = numbered("function #"@, index as nat);
            &&& func.offsets.len() == func.body.len()
            &&& func.body.len() == operators.len() || (func.body.len() == operators.len() - 1
                && body_op(operators.last(), location) == Ok::<Instruction, Failure>(
                Instruction::Plain(Op::End),
            ))
            &&& forall|i: int|
                0 <= i < func.body.len() ==> body_op(#[trigger] operators[i], location) == Ok::<
                    Instruction,
                    Failure,
                >(func.body[i])
        }),
{
    let location = numbered("function #"@, index as nat);
    let results = Seq::new(operators.len(), |i: int| body_op(operators[i], location));
    lemma_gathered_all(results);
    let func = function_of(runs, operators, end, type_index, index)->Ok_0;
    let whole = gathered(results)->Ok_0;
    assert(body_offsets(operators, end).len() == operators.len());
    assert forall|i: int| 0 <= i < func.body.len() implies body_op(
        #[trigger] operators[i],
        location,
    ) == Ok::<Instruction, Failure>(func.body[i]) by {
        assert(results[i] == Ok::<Instruction, Failure>(whole[i]));
    }
    if func.body.len() != operators.len() {
        assert(results[operators.len() - 1] == Ok::<Instruction, Failure>(
            whole[operators.len() - 1],
        ));
    }
}

/// An operator that cannot be lowered makes the whole function fail: it is never
/// left out.
pub proof fn an_unknown_operator_is_an_error(
    runs: Seq<Result<(u32, Seq<char>), Seq<char>>>,
    operators: Seq<Result<(Seq<char>, usize), Seq<char>>>,
    end: usize,
    type_index: u32,
    index: int,
    at: int,
)
    requires
        0 <= at < operators.len(),
        body_op(operators[at], numbered("function #"@, index as nat)) is Err,
    ensures
        function_of(runs, operators, end, type_index, index) is Err,
{
    let location = numbered("function #"@, index as nat);
    let results = Seq::new(operators.len(), |i: int| body_op(operators[i], location));
    if gathered(results) is Ok {
        lemma_gathered_all(results);
        assert(results[at] is Ok);
    }
}

/// A module has one function for each body that was read.
proof fn lemma_bodies(parts: Seq<Result<PartModel, Seq<char>>>, bytes: Seq<u8>)
    requires
        after_parts(parts, bytes) is Ok,
    ensures
        (after_parts(parts, bytes)->Ok_0).module.funcs.len() == (after_parts(
            parts,
            bytes,
        )->Ok_0).bodies,
    decreases parts.len(),
{
    if parts.len() > 0 {
        lemma_bodies(parts.drop_last(), bytes);
    }
}

/// A module that is read has a function for every one that it declares, and no
/// other.
pub proof fn every_declared_function_has_a_body(
    parts: Seq<Result<PartModel, Seq<char>>>,
    bytes: Seq<u8>,
)
    requires
        module_of(parts, bytes) is Ok,
    ensures
        (module_of(parts, bytes)->Ok_0).funcs.len() == (after_parts(
            parts,
            bytes,
        )->Ok_0).declared.len(),
{
    lemma_bodies(parts, bytes);
}

} // verus!
