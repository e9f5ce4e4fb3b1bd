//! What holds of every fingerprint.

use vstd::prelude::*;
use crate::analysis::fingerprint::{
    fingerprint_of, hash_body, hash_signature, load_name, op_shape, store_name,
};
use crate::module::types::{Func, LoadKind, MemArg, Module, Op, StoreKind};

verus! {

/// How a load is spelled.
proof fn lemma_load_name(kind: LoadKind)
    ensures
        kind == LoadKind::I32 ==> load_name(kind).len() == 3 && load_name(kind)[0] == 'I' && load_name(kind)[1] == '3' && load_name(kind)[2] == '2',
        kind == LoadKind::I64 ==> load_name(kind).len() == 3 && load_name(kind)[0] == 'I' && load_name(kind)[1] == '6' && load_name(kind)[2] == '4',
        kind == LoadKind::F32 ==> load_name(kind).len() == 3 && load_name(kind)[0] == 'F' && load_name(kind)[1] == '3' && load_name(kind)[2] == '2',
        kind == LoadKind::F64 ==> load_name(kind).len() == 3 && load_name(kind)[0] == 'F' && load_name(kind)[1] == '6' && load_name(kind)[2] == '4',
        kind == LoadKind::I32Load8S ==> load_name(kind).len() == 9 && load_name(kind)[0] == 'I' && load_name(kind)[1] == '3' && load_name(kind)[2] == '2' && load_name(kind)[3] == 'L' && load_name(kind)[4] == 'o' && load_name(kind)[5] == 'a' && load_name(kind)[6] == 'd' && load_name(kind)[7] == '8' && load_name(kind)[8] == 'S',
        kind == LoadKind::I32Load8U ==> load_name(kind).len() == 9 && load_name(kind)[0] == 'I' && load_name(kind)[1] == '3' && load_name(kind)[2] == '2' && load_name(kind)[3] == 'L' && load_name(kind)[4] == 'o' && load_name(kind)[5] == 'a' && load_name(kind)[6] == 'd' && load_name(kind)[7] == '8' && load_name(kind)[8] == 'U',
        kind == LoadKind::I32Load16S ==> load_name(kind).len() == 10 && load_name(kind)[0] == 'I' && load_name(kind)[1] == '3' && load_name(kind)[2] == '2' && load_name(kind)[3] == 'L' && load_name(kind)[4] == 'o' && load_name(kind)[5] == 'a' && load_name(kind)[6] == 'd' && load_name(kind)[7] == '1' && load_name(kind)[8] == '6' && load_name(kind)[9] == 'S',
        kind == LoadKind::I32Load16U ==> load_name(kind).len() == 10 && load_name(kind)[0] == 'I' && load_name(kind)[1] == '3' && load_name(kind)[2] == '2' && load_name(kind)[3] == 'L' && load_name(kind)[4] == 'o' && load_name(kind)[5] == 'a' && load_name(kind)[6] == 'd' && load_name(kind)[7] == '1' && load_name(kind)[8] == '6' && load_name(kind)[9] == 'U',
        kind == LoadKind::I64Load8S ==> load_name(kind).len() == 9 && load_name(kind)[0] == 'I' && load_name(kind)[1] == '6' && load_name(kind)[2] == '4' && load_name(kind)[3] == 'L' && load_name(kind)[4] == 'o' && load_name(kind)[5] == 'a' && load_name(kind)[6] == 'd' && load_name(kind)[7] == '8' && load_name(kind)[8] == 'S',
        kind == LoadKind::I64Load8U ==> load_name(kind).len() == 9 && load_name(kind)[0] == 'I' && load_name(kind)[1] == '6' && load_name(kind)[2] == '4' && load_name(kind)[3] == 'L' && load_name(kind)[4] == 'o' && load_name(kind)[5] == 'a' && load_name(kind)[6] == 'd' && load_name(kind)[7] == '8' && load_name(kind)[8] == 'U',
        kind == LoadKind::I64Load16S ==> load_name(kind).len() == 10 && load_name(kind)[0] == 'I' && load_name(kind)[1] == '6' && load_name(kind)[2] == '4' && load_name(kind)[3] == 'L' && load_name(kind)[4] == 'o' && load_name(kind)[5] == 'a' && load_name(kind)[6] == 'd' && load_name(kind)[7] == '1' && load_name(kind)[8] == '6' && load_name(kind)[9] == 'S',
        kind == LoadKind::I64Load16U ==> load_name(kind).len() == 10 && load_name(kind)[0] == 'I' && load_name(kind)[1] == '6' && load_name(kind)[2] == '4' && load_name(kind)[3] == 'L' && load_name(kind)[4] == 'o' && load_name(kind)[5] == 'a' && load_name(kind)[6] == 'd' && load_name(kind)[7] == '1' && load_name(kind)[8] == '6' && load_name(kind)[9] == 'U',
        kind == LoadKind::I64Load32S ==> load_name(kind).len() == 10 && load_name(kind)[0] == 'I' && load_name(kind)[1] == '6' && load_name(kind)[2] == '4' && load_name(kind)[3] == 'L' && load_name(kind)[4] == 'o' && load_name(kind)[5] == 'a' && load_name(kind)[6] == 'd' && load_name(kind)[7] == '3' && load_name(kind)[8] == '2' && load_name(kind)[9] == 'S',
        kind == LoadKind::I64Load32U ==> load_name(kind).len() == 10 && load_name(kind)[0] == 'I' && load_name(kind)[1] == '6' && load_name(kind)[2] == '4' && load_name(kind)[3] == 'L' && load_name(kind)[4] == 'o' && load_name(kind)[5] == 'a' && load_name(kind)[6] == 'd' && load_name(kind)[7] == '3' && load_name(kind)[8] == '2' && load_name(kind)[9] == 'U',
{
    reveal_strlit("I32");
    reveal_strlit("I64");
    reveal_strlit("F32");
    reveal_strlit("F64");
    reveal_strlit("I32Load8S");
    reveal_strlit("I32Load8U");
    reveal_strlit("I32Load16S");
    reveal_strlit("I32Load16U");
    reveal_strlit("I64Load8S");
    reveal_strlit("I64Load8U");
    reveal_strlit("I64Load16S");
    reveal_strlit("I64Load16U");
    reveal_strlit("I64Load32S");
    reveal_strlit("I64Load32U");
}

/// How a store is spelled.
proof fn lemma_store_name(kind: StoreKind)
    ensures
        kind == StoreKind::I32 ==> store_name(kind).len() == 3 && store_name(kind)[0] == 'I' && store_name(kind)[1] == '3' && store_name(kind)[2] == '2',
        kind == StoreKind::I64 ==> store_name(kind).len() == 3 && store_name(kind)[0] == 'I' && store_name(kind)[1] == '6' && store_name(kind)[2] == '4',
        kind == StoreKind::F32 ==> store_name(kind).len() == 3 && store_name(kind)[0] == 'F' && store_name(kind)[1] == '3' && store_name(kind)[2] == '2',
        kind == StoreKind::F64 ==> store_name(kind).len() == 3 && store_name(kind)[0] == 'F' && store_name(kind)[1] == '6' && store_name(kind)[2] == '4',
        kind == StoreKind::I32Store8 ==> store_name(kind).len() == 9 && store_name(kind)[0] == 'I' && store_name(kind)[1] == '3' && store_name(kind)[2] == '2' && store_name(kind)[3] == 'S' && store_name(kind)[4] == 't' && store_name(kind)[5] == 'o' && store_name(kind)[6] == 'r' && store_name(kind)[7] == 'e' && store_name(kind)[8] == '8',
        kind == StoreKind::I32Store16 ==> store_name(kind).len() == 10 && store_name(kind)[0] == 'I' && store_name(kind)[1] == '3' && store_name(kind)[2] == '2' && store_name(kind)[3] == 'S' && store_name(kind)[4] == 't' && store_name(kind)[5] == 'o' && store_name(kind)[6] == 'r' && store_name(kind)[7] == 'e' && store_name(kind)[8] == '1' && store_name(kind)[9] == '6',
        kind == StoreKind::I64Store8 ==> store_name(kind).len() == 9 && store_name(kind)[0] == 'I' && store_name(kind)[1] == '6' && store_name(kind)[2] == '4' && store_name(kind)[3] == 'S' && store_name(kind)[4] == 't' && store_name(kind)[5] == 'o' && store_name(kind)[6] == 'r' && store_name(kind)[7] == 'e' && store_name(kind)[8] == '8',
        kind == StoreKind::I64Store16 ==> store_name(kind).len() == 10 && store_name(kind)[0] == 'I' && store_name(kind)[1] == '6' && store_name(kind)[2] == '4' && store_name(kind)[3] == 'S' && store_name(kind)[4] == 't' && store_name(kind)[5] == 'o' && store_name(kind)[6] == 'r' && store_name(kind)[7] == 'e' && store_name(kind)[8] == '1' && store_name(kind)[9] == '6',
        kind == StoreKind::I64Store32 ==> store_name(kind).len() == 10 && store_name(kind)[0] == 'I' && store_name(kind)[1] == '6' && store_name(kind)[2] == '4' && store_name(kind)[3] == 'S' && store_name(kind)[4] == 't' && store_name(kind)[5] == 'o' && store_name(kind)[6] == 'r' && store_name(kind)[7] == 'e' && store_name(kind)[8] == '3' && store_name(kind)[9] == '2',
{
    reveal_strlit("I32");
    reveal_strlit("I64");
    reveal_strlit("F32");
    reveal_strlit("F64");
    reveal_strlit("I32Store8");
    reveal_strlit("I32Store16");
    reveal_strlit("I64Store8");
    reveal_strlit("I64Store16");
    reveal_strlit("I64Store32");
}

/// A byte load and a word load are not the same code: what a load contributes tells its
/// width, its type and its sign extension, and nothing of its offset.
pub proof fn loads_of_different_kinds_differ(a: LoadKind, b: LoadKind, mem: MemArg, other: MemArg)
    ensures
        (op_shape(Op::Load { kind: a, mem }) == op_shape(Op::Load { kind: b, mem: other })) == (a
            == b),
{
    lemma_load_name(a);
    lemma_load_name(b);
    let one = op_shape(Op::Load { kind: a, mem });
    let two = op_shape(Op::Load { kind: b, mem: other });
    assert(one == "l"@ + load_name(a));
    assert(two == "l"@ + load_name(b));
    if one == two {
        assert(one.skip("l"@.len() as int) =~= load_name(a));
        assert(two.skip("l"@.len() as int) =~= load_name(b));
    }
}

/// The same of stores.
pub proof fn stores_of_different_kinds_differ(
    a: StoreKind,
    b: StoreKind,
    mem: MemArg,
    other: MemArg,
)
    ensures
        (op_shape(Op::Store { kind: a, mem }) == op_shape(Op::Store { kind: b, mem: other })) == (a
            == b),
{
    lemma_store_name(a);
    lemma_store_name(b);
    let one = op_shape(Op::Store { kind: a, mem });
    let two = op_shape(Op::Store { kind: b, mem: other });
    if one == two {
        assert(one.skip("s"@.len() as int) =~= store_name(a));
        assert(two.skip("s"@.len() as int) =~= store_name(b));
    }
}

/// Whether an instruction is one that a rebuild renumbers, or an access.
pub open spec fn renumbered(op: Op) -> bool {
    op is I32Const || op is I64Const || op is F32Const || op is F64Const || op is Call
        || op is CallIndirect || op is Load || op is Store || op is GlobalGet || op is GlobalSet
        || op is MemoryInit || op is DataDrop
}

/// A load is never taken for a store, nor a call for a constant: what is left of an
/// instruction still tells what it does.
pub proof fn what_is_left_tells_what_it_does(a: Op, b: Op)
    requires
        renumbered(a),
        renumbered(b),
        op_shape(a) == op_shape(b),
    ensures
        a is I32Const == b is I32Const,
        a is I64Const == b is I64Const,
        (a is F32Const || a is F64Const) == (b is F32Const || b is F64Const),
        a is Call == b is Call,
        a is CallIndirect == b is CallIndirect,
        a is Load == b is Load,
        a is Store == b is Store,
        (a is GlobalGet || a is GlobalSet) == (b is GlobalGet || b is GlobalSet),
        (a is MemoryInit || a is DataDrop) == (b is MemoryInit || b is DataDrop),
{
    lemma_first_letter(a);
    lemma_first_letter(b);
}

proof fn lemma_first_letter(op: Op)
    requires
        renumbered(op),
    ensures
        op_shape(op).len() > 0,
        op_shape(op)[0] == if op is I32Const {
            'c'
        } else if op is I64Const {
            'C'
        } else if op is F32Const || op is F64Const {
            'F'
        } else if op is Call {
            'k'
        } else if op is CallIndirect {
            'K'
        } else if op is Load {
            'l'
        } else if op is Store {
            's'
        } else if op is GlobalGet || op is GlobalSet {
            'g'
        } else {
            'd'
        },
{
    reveal_strlit("c");
    reveal_strlit("C");
    reveal_strlit("F");
    reveal_strlit("k");
    reveal_strlit("K");
    reveal_strlit("l");
    reveal_strlit("s");
    reveal_strlit("g");
    reveal_strlit("d");
}

/// A fingerprint reads the body in order, after the signature: two functions that agree up
/// to some point and from there on fingerprint alike exactly where the hashes they have
/// reached there lead to the same one.
pub proof fn a_fingerprint_reads_the_body_in_order(module: &Module, func: Func, n: int)
    requires
        0 <= n <= func.body@.len(),
    ensures
        fingerprint_of(module, func) == hash_body(
            hash_body(hash_signature(module, func.type_index), func.body@.take(n)),
            func.body@.skip(n),
        ),
{
    lemma_hash_body(hash_signature(module, func.type_index), func.body@, n);
}

proof fn lemma_hash_body(hash: u64, body: Seq<Op>, n: int)
    requires
        0 <= n <= body.len(),
    ensures
        hash_body(hash, body) == hash_body(hash_body(hash, body.take(n)), body.skip(n)),
    decreases body.len() - n,
{
    if n == body.len() {
        assert(body.take(n) =~= body);
        assert(body.skip(n) =~= Seq::empty());
    } else {
        let less = body.drop_last();
        lemma_hash_body(hash, less, n);
        assert(less.take(n) =~= body.take(n));
        assert(less.skip(n) =~= body.skip(n).drop_last());
        assert(body.skip(n).last() == body.last());
    }
}

} // verus!
