//! What holds of everything a module registers with embind.

use vstd::prelude::*;
use crate::analysis::embind::{
    called_at, class_of, constants_before, last_class, name_argument, or_dots, parameters_called,
    registrations_of, site_at, sites_in, sites_of, types_argument, types_of, Site,
};
use crate::analysis::laws::{a_type_is_named_wherever_it_is_registered, speaks_of};
use crate::analysis::placement::{static_text_from, static_word, Placement};
use crate::module::types::{Module, Op};
use crate::text::pieces::{ends_with, joined, signed_decimal};

verus! {

// ---- which class a member belongs to ----

/// Whether a registration is of a member of a class: of a method, a property or a
/// constructor.
pub open spec fn of_a_member(kind: Seq<char>) -> bool {
    let class = "_embind_register_class"@;
    kind.len() > class.len() && kind.take(class.len() as int) == class
}

/// Where no class was registered between, the last class is the one before.
proof fn lemma_last_class(sites: Seq<Site>, j: int)
    requires
        0 <= j < sites.len(),
        sites[j].kind == "_embind_register_class"@,
        forall|k: int|
            j < k < sites.len() ==> (#[trigger] sites[k]).kind != "_embind_register_class"@,
    ensures
        last_class(sites) == sites[j].name,
    decreases sites.len(),
{
    if j < sites.len() - 1 {
        let less = sites.drop_last();
        assert(sites[sites.len() - 1].kind != "_embind_register_class"@);
        assert forall|k: int| j < k < less.len() implies (#[trigger] less[k]).kind
            != "_embind_register_class"@ by {
            assert(less[k] == sites[k]);
        }
        assert(less[j] == sites[j]);
        lemma_last_class(less, j);
    }
}

/// Where no class was registered, there is none.
proof fn lemma_no_class(sites: Seq<Site>)
    requires
        forall|k: int|
            0 <= k < sites.len() ==> (#[trigger] sites[k]).kind != "_embind_register_class"@,
    ensures
        last_class(sites) is None,
    decreases sites.len(),
{
    if sites.len() > 0 {
        let less = sites.drop_last();
        assert(sites[sites.len() - 1].kind != "_embind_register_class"@);
        assert forall|k: int| 0 <= k < less.len() implies (#[trigger] less[k]).kind
            != "_embind_register_class"@ by {
            assert(less[k] == sites[k]);
        }
        lemma_no_class(less);
    }
}

/// A kind that starts with another is no shorter and has its characters.
proof fn lemma_member(kind: Seq<char>)
    ensures
        of_a_member(kind) == (kind != "_embind_register_class"@
            && crate::text::pieces::begins_with(kind, "_embind_register_class"@)),
{
    let class = "_embind_register_class"@;
    if crate::text::pieces::begins_with(kind, class) {
        assert(kind.take(class.len() as int) =~= class);
        if kind.len() == class.len() {
            assert(kind =~= class);
        }
    }
    if of_a_member(kind) {
        assert(forall|i: int| 0 <= i < class.len() ==> kind[i] == kind.take(class.len() as int)[i]);
    }
}

/// A method, a property or a constructor belongs to the class that was registered
/// last before it, by the name which that was registered under.
pub proof fn a_member_belongs_to_the_class_before_it(
    module: &Module,
    placements: Map<u32, Placement>,
    j: int,
    i: int,
)
    requires
        0 <= j < i < registrations_of(module, placements).len(),
        registrations_of(module, placements)[j].kind == "_embind_register_class"@,
        forall|k: int|
            j < k < i ==> (#[trigger] registrations_of(module, placements)[k]).kind
                != "_embind_register_class"@,
        of_a_member(registrations_of(module, placements)[i].kind),
    ensures
        registrations_of(module, placements)[i].class == registrations_of(
            module,
            placements,
        )[j].name,
{
    let list = registrations_of(module, placements);
    let sites = sites_of(module, placements, module.funcs@.len() as int);
    let before = sites.take(i);
    assert(before[j].kind == list[j].kind);
    assert forall|k: int| j < k < before.len() implies (#[trigger] before[k]).kind
        != "_embind_register_class"@ by {
        assert(list[k].kind == before[k].kind);
    }
    lemma_last_class(before, j);
    lemma_member(sites[i].kind);
}

/// What is registered before any class, and what is no member of one, belongs to
/// none.
pub proof fn what_is_no_member_has_no_class(
    module: &Module,
    placements: Map<u32, Placement>,
    i: int,
)
    requires
        0 <= i < registrations_of(module, placements).len(),
        of_a_member(registrations_of(module, placements)[i].kind) ==> forall|k: int|
            0 <= k < i ==> (#[trigger] registrations_of(module, placements)[k]).kind
                != "_embind_register_class"@,
    ensures
        registrations_of(module, placements)[i].class is None,
{
    let list = registrations_of(module, placements);
    let sites = sites_of(module, placements, module.funcs@.len() as int);
    lemma_member(sites[i].kind);
    if of_a_member(list[i].kind) {
        let before = sites.take(i);
        assert forall|k: int| 0 <= k < before.len() implies (#[trigger] before[k]).kind
            != "_embind_register_class"@ by {
            assert(list[k].kind == before[k].kind);
        }
        lemma_no_class(before);
    }
}

// ---- which calls register something ----

/// Whether an instruction calls an import whose name starts as embind's do.
pub open spec fn registers(module: &Module, op: Op) -> bool {
    let prefix = "_embind_register"@;
    match op {
        Op::Call(callee) => {
            &&& callee < module.func_imports@.len()
            &&& module.func_imports@[callee as int].field@.len() >= prefix.len()
            &&& module.func_imports@[callee as int].field@.take(prefix.len() as int) == prefix
        },
        _ => false,
    }
}

/// How many of the first `p` instructions of a body register something.
pub open spec fn made_in(module: &Module, body: Seq<Op>, p: int) -> nat {
    body.take(p).filter(|op: Op| registers(module, op)).len()
}

/// How many registrations the first `f` functions make.
pub open spec fn made_by(module: &Module, f: int) -> nat
    decreases f,
{
    if f <= 0 {
        0
    } else {
        let body = module.funcs@[f - 1].body@;
        made_by(module, f - 1) + made_in(module, body, body.len() as int)
    }
}

/// Where what the `p`th instruction of the `f`th function registers stands among all
/// registrations.
pub open spec fn place_of(module: &Module, f: int, p: int) -> int {
    (made_by(module, f) + made_in(module, module.funcs@[f].body@, p)) as int
}

/// A site is there exactly for an instruction that registers something.
proof fn lemma_site(
    module: &Module,
    placements: Map<u32, Placement>,
    body: Seq<Op>,
    at: int,
)
    requires
        0 <= at < body.len(),
    ensures
        registers(module, body[at]) == site_at(module, placements, body, at) is Some,
{
    let prefix = "_embind_register"@;
    match body[at] {
        Op::Call(callee) => {
            if callee < module.func_imports@.len() {
                let field = module.func_imports@[callee as int].field@;
                if crate::text::pieces::begins_with(field, prefix) {
                    assert(field.take(prefix.len() as int) =~= prefix);
                }
                if registers(module, body[at]) {
                    assert(forall|i: int|
                        0 <= i < prefix.len() ==> field[i] == field.take(prefix.len() as int)[i]);
                }
            }
        },
        _ => {},
    }
}

/// One more instruction registers one more or none.
proof fn lemma_made_in(module: &Module, body: Seq<Op>, p: int)
    requires
        0 <= p < body.len(),
    ensures
        made_in(module, body, p + 1) == made_in(module, body, p) + if registers(module, body[p]) {
            1nat
        } else {
            0
        },
{
    let wanted = |op: Op| registers(module, op);
    let next = body.take(p + 1);
    assert(next.drop_last() =~= body.take(p));
    assert(next.last() == body[p]);
    reveal(Seq::filter);
    assert(next.filter(wanted) == if wanted(next.last()) {
        next.drop_last().filter(wanted).push(next.last())
    } else {
        next.drop_last().filter(wanted)
    });
}

/// Where a registration of a body stands among those of the body.
proof fn lemma_place_in(
    module: &Module,
    placements: Map<u32, Placement>,
    body: Seq<Op>,
    p: int,
    n: int,
)
    requires
        0 <= p < n <= body.len(),
    ensures
        sites_in(module, placements, body, n).len() == made_in(module, body, n),
        registers(module, body[p]) ==> made_in(module, body, p) < made_in(module, body, n)
            && Some(sites_in(module, placements, body, n)[made_in(module, body, p) as int])
            == site_at(module, placements, body, p),
    decreases n,
{
    lemma_site(module, placements, body, n - 1);
    lemma_made_in(module, body, n - 1);
    if n - 1 > 0 {
        if p < n - 1 {
            lemma_place_in(module, placements, body, p, n - 1);
        } else {
            lemma_place_in(module, placements, body, 0, n - 1);
        }
    } else {
        assert(body.take(0) =~= Seq::empty());
        reveal(Seq::filter);
        assert(sites_in(module, placements, body, 0) =~= Seq::empty());
    }
}

/// Where a registration of a function stands among all of them.
proof fn lemma_place_of(
    module: &Module,
    placements: Map<u32, Placement>,
    f: int,
    p: int,
    n: int,
)
    requires
        0 <= f < n <= module.funcs@.len(),
        0 <= p < module.funcs@[f].body@.len(),
        registers(module, module.funcs@[f].body@[p]),
    ensures
        ({
            let body = module.funcs@[f].body@;
            let place = made_by(module, f) + made_in(module, body, p);
            &&& sites_of(module, placements, n).len() == made_by(module, n)
            &&& place < made_by(module, n)
            &&& Some(sites_of(module, placements, n)[place as int]) == site_at(
                module,
                placements,
                body,
                p,
            )
        }),
    decreases n,
{
    let last = module.funcs@[n - 1].body@;
    lemma_count(module, placements, n);
    lemma_count(module, placements, n - 1);
    if f == n - 1 {
        lemma_place_in(module, placements, last, p, last.len() as int);
    } else {
        lemma_place_of(module, placements, f, p, n - 1);
    }
}

/// As many sites are found as registrations are made.
proof fn lemma_count(module: &Module, placements: Map<u32, Placement>, n: int)
    requires
        0 <= n <= module.funcs@.len(),
    ensures
        sites_of(module, placements, n).len() == made_by(module, n),
    decreases n,
{
    if n > 0 {
        lemma_count(module, placements, n - 1);
        let last = module.funcs@[n - 1].body@;
        if last.len() > 0 {
            lemma_place_in(module, placements, last, 0, last.len() as int);
        } else {
            assert(last.take(0) =~= Seq::empty());
            reveal(Seq::filter);
        }
    }
}

/// Every call of an import whose name starts as embind's do is reported, under the
/// name of that import, and nothing else is: in the order of the functions, and in each
/// in the order of its body.
pub proof fn every_registration_is_reported_in_order(
    module: &Module,
    placements: Map<u32, Placement>,
    f: int,
    p: int,
)
    requires
        0 <= f < module.funcs@.len(),
        0 <= p < module.funcs@[f].body@.len(),
    ensures
        registrations_of(module, placements).len() == made_by(module, module.funcs@.len() as int),
        ({
            let body = module.funcs@[f].body@;
            let place = place_of(module, f, p);
            registers(module, body[p]) ==> place < registrations_of(module, placements).len()
                && registrations_of(module, placements)[place].kind
                == module.func_imports@[body[p]->Call_0 as int].field@
        }),
{
    lemma_count(module, placements, module.funcs@.len() as int);
    if registers(module, module.funcs@[f].body@[p]) {
        lemma_place_of(module, placements, f, p, module.funcs@.len() as int);
    }
}

// ---- what each registration carries ----

/// What the kinds of registration are called.
proof fn lemma_kinds(kind: Seq<char>)
    ensures
        kind == "_embind_register_void"@ ==> kind.len() == 21 && kind[17] == 'v' && kind[18] == 'o' && kind[19] == 'i' && kind[20] == 'd',
        kind == "_embind_register_bool"@ ==> kind.len() == 21 && kind[17] == 'b' && kind[18] == 'o' && kind[19] == 'o' && kind[20] == 'l',
        kind == "_embind_register_integer"@ ==> kind.len() == 24 && kind[17] == 'i' && kind[18] == 'n' && kind[19] == 't' && kind[20] == 'e' && kind[21] == 'g' && kind[22] == 'e' && kind[23] == 'r',
        kind == "_embind_register_bigint"@ ==> kind.len() == 23 && kind[17] == 'b' && kind[18] == 'i' && kind[19] == 'g' && kind[20] == 'i' && kind[21] == 'n' && kind[22] == 't',
        kind == "_embind_register_float"@ ==> kind.len() == 22 && kind[17] == 'f' && kind[18] == 'l' && kind[19] == 'o' && kind[20] == 'a' && kind[21] == 't',
        kind == "_embind_register_std_string"@ ==> kind.len() == 27 && kind[17] == 's' && kind[18] == 't' && kind[19] == 'd' && kind[20] == '_' && kind[21] == 's' && kind[22] == 't' && kind[23] == 'r' && kind[24] == 'i',
        kind == "_embind_register_std_wstring"@ ==> kind.len() == 28 && kind[17] == 's' && kind[18] == 't' && kind[19] == 'd' && kind[20] == '_' && kind[21] == 'w' && kind[22] == 's' && kind[23] == 't' && kind[24] == 'r',
        kind == "_embind_register_emval"@ ==> kind.len() == 22 && kind[17] == 'e' && kind[18] == 'm' && kind[19] == 'v' && kind[20] == 'a' && kind[21] == 'l',
        kind == "_embind_register_memory_view"@ ==> kind.len() == 28 && kind[17] == 'm' && kind[18] == 'e' && kind[19] == 'm' && kind[20] == 'o' && kind[21] == 'r' && kind[22] == 'y' && kind[23] == '_' && kind[24] == 'v',
        kind == "_embind_register_function"@ ==> kind.len() == 25 && kind[17] == 'f' && kind[18] == 'u' && kind[19] == 'n' && kind[20] == 'c' && kind[21] == 't' && kind[22] == 'i' && kind[23] == 'o' && kind[24] == 'n',
        kind == "_embind_register_value_array"@ ==> kind.len() == 28 && kind[17] == 'v' && kind[18] == 'a' && kind[19] == 'l' && kind[20] == 'u' && kind[21] == 'e' && kind[22] == '_' && kind[23] == 'a' && kind[24] == 'r',
        kind == "_embind_register_value_object"@ ==> kind.len() == 29 && kind[17] == 'v' && kind[18] == 'a' && kind[19] == 'l' && kind[20] == 'u' && kind[21] == 'e' && kind[22] == '_' && kind[23] == 'o' && kind[24] == 'b',
        kind == "_embind_register_class"@ ==> kind.len() == 22 && kind[17] == 'c' && kind[18] == 'l' && kind[19] == 'a' && kind[20] == 's' && kind[21] == 's',
        kind == "_embind_register_class_function"@ ==> kind.len() == 31 && kind[17] == 'c' && kind[18] == 'l' && kind[19] == 'a' && kind[20] == 's' && kind[21] == 's' && kind[22] == '_' && kind[23] == 'f' && kind[24] == 'u',
        kind == "_embind_register_class_property"@ ==> kind.len() == 31 && kind[17] == 'c' && kind[18] == 'l' && kind[19] == 'a' && kind[20] == 's' && kind[21] == 's' && kind[22] == '_' && kind[23] == 'p' && kind[24] == 'r',
        kind == "_embind_register_class_class_function"@ ==> kind.len() == 37 && kind[17] == 'c' && kind[18] == 'l' && kind[19] == 'a' && kind[20] == 's' && kind[21] == 's' && kind[22] == '_' && kind[23] == 'c' && kind[24] == 'l',
        kind == "_embind_register_enum"@ ==> kind.len() == 21 && kind[17] == 'e' && kind[18] == 'n' && kind[19] == 'u' && kind[20] == 'm',
        kind == "_embind_register_enum_value"@ ==> kind.len() == 27 && kind[17] == 'e' && kind[18] == 'n' && kind[19] == 'u' && kind[20] == 'm' && kind[21] == '_' && kind[22] == 'v' && kind[23] == 'a' && kind[24] == 'l',
        kind == "_embind_register_constant"@ ==> kind.len() == 25 && kind[17] == 'c' && kind[18] == 'o' && kind[19] == 'n' && kind[20] == 's' && kind[21] == 't' && kind[22] == 'a' && kind[23] == 'n' && kind[24] == 't',
        kind == "_embind_register_class_constructor"@ ==> kind.len() == 34 && kind[17] == 'c' && kind[18] == 'l' && kind[19] == 'a' && kind[20] == 's' && kind[21] == 's' && kind[22] == '_' && kind[23] == 'c' && kind[24] == 'o',
{
    reveal_strlit("_embind_register_void");
    reveal_strlit("_embind_register_bool");
    reveal_strlit("_embind_register_integer");
    reveal_strlit("_embind_register_bigint");
    reveal_strlit("_embind_register_float");
    reveal_strlit("_embind_register_std_string");
    reveal_strlit("_embind_register_std_wstring");
    reveal_strlit("_embind_register_emval");
    reveal_strlit("_embind_register_memory_view");
    reveal_strlit("_embind_register_function");
    reveal_strlit("_embind_register_value_array");
    reveal_strlit("_embind_register_value_object");
    reveal_strlit("_embind_register_class");
    reveal_strlit("_embind_register_class_function");
    reveal_strlit("_embind_register_class_property");
    reveal_strlit("_embind_register_class_class_function");
    reveal_strlit("_embind_register_enum");
    reveal_strlit("_embind_register_enum_value");
    reveal_strlit("_embind_register_constant");
    reveal_strlit("_embind_register_class_constructor");
}

/// Whether a registration has its name in its first argument.
pub open spec fn named_by_the_first(kind: Seq<char>) -> bool {
    ||| kind == "_embind_register_function"@
    ||| kind == "_embind_register_constant"@
}

/// Whether a registration has its name in its second argument, after the type.
pub open spec fn named_by_the_second(kind: Seq<char>) -> bool {
    ||| kind == "_embind_register_void"@
    ||| kind == "_embind_register_bool"@
    ||| kind == "_embind_register_integer"@
    ||| kind == "_embind_register_bigint"@
    ||| kind == "_embind_register_float"@
    ||| kind == "_embind_register_std_string"@
    ||| kind == "_embind_register_emval"@
    ||| kind == "_embind_register_value_array"@
    ||| kind == "_embind_register_value_object"@
    ||| kind == "_embind_register_class_function"@
    ||| kind == "_embind_register_class_property"@
    ||| kind == "_embind_register_class_class_function"@
    ||| kind == "_embind_register_enum"@
    ||| kind == "_embind_register_enum_value"@
}

/// Whether a registration has its name in its third argument, after the type and
/// what it is made of.
pub open spec fn named_by_the_third(kind: Seq<char>) -> bool {
    ||| kind == "_embind_register_std_wstring"@
    ||| kind == "_embind_register_memory_view"@
}

/// Which argument has the name.
proof fn lemma_named_by(kind: Seq<char>)
    ensures
        named_by_the_first(kind) ==> name_argument(kind) == Some(0usize),
        named_by_the_second(kind) ==> name_argument(kind) == Some(1usize),
        named_by_the_third(kind) ==> name_argument(kind) == Some(2usize),
        kind == "_embind_register_class"@ ==> name_argument(kind) == Some(10usize),
{
    lemma_kinds(kind);
}

/// The name of a registration is the text its name argument points at: the first
/// argument of a function or a constant, the eleventh of a class, the third of a wide
/// string or a memory view, and the second of anything else. All its arguments have to
/// be constants directly before the call.
pub proof fn the_name_is_the_text_its_argument_points_at(
    module: &Module,
    placements: Map<u32, Placement>,
    f: int,
    p: int,
    arity: int,
)
    requires
        0 <= f < module.funcs@.len(),
        0 <= p < module.funcs@[f].body@.len(),
        registers(module, module.funcs@[f].body@[p]),
        match module.signature(module.funcs@[f].body@[p]->Call_0) {
            Some(ty) => ty.params@.len() == arity,
            None => arity == 0,
        },
        arity <= p,
        forall|i: int| p - arity <= i < p ==> (#[trigger] module.funcs@[f].body@[i]) is I32Const,
    ensures
        ({
            let body = module.funcs@[f].body@;
            let kind = module.func_imports@[body[p]->Call_0 as int].field@;
            let name = registrations_of(module, placements)[place_of(module, f, p)].name;
            let pointed = |k: int|
                static_text_from(
                    module,
                    placements,
                    body[p - arity + k]->I32Const_0,
                    None,
                    1,
                    0,
                );
            &&& named_by_the_first(kind) && arity > 0 ==> name == pointed(0)
            &&& named_by_the_second(kind) && arity > 1 ==> name == pointed(1)
            &&& named_by_the_third(kind) && arity > 2 ==> name == pointed(2)
            &&& kind == "_embind_register_class"@ && arity > 10 ==> name == pointed(10)
        }),
{
    let body = module.funcs@[f].body@;
    let kind = module.func_imports@[body[p]->Call_0 as int].field@;
    lemma_place_of(module, placements, f, p, module.funcs@.len() as int);
    lemma_count(module, placements, module.funcs@.len() as int);
    lemma_named_by(kind);
    lemma_site(module, placements, body, p);
    assert(constants_before(body, p, arity as nat) is Some);
}

/// A registration whose arguments are not all constants directly before the call has
/// no name and no signature: nothing is guessed.
pub proof fn without_constants_nothing_is_guessed(
    module: &Module,
    placements: Map<u32, Placement>,
    f: int,
    p: int,
    arity: int,
    i: int,
)
    requires
        0 <= f < module.funcs@.len(),
        0 <= p < module.funcs@[f].body@.len(),
        registers(module, module.funcs@[f].body@[p]),
        match module.signature(module.funcs@[f].body@[p]->Call_0) {
            Some(ty) => ty.params@.len() == arity,
            None => arity == 0,
        },
        arity > p || p - arity <= i < p && !(module.funcs@[f].body@[i] is I32Const),
    ensures
        ({
            let body = module.funcs@[f].body@;
            let registration = registrations_of(module, placements)[place_of(module, f, p)];
            registration.name is None && registration.signature is None
        }),
{
    let body = module.funcs@[f].body@;
    lemma_place_of(module, placements, f, p, module.funcs@.len() as int);
    lemma_count(module, placements, module.funcs@.len() as int);
    lemma_site(module, placements, body, p);
}

// ---- what a signature says ----

/// Whether a word of an array of type ids is spelled so: as the type it is the id of,
/// as its number where no type has that id, and as a question mark where there is no
/// such word.
pub open spec fn spells(types: Map<i32, Seq<char>>, word: Option<i32>, piece: Seq<char>) -> bool {
    match word {
        Some(id) => {
            &&& types.contains_key(id) ==> piece == types[id]
            &&& !types.contains_key(id) ==> piece == "type@"@ + signed_decimal(id as int)
        },
        None => piece == "?"@,
    }
}

/// The signature of a function or a method is its return type, its name and its
/// parameters, in the order of the array of type ids its arguments point at: the
/// first is what it returns.
pub proof fn a_signature_is_its_types_in_order(
    module: &Module,
    placements: Map<u32, Placement>,
    f: int,
    p: int,
    arity: int,
    count_at: int,
    pieces: Seq<Seq<char>>,
)
    requires
        0 <= f < module.funcs@.len(),
        0 <= p < module.funcs@[f].body@.len(),
        registers(module, module.funcs@[f].body@[p]),
        match module.signature(module.funcs@[f].body@[p]->Call_0) {
            Some(ty) => ty.params@.len() == arity,
            None => arity == 0,
        },
        count_at + 1 < arity <= p,
        forall|i: int| p - arity <= i < p ==> (#[trigger] module.funcs@[f].body@[i]) is I32Const,
        ({
            let kind = module.func_imports@[module.funcs@[f].body@[p]->Call_0 as int].field@;
            ||| kind == "_embind_register_function"@ && count_at == 1
            ||| kind == "_embind_register_class_function"@ && count_at == 2
            ||| kind == "_embind_register_class_class_function"@ && count_at == 2
            ||| kind == "_embind_register_class_constructor"@ && count_at == 1
        }),
        0 < pieces.len() < 64,
        pieces.len() == module.funcs@[f].body@[p - arity + count_at]->I32Const_0,
        forall|k: int|
            0 <= k < pieces.len() ==> spells(
                types_of(sites_of(module, placements, module.funcs@.len() as int)),
                static_word(
                    module,
                    placements,
                    module.funcs@[f].body@[p - arity + count_at + 1]->I32Const_0.wrapping_add(
                        (4 * k) as i32,
                    ),
                    0,
                ),
                #[trigger] pieces[k],
            ),
    ensures
        ({
            let kind = module.func_imports@[module.funcs@[f].body@[p]->Call_0 as int].field@;
            let registration = registrations_of(module, placements)[place_of(module, f, p)];
            let dots = "\u{2026}"@;
            let parameters = "("@ + joined(pieces.drop_first(), ", "@) + ")"@;
            if kind == "_embind_register_class_constructor"@ {
                registration.signature == Some(
                    match registration.class {
                        Some(class) => class,
                        None => dots,
                    } + parameters,
                )
            } else {
                registration.signature == Some(
                    pieces[0] + " "@ + match registration.name {
                        Some(name) => name,
                        None => dots,
                    } + parameters,
                )
            }
        }),
{
    let body = module.funcs@[f].body@;
    let kind = module.func_imports@[body[p]->Call_0 as int].field@;
    let all = module.funcs@.len() as int;
    let types = types_of(sites_of(module, placements, all));
    lemma_place_of(module, placements, f, p, all);
    lemma_count(module, placements, all);
    lemma_kinds(kind);
    lemma_site(module, placements, body, p);
    lemma_constructor(kind);
    let place = place_of(module, f, p);
    let site = sites_of(module, placements, all)[place];
    let values = site.arguments->0;
    assert(site.arguments is Some);
    assert(values[count_at] == body[p - arity + count_at]->I32Const_0);
    assert(values[count_at + 1] == body[p - arity + count_at + 1]->I32Const_0);
    let address = values[count_at + 1];
    let count = values[count_at];
    assert(types_argument(kind) == Some((count_at as usize, (count_at + 1) as usize)));
    assert forall|k: int| 0 <= k < pieces.len() implies called_at(
        module,
        placements,
        types,
        address,
        k,
    ) == #[trigger] pieces[k] by {
        assert(spells(
            types,
            static_word(module, placements, address.wrapping_add((4 * k) as i32), 0),
            pieces[k],
        ));
    }
    assert(parameters_called(module, placements, types, address, count) =~= pieces.drop_first());
    let class = class_of(sites_of(module, placements, all), place);
    let registration = registrations_of(module, placements)[place];
    assert(registration.class == class);
    assert(called_at(module, placements, types, address, 0) == pieces[0]);
    let inside = joined(pieces.drop_first(), ", "@);
    assert(or_dots(class) + "("@ + inside + ")"@ =~= or_dots(class) + ("("@ + inside + ")"@));
    let start = pieces[0] + " "@ + or_dots(site.name);
    assert(start + "("@ + inside + ")"@ =~= start + ("("@ + inside + ")"@));
}

/// Only a constructor's kind ends in that word.
proof fn lemma_constructor(kind: Seq<char>)
    ensures
        kind == "_embind_register_class_constructor"@ ==> ends_with(kind, "constructor"@),
        kind == "_embind_register_function"@ || kind == "_embind_register_class_function"@ || kind
            == "_embind_register_class_class_function"@ ==> !ends_with(kind, "constructor"@),
{
    reveal_strlit("constructor");
    reveal_strlit("_embind_register_class_constructor");
    reveal_strlit("_embind_register_function");
    reveal_strlit("_embind_register_class_function");
    reveal_strlit("_embind_register_class_class_function");
    let part = "constructor"@;
    assert(part.len() == 11);
    assert(part[0] == 'c');
    if kind == "_embind_register_class_constructor"@ {
        assert(kind.len() == 34);
        assert(kind[23] == 'c' && part[0] == 'c');
        assert(kind[24] == 'o' && part[1] == 'o');
        assert(kind[25] == 'n' && part[2] == 'n');
        assert(kind[26] == 's' && part[3] == 's');
        assert(kind[27] == 't' && part[4] == 't');
        assert(kind[28] == 'r' && part[5] == 'r');
        assert(kind[29] == 'u' && part[6] == 'u');
        assert(kind[30] == 'c' && part[7] == 'c');
        assert(kind[31] == 't' && part[8] == 't');
        assert(kind[32] == 'o' && part[9] == 'o');
        assert(kind[33] == 'r' && part[10] == 'r');
        assert forall|j: int| 0 <= j < part.len() implies kind[23 + j] == #[trigger] part[j] by {
            assert(j == 0 || j == 1 || j == 2 || j == 3 || j == 4 || j == 5 || j == 6 || j == 7 || j == 8 || j == 9 || j == 10);
        }
    }
    if kind == "_embind_register_class_constructor"@ {
        assert(kind.subrange(23, 34) =~= part);
    }
    if ends_with(kind, part) {
        assert(kind.subrange(kind.len() - 11, kind.len() as int)[0] == part[0]);
        assert(kind[kind.len() - 11 + 0] == part[0]);
    }
}

/// A class gives three types their names: itself, the pointer to it, and the pointer to
/// it when it is constant, unless a later registration speaks of the same id.
pub proof fn a_class_names_itself_and_its_pointers(sites: Seq<Site>, i: int, id: i32)
    requires
        0 <= i < sites.len(),
        sites[i].kind == "_embind_register_class"@,
        sites[i].name is Some,
        sites[i].arguments is Some,
        forall|j: int| i < j < sites.len() ==> !speaks_of(#[trigger] sites[j], id),
    ensures
        ({
            let ids = sites[i].arguments->0;
            let name = sites[i].name->0;
            &&& ids.len() > 2 && ids[2] == id ==> types_of(sites).contains_key(id)
                && types_of(sites)[id] == "const "@ + name + "*"@
            &&& ids.len() > 1 && ids[1] == id && (ids.len() > 2 ==> ids[2] != id) ==> types_of(
                sites,
            ).contains_key(id) && types_of(sites)[id] == name + "*"@
            &&& ids.len() > 0 && ids[0] == id && (ids.len() > 1 ==> ids[1] != id) && (ids.len() > 2
                ==> ids[2] != id) ==> types_of(sites).contains_key(id) && types_of(sites)[id]
                == name
        }),
    decreases sites.len(),
{
    let less = sites.drop_last();
    if i < less.len() {
        assert(less[i] == sites[i]);
        assert forall|j: int| i < j < less.len() implies !speaks_of(#[trigger] less[j], id) by {
            assert(less[j] == sites[j]);
        }
        a_class_names_itself_and_its_pointers(less, i, id);
        assert(!speaks_of(sites[sites.len() - 1], id));
    }
}

/// What defines a type: every kind of value, view, class and enumeration.
pub open spec fn a_type_kind(kind: Seq<char>) -> bool {
    ||| kind == "_embind_register_void"@
    ||| kind == "_embind_register_bool"@
    ||| kind == "_embind_register_integer"@
    ||| kind == "_embind_register_bigint"@
    ||| kind == "_embind_register_float"@
    ||| kind == "_embind_register_std_string"@
    ||| kind == "_embind_register_std_wstring"@
    ||| kind == "_embind_register_emval"@
    ||| kind == "_embind_register_memory_view"@
    ||| kind == "_embind_register_value_array"@
    ||| kind == "_embind_register_value_object"@
    ||| kind == "_embind_register_class"@
    ||| kind == "_embind_register_enum"@
}

/// A type that is no class has the name it was registered under in every signature,
/// whether that was before or after what uses it, unless a later registration has an
/// argument that is its id.
pub proof fn a_plain_type_is_named_by_its_registration(sites: Seq<Site>, i: int, id: i32)
    requires
        0 <= i < sites.len(),
        a_type_kind(sites[i].kind),
        sites[i].kind != "_embind_register_class"@,
        sites[i].name is Some,
        sites[i].arguments is Some,
        (sites[i].arguments->0).len() > 0,
        (sites[i].arguments->0)[0] == id,
        forall|j: int|
            i < j < sites.len() && (#[trigger] sites[j]).arguments is Some ==> !(
            sites[j].arguments->0).contains(id),
    ensures
        types_of(sites).contains_key(id),
        types_of(sites)[id] == sites[i].name->0,
{
    assert forall|j: int| i < j < sites.len() implies !speaks_of(#[trigger] sites[j], id) by {
        if speaks_of(sites[j], id) {
            let ids = sites[j].arguments->0;
            assert(ids.contains(id));
        }
    }
    a_type_is_named_wherever_it_is_registered(sites, i, id);
}

} // verus!
