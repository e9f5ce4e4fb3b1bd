//! What the module registers with embind.

use vstd::prelude::*;
use vstd::string::StringExecFns;
use std::collections::BTreeMap;
use crate::analysis::placement::{
    placed_name, shown, static_i32, static_text_from, static_word, Placement,
};
use crate::module::types::{Module, Op};
use crate::text::pieces::{
    begins_with, ends_with, join, joined, push_signed, same_text, signed_decimal, text_begins,
    text_ends, texts,
};

verus! {

/// Something the module registers with embind at startup.
///
/// embind is how a C++ module tells JavaScript what it exposes: classes, their
/// methods, free functions, enums. The registration happens at run time, but the
/// arguments are constants in the code, so it can be read without running
/// anything.
#[derive(Debug, Clone, PartialEq, Eq)]
pub struct Registration {
    /// Which `_embind_register_*` was called.
    pub kind: String,
    /// The name it registered, when the name is a constant that can be resolved.
    pub name: Option<String>,
    /// The C++ signature, where the registration carries one.
    ///
    /// embind passes the types as a pointer to an array of type ids, and each id is
    /// the address of a `std::type_info` that some other registration names.
    pub signature: Option<String>,
    /// For a method or a constructor, the class it belongs to.
    pub class: Option<String>,
}

/// A registration, as plain values.
pub struct RegistrationModel {
    /// Which `_embind_register_*` was called.
    pub kind: Seq<char>,
    /// The name it registered.
    pub name: Option<Seq<char>>,
    /// The C++ signature.
    pub signature: Option<Seq<char>>,
    /// The class it belongs to.
    pub class: Option<Seq<char>>,
}

impl View for Registration {
    type V = RegistrationModel;

    open spec fn view(&self) -> RegistrationModel {
        RegistrationModel {
            kind: self.kind@,
            name: shown(self.name),
            signature: shown(self.signature),
            class: shown(self.class),
        }
    }
}

/// Registrations, as plain values.
pub open spec fn registered(list: Seq<Registration>) -> Seq<RegistrationModel> {
    list.map_values(|registration: Registration| registration@)
}

/// Which argument of each `_embind_register_*` call carries the name. A
/// registration without one is still reported, just without a name.
pub open spec fn name_argument(kind: Seq<char>) -> Option<usize> {
    if kind == "_embind_register_void"@ {
        Some(1usize)
    } else if kind == "_embind_register_bool"@ {
        Some(1usize)
    } else if kind == "_embind_register_integer"@ {
        Some(1usize)
    } else if kind == "_embind_register_bigint"@ {
        Some(1usize)
    } else if kind == "_embind_register_float"@ {
        Some(1usize)
    } else if kind == "_embind_register_std_string"@ {
        Some(1usize)
    } else if kind == "_embind_register_std_wstring"@ {
        Some(2usize)
    } else if kind == "_embind_register_emval"@ {
        Some(1usize)
    } else if kind == "_embind_register_memory_view"@ {
        Some(2usize)
    } else if kind == "_embind_register_function"@ {
        Some(0usize)
    } else if kind == "_embind_register_value_array"@ {
        Some(1usize)
    } else if kind == "_embind_register_value_object"@ {
        Some(1usize)
    } else if kind == "_embind_register_class"@ {
        Some(10usize)
    } else if kind == "_embind_register_class_function"@ {
        Some(1usize)
    } else if kind == "_embind_register_class_property"@ {
        Some(1usize)
    } else if kind == "_embind_register_class_class_function"@ {
        Some(1usize)
    } else if kind == "_embind_register_enum"@ {
        Some(1usize)
    } else if kind == "_embind_register_enum_value"@ {
        Some(1usize)
    } else if kind == "_embind_register_constant"@ {
        Some(0usize)
    } else {
        None
    }
}

/// Which argument of an `_embind_register_*` call carries the name.
pub fn embind_name_argument(kind: &str) -> (at: Option<usize>)
    ensures
        at == name_argument(kind@),
{
    if same_text(kind, "_embind_register_void") {
        Some(1)
    } else if same_text(kind, "_embind_register_bool") {
        Some(1)
    } else if same_text(kind, "_embind_register_integer") {
        Some(1)
    } else if same_text(kind, "_embind_register_bigint") {
        Some(1)
    } else if same_text(kind, "_embind_register_float") {
        Some(1)
    } else if same_text(kind, "_embind_register_std_string") {
        Some(1)
    } else if same_text(kind, "_embind_register_std_wstring") {
        Some(2)
    } else if same_text(kind, "_embind_register_emval") {
        Some(1)
    } else if same_text(kind, "_embind_register_memory_view") {
        Some(2)
    } else if same_text(kind, "_embind_register_function") {
        Some(0)
    } else if same_text(kind, "_embind_register_value_array") {
        Some(1)
    } else if same_text(kind, "_embind_register_value_object") {
        Some(1)
    } else if same_text(kind, "_embind_register_class") {
        Some(10)
    } else if same_text(kind, "_embind_register_class_function") {
        Some(1)
    } else if same_text(kind, "_embind_register_class_property") {
        Some(1)
    } else if same_text(kind, "_embind_register_class_class_function") {
        Some(1)
    } else if same_text(kind, "_embind_register_enum") {
        Some(1)
    } else if same_text(kind, "_embind_register_enum_value") {
        Some(1)
    } else if same_text(kind, "_embind_register_constant") {
        Some(0)
    } else {
        None
    }
}

/// Whether a registration defines a type, whose id is then its first argument.
pub open spec fn defines_type(kind: Seq<char>) -> bool {
    ||| kind == "_embind_register_void"@
    ||| kind == "_embind_register_bool"@
    ||| kind == "_embind_register_integer"@
    ||| kind == "_embind_register_bigint"@
    ||| kind == "_embind_register_float"@
    ||| kind == "_embind_register_std_string"@
    ||| kind == "_embind_register_std_wstring"@
    ||| kind == "_embind_register_emval"@
    ||| kind == "_embind_register_memory_view"@
    ||| kind == "_embind_register_value_array"@
    ||| kind == "_embind_register_value_object"@
    ||| kind == "_embind_register_class"@
    ||| kind == "_embind_register_enum"@
}

fn is_type(kind: &str) -> (yes: bool)
    ensures
        yes == defines_type(kind@),
{
    same_text(kind, "_embind_register_void")
        || same_text(kind, "_embind_register_bool")
        || same_text(kind, "_embind_register_integer")
        || same_text(kind, "_embind_register_bigint")
        || same_text(kind, "_embind_register_float")
        || same_text(kind, "_embind_register_std_string")
        || same_text(kind, "_embind_register_std_wstring")
        || same_text(kind, "_embind_register_emval")
        || same_text(kind, "_embind_register_memory_view")
        || same_text(kind, "_embind_register_value_array")
        || same_text(kind, "_embind_register_value_object")
        || same_text(kind, "_embind_register_class")
        || same_text(kind, "_embind_register_enum")
}

/// Which arguments hold the count of a registration's type ids and the pointer to
/// them, for the registrations that carry a signature.
pub open spec fn types_argument(kind: Seq<char>) -> Option<(usize, usize)> {
    if kind == "_embind_register_function"@ {
        Some((1usize, 2usize))
    } else if kind == "_embind_register_class_function"@ {
        Some((2usize, 3usize))
    } else if kind == "_embind_register_class_class_function"@ {
        Some((2usize, 3usize))
    } else if kind == "_embind_register_class_constructor"@ {
        Some((1usize, 2usize))
    } else {
        None
    }
}

fn embind_types_argument(kind: &str) -> (at: Option<(usize, usize)>)
    ensures
        at == types_argument(kind@),
{
    if same_text(kind, "_embind_register_function") {
        Some((1, 2))
    } else if same_text(kind, "_embind_register_class_function") {
        Some((2, 3))
    } else if same_text(kind, "_embind_register_class_class_function") {
        Some((2, 3))
    } else if same_text(kind, "_embind_register_class_constructor") {
        Some((1, 2))
    } else {
        None
    }
}

// ---- the calls ----

/// A call that registers something.
pub struct Site {
    /// What was called.
    pub kind: Seq<char>,
    /// The name it registers.
    pub name: Option<Seq<char>>,
    /// Its arguments, where all of them are known.
    pub arguments: Option<Seq<i32>>,
}

/// The arguments of a call, if all of them are constants immediately before it.
pub open spec fn constants_before(body: Seq<Op>, at: int, arity: nat) -> Option<Seq<i32>> {
    if arity <= at && forall|i: int| at - arity <= i < at ==> #[trigger] body[i] is I32Const {
        Some(Seq::new(arity, |i: int| body[at - arity + i]->I32Const_0))
    } else {
        None
    }
}

/// How many arguments a function takes.
pub open spec fn arity_of(module: &Module, callee: u32) -> nat {
    match module.signature(callee) {
        Some(signature) => signature.params@.len(),
        None => 0,
    }
}

/// The registration an instruction makes.
pub open spec fn site_at(
    module: &Module,
    placements: Map<u32, Placement>,
    body: Seq<Op>,
    at: int,
) -> Option<Site> {
    if body[at] is Call && body[at]->Call_0 < module.func_imports@.len() && begins_with(
        module.func_imports@[body[at]->Call_0 as int].field@,
        "_embind_register"@,
    ) {
        let callee = body[at]->Call_0;
        let kind = module.func_imports@[callee as int].field@;
        let arguments = constants_before(body, at, arity_of(module, callee));
        let name = match (name_argument(kind), arguments) {
            (Some(place), Some(values)) => if place < values.len() {
                static_text_from(module, placements, values[place as int], None, 1, 0)
            } else {
                None
            },
            _ => None,
        };
        Some(Site { kind, name, arguments })
    } else {
        None
    }
}

/// The registrations that the first `n` instructions of a body make.
pub open spec fn sites_in(
    module: &Module,
    placements: Map<u32, Placement>,
    body: Seq<Op>,
    n: int,
) -> Seq<Site>
    decreases n,
{
    if n <= 0 {
        Seq::empty()
    } else {
        let before = sites_in(module, placements, body, n - 1);
        match site_at(module, placements, body, n - 1) {
            Some(site) => before.push(site),
            None => before,
        }
    }
}

/// The registrations that the first `n` functions make.
pub open spec fn sites_of(module: &Module, placements: Map<u32, Placement>, n: int) -> Seq<Site>
    decreases n,
{
    if n <= 0 {
        Seq::empty()
    } else {
        let body = module.funcs@[n - 1].body@;
        sites_of(module, placements, n - 1) + sites_in(
            module,
            placements,
            body,
            body.len() as int,
        )
    }
}

// ---- the types ----

/// The names of types, with the ones that a registration defines. A class
/// registers three ids for itself: the class, a pointer to it, and a const pointer.
pub open spec fn types_with(types: Map<i32, Seq<char>>, site: Site) -> Map<i32, Seq<char>> {
    if !defines_type(site.kind) || site.name is None || site.arguments is None {
        types
    } else {
        let name = site.name->0;
        let ids = site.arguments->0;
        let own = if ids.len() > 0 {
            types.insert(ids[0], name)
        } else {
            types
        };
        if site.kind != "_embind_register_class"@ {
            own
        } else {
            let pointer = if ids.len() > 1 {
                own.insert(ids[1], name + "*"@)
            } else {
                own
            };
            if ids.len() > 2 {
                pointer.insert(ids[2], "const "@ + name + "*"@)
            } else {
                pointer
            }
        }
    }
}

/// The names of the types that registrations define.
pub open spec fn types_of(sites: Seq<Site>) -> Map<i32, Seq<char>>
    decreases sites.len(),
{
    if sites.len() == 0 {
        Map::empty()
    } else {
        types_with(types_of(sites.drop_last()), sites.last())
    }
}

/// The class that was registered last.
pub open spec fn last_class(sites: Seq<Site>) -> Option<Seq<char>>
    decreases sites.len(),
{
    if sites.len() == 0 {
        None
    } else if sites.last().kind == "_embind_register_class"@ {
        sites.last().name
    } else {
        last_class(sites.drop_last())
    }
}

/// The class the `i`th registration belongs to: a method belongs to the class
/// registered before it.
pub open spec fn class_of(sites: Seq<Site>, i: int) -> Option<Seq<char>> {
    let kind = sites[i].kind;
    if kind != "_embind_register_class"@ && begins_with(kind, "_embind_register_class"@) {
        last_class(sites.take(i))
    } else {
        None
    }
}

/// What a type is called: by its name, or else by its id.
pub open spec fn type_called(types: Map<i32, Seq<char>>, id: Option<i32>) -> Seq<char> {
    match id {
        Some(id) => if types.contains_key(id) {
            types[id]
        } else {
            "type@"@ + signed_decimal(id as int)
        },
        None => "?"@,
    }
}

/// A text, or three dots for one that is not known.
pub open spec fn or_dots(text: Option<Seq<char>>) -> Seq<char> {
    match text {
        Some(text) => text,
        None => "\u{2026}"@,
    }
}

/// What the `at`th type of a signature is called, whose ids are at an address.
pub open spec fn called_at(
    module: &Module,
    placements: Map<u32, Placement>,
    types: Map<i32, Seq<char>>,
    address: i32,
    at: int,
) -> Seq<char> {
    type_called(types, static_word(module, placements, address.wrapping_add((4 * at) as i32), 0))
}

/// What the parameters of a signature are called: all its types but the first,
/// which is what it returns.
pub open spec fn parameters_called(
    module: &Module,
    placements: Map<u32, Placement>,
    types: Map<i32, Seq<char>>,
    address: i32,
    count: i32,
) -> Seq<Seq<char>> {
    Seq::new(
        (count - 1) as nat,
        |i: int| called_at(module, placements, types, address, i + 1),
    )
}

/// The signature of a registration. A constructor is named after its class and
/// returns it.
pub open spec fn signature_of(
    module: &Module,
    placements: Map<u32, Placement>,
    types: Map<i32, Seq<char>>,
    site: Site,
    class: Option<Seq<char>>,
) -> Option<Seq<char>> {
    match (types_argument(site.kind), site.arguments) {
        (Some((count_at, types_at)), Some(values)) => if count_at < values.len() && types_at
            < values.len() && 0 < values[count_at as int] < 64 {
            let count = values[count_at as int];
            let address = values[types_at as int];
            let parameters = joined(
                parameters_called(module, placements, types, address, count),
                ", "@,
            );
            Some(
                if ends_with(site.kind, "constructor"@) {
                    or_dots(class) + "("@ + parameters + ")"@
                } else {
                    called_at(module, placements, types, address, 0) + " "@ + or_dots(site.name)
                        + "("@ + parameters + ")"@
                },
            )
        } else {
            None
        },
        _ => None,
    }
}

/// The `i`th registration, once every type is known.
pub open spec fn registration_at(
    module: &Module,
    placements: Map<u32, Placement>,
    sites: Seq<Site>,
    i: int,
) -> RegistrationModel {
    RegistrationModel {
        kind: sites[i].kind,
        name: sites[i].name,
        signature: signature_of(
            module,
            placements,
            types_of(sites),
            sites[i],
            class_of(sites, i),
        ),
        class: class_of(sites, i),
    }
}

/// What the module registers, in the order it registers it. Which types are named
/// does not depend on that order.
pub open spec fn registrations_of(module: &Module, placements: Map<u32, Placement>) -> Seq<
    RegistrationModel,
> {
    let sites = sites_of(module, placements, module.funcs@.len() as int);
    Seq::new(sites.len(), |i: int| registration_at(module, placements, sites, i))
}

// ---- reading them ----

/// A call that was found.
struct Found {
    kind: String,
    name: Option<String>,
    arguments: Option<Vec<i32>>,
}

spec fn site_of(found: Found) -> Site {
    Site {
        kind: found.kind@,
        name: shown(found.name),
        arguments: match found.arguments {
            Some(values) => Some(values@),
            None => None,
        },
    }
}

spec fn sites(list: Seq<Found>) -> Seq<Site> {
    list.map_values(|found: Found| site_of(found))
}

/// Reads the arguments of a call.
fn read_arguments(body: &Vec<Op>, at: usize, arity: usize) -> (arguments: Option<Vec<i32>>)
    requires
        at < body@.len(),
    ensures
        match arguments {
            Some(values) => constants_before(body@, at as int, arity as nat) == Some(values@),
            None => constants_before(body@, at as int, arity as nat) is None,
        },
{
    if arity > at {
        return None;
    }
    let first: usize = at - arity;
    let mut values: Vec<i32> = Vec::new();
    let mut i: usize = first;
    while i < at
        invariant
            first <= i <= at < body@.len(),
            values@.len() == i - first,
            first == at - arity,
            forall|j: int|
                first <= j < i ==> #[trigger] body@[j] is I32Const && values@[j - first]
                    == body@[j]->I32Const_0,
        decreases at - i,
    {
        match &body[i] {
            Op::I32Const(value) => values.push(*value),
            _ => {
                assert(!(body@[i as int] is I32Const));
                return None;
            },
        }
        i = i + 1;
    }
    proof {
        let whole = Seq::new(arity as nat, |i: int| body@[at - arity + i]->I32Const_0);
        assert forall|k: int| 0 <= k < arity implies values@[k] == whole[k] by {
            assert(body@[first + k] is I32Const);
        }
        assert(values@ =~= whole);
    }
    Some(values)
}

/// Reads the registration an instruction makes.
fn read_site(
    module: &Module,
    placements: &BTreeMap<u32, Placement>,
    body: &Vec<Op>,
    at: usize,
) -> (found: Option<Found>)
    requires
        at < body@.len(),
    ensures
        match found {
            Some(found) => site_at(module, placements@, body@, at as int) == Some(site_of(found)),
            None => site_at(module, placements@, body@, at as int) is None,
        },
{
    let callee: u32 = match &body[at] {
        Op::Call(callee) => *callee,
        _ => {
            return None;
        },
    };
    if callee as usize >= module.func_imports.len() {
        return None;
    }
    let kind: &String = &module.func_imports[callee as usize].field;
    if !text_begins(kind.as_str(), "_embind_register") {
        return None;
    }
    let arity: usize = match module.func_type(callee) {
        Some(signature) => signature.params.len(),
        None => 0,
    };
    let arguments: Option<Vec<i32>> = read_arguments(body, at, arity);
    let name: Option<String> = match (embind_name_argument(kind.as_str()), &arguments) {
        (Some(place), Some(values)) => if place < values.len() {
            placed_name(module, placements, values[place])
        } else {
            None
        },
        _ => None,
    };
    Some(Found { kind: kind.clone(), name, arguments })
}

/// Finds every call that registers something.
fn find_sites(module: &Module, placements: &BTreeMap<u32, Placement>) -> (list: Vec<Found>)
    ensures
        sites(list@) == sites_of(module, placements@, module.funcs@.len() as int),
{
    let mut list: Vec<Found> = Vec::new();
    let mut f: usize = 0;
    assert(sites(list@) =~= Seq::empty());
    while f < module.funcs.len()
        invariant
            f <= module.funcs@.len(),
            sites(list@) == sites_of(module, placements@, f as int),
        decreases module.funcs@.len() - f,
    {
        let body: &Vec<Op> = &module.funcs[f].body;
        let ghost before = sites(list@);
        let mut at: usize = 0;
        assert(before + Seq::<Site>::empty() =~= before);
        while at < body.len()
            invariant
                at <= body@.len(),
                sites(list@) == before + sites_in(module, placements@, body@, at as int),
            decreases body@.len() - at,
        {
            let ghost had = sites(list@);
            match read_site(module, placements, body, at) {
                Some(found) => {
                    list.push(found);
                    assert(sites(list@) =~= had.push(site_of(found)));
                },
                None => {},
            }
            at = at + 1;
            assert(sites(list@) =~= before + sites_in(module, placements@, body@, at as int));
        }
        f = f + 1;
    }
    list
}

/// Names of types, as plain values.
spec fn type_texts(types: Map<i32, String>) -> Map<i32, Seq<char>> {
    types.map_values(|name: String| name@)
}

/// Puts a name under an id.
fn name_type(types: &mut BTreeMap<i32, String>, id: i32, name: String)
    ensures
        type_texts(final(types)@) == type_texts(old(types)@).insert(id, name@),
{
    types.insert(id, name);
    assert(type_texts(types@) =~= type_texts(old(types)@).insert(id, name@));
}

/// Collects the names of the types that registrations define.
fn read_types(list: &Vec<Found>) -> (types: BTreeMap<i32, String>)
    ensures
        type_texts(types@) == types_of(sites(list@)),
{
    let mut types: BTreeMap<i32, String> = BTreeMap::new();
    let ghost all = sites(list@);
    let mut i: usize = 0;
    assert(all.take(0) =~= Seq::empty());
    assert(type_texts(types@) =~= Map::empty());
    while i < list.len()
        invariant
            i <= list@.len(),
            all == sites(list@),
            type_texts(types@) == types_of(all.take(i as int)),
        decreases list@.len() - i,
    {
        let found: &Found = &list[i];
        proof {
            assert(all.take(i + 1).drop_last() =~= all.take(i as int));
            assert(all.take(i + 1).last() == site_of(*found));
        }
        if is_type(found.kind.as_str()) {
            match (&found.arguments, &found.name) {
                (Some(ids), Some(name)) => {
                    if ids.len() > 0 {
                        name_type(&mut types, ids[0], name.clone());
                    }
                    if same_text(found.kind.as_str(), "_embind_register_class") {
                        if ids.len() > 1 {
                            let mut pointer: String = name.clone();
                            pointer.append("*");
                            name_type(&mut types, ids[1], pointer);
                        }
                        if ids.len() > 2 {
                            let mut pointer: String = "const ".to_owned();
                            pointer.append(name.as_str());
                            pointer.append("*");
                            name_type(&mut types, ids[2], pointer);
                        }
                    }
                },
                _ => {},
            }
        }
        i = i + 1;
    }
    assert(all.take(i as int) =~= all);
    types
}

/// What a type is called.
fn call_type(types: &BTreeMap<i32, String>, id: Option<i32>) -> (name: String)
    ensures
        name@ == type_called(type_texts(types@), id),
{
    match id {
        Some(id) => match types.get(&id) {
            Some(name) => name.clone(),
            None => {
                let mut name: String = "type@".to_owned();
                push_signed(&mut name, id as i64);
                name
            },
        },
        None => "?".to_owned(),
    }
}

/// A text, or three dots for one that is not known.
fn dots_for(text: &Option<String>) -> (out: String)
    ensures
        out@ == or_dots(shown(*text)),
{
    match text {
        Some(text) => text.clone(),
        None => "\u{2026}".to_owned(),
    }
}

/// A copy of a text that may not be there.
fn copy_text(text: &Option<String>) -> (copy: Option<String>)
    ensures
        shown(copy) == shown(*text),
{
    match text {
        Some(text) => Some(text.clone()),
        None => None,
    }
}

/// Writes the signature of a registration.
fn read_signature(
    module: &Module,
    placements: &BTreeMap<u32, Placement>,
    types: &BTreeMap<i32, String>,
    found: &Found,
    class: &Option<String>,
) -> (signature: Option<String>)
    ensures
        shown(signature) == signature_of(
            module,
            placements@,
            type_texts(types@),
            site_of(*found),
            shown(*class),
        ),
{
    let (count_at, types_at): (usize, usize) = match embind_types_argument(found.kind.as_str()) {
        Some(places) => places,
        None => {
            return None;
        },
    };
    let (count, address): (i32, i32) = match &found.arguments {
        Some(values) => if count_at < values.len() && types_at < values.len() {
            (values[count_at], values[types_at])
        } else {
            return None;
        },
        None => {
            return None;
        },
    };
    if count <= 0 || count >= 64 {
        return None;
    }
    let mut parameters: Vec<String> = Vec::new();
    let ghost whole = parameters_called(module, placements@, type_texts(types@), address, count);
    let mut at: i32 = 1;
    while at < count
        invariant
            1 <= at <= count < 64,
            whole == parameters_called(module, placements@, type_texts(types@), address, count),
            texts(parameters@) == whole.take(at - 1),
        decreases count - at,
    {
        let ghost before = texts(parameters@);
        let id: Option<i32> = static_i32(module, placements, address.wrapping_add(4 * at));
        parameters.push(call_type(types, id));
        proof {
            assert(texts(parameters@) =~= before.push(whole[at - 1]));
            assert(texts(parameters@) =~= whole.take(at as int));
        }
        at = at + 1;
    }
    assert(whole.take(at - 1) =~= whole);
    let listed: String = join(&parameters, ", ");
    let mut text: String = String::new();
    if text_ends(found.kind.as_str(), "constructor") {
        text.append(dots_for(class).as_str());
    } else {
        let first: Option<i32> = static_i32(module, placements, address.wrapping_add(4 * 0));
        text.append(call_type(types, first).as_str());
        text.append(" ");
        text.append(dots_for(&found.name).as_str());
    }
    text.append("(");
    text.append(listed.as_str());
    text.append(")");
    assert(text@ =~= signature_of(
        module,
        placements@,
        type_texts(types@),
        site_of(*found),
        shown(*class),
    )->0);
    Some(text)
}

/// Reads what the module registers with embind.
///
/// The arguments are taken only when every one of them is a constant sitting
/// immediately before the call: a registration assembled at run time is reported
/// without a name rather than with a guess at one. The types are read in a pass of
/// their own, because a type can be registered after the function that takes it.
pub fn find_registrations(module: &Module, placements: &BTreeMap<u32, Placement>) -> (list: Vec<
    Registration,
>)
    ensures
        registered(list@) == registrations_of(module, placements@),
{
    let found: Vec<Found> = find_sites(module, placements);
    let types: BTreeMap<i32, String> = read_types(&found);
    let ghost all = sites(found@);
    let ghost whole = registrations_of(module, placements@);
    let mut list: Vec<Registration> = Vec::new();
    let mut class: Option<String> = None;
    let mut i: usize = 0;
    assert(all.take(0) =~= Seq::empty());
    assert(registered(list@) =~= whole.take(0));
    while i < found.len()
        invariant
            i <= found@.len(),
            all == sites(found@),
            all == sites_of(module, placements@, module.funcs@.len() as int),
            whole == registrations_of(module, placements@),
            type_texts(types@) == types_of(all),
            shown(class) == last_class(all.take(i as int)),
            registered(list@) == whole.take(i as int),
        decreases found@.len() - i,
    {
        let site: &Found = &found[i];
        proof {
            assert(all.take(i + 1).drop_last() =~= all.take(i as int));
            assert(all.take(i + 1).last() == site_of(*site));
            assert(all[i as int] == site_of(*site));
        }
        let mut of: Option<String> = None;
        if same_text(site.kind.as_str(), "_embind_register_class") {
            class = copy_text(&site.name);
        } else if text_begins(site.kind.as_str(), "_embind_register_class") {
            of = copy_text(&class);
        }
        let signature: Option<String> = read_signature(module, placements, &types, site, &of);
        let ghost before = registered(list@);
        let registration: Registration = Registration {
            kind: site.kind.clone(),
            name: copy_text(&site.name),
            signature,
            class: of,
        };
        assert(registration@ == whole[i as int]);
        list.push(registration);
        i = i + 1;
        proof {
            assert(registered(list@) =~= before.push(whole[i - 1]));
            assert(registered(list@) =~= whole.take(i as int));
        }
    }
    assert(whole.take(i as int) =~= whole);
    list
}

} // verus!
