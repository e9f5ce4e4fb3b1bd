//! What holds of every class that is recovered.

use vstd::prelude::*;
use crate::analysis::classes::{
    are_classes, base_at, class_at, confirmed, is_class, kind_count, listed, named_base, pair_at,
    pairs_from, pairs_of, vtable_at, vtable_from, vtable_of, Class, Pair,
};
use crate::analysis::demangle::{demangled, mangled_type};
use crate::analysis::image::{
    image_bytes, image_text, image_word, lemma_address_round_trip, slots_from, PlacedModel,
};

verus! {

// ---- candidates ----

/// Whether two words at an address are a candidate: the first is not zero, and the second
/// points at a text with the shape of a type's name.
pub open spec fn candidate(image: Seq<PlacedModel>, at: u32, kind: i32, mangled: Seq<char>) -> bool {
    &&& image_word(image, at) == Some(kind)
    &&& kind != 0
    &&& exists|pointer: i32|
        image_word(image, at.wrapping_add(4)) == Some(pointer) && #[trigger] image_text(
            image,
            pointer,
            false,
        ) == Some(mangled)
    &&& mangled_type(mangled)
}

proof fn lemma_pair(image: Seq<PlacedModel>, at: u32)
    ensures
        match pair_at(image, at) {
            Some(pair) => candidate(image, at, pair.kind, pair.mangled) && pair.at as u32 == at,
            None => forall|kind: i32, mangled: Seq<char>|
                !#[trigger] candidate(image, at, kind, mangled),
        },
{
    lemma_address_round_trip(at);
    match pair_at(image, at) {
        Some(pair) => {
            let pointer = image_word(image, at.wrapping_add(4))->0;
            assert(image_text(image, pointer, false) == Some(pair.mangled));
        },
        None => {},
    }
}

/// Whether an address is one of those that are looked at in a segment: a multiple of four
/// with two words of the segment from it on.
pub open spec fn looked_at(image: Seq<PlacedModel>, i: int, at: u32) -> bool {
    &&& 0 <= i < image.len()
    &&& at % 4 == 0
    &&& image[i].base <= at
    &&& at + 8 <= image[i].base + image[i].bytes.len()
}

proof fn lemma_pairs_from(image: Seq<PlacedModel>, at: int, end: int)
    requires
        0 <= at,
        at % 4 == 0,
    ensures
        forall|k: int|
            0 <= k < pairs_from(image, at, end).len() ==> {
                let pair = #[trigger] pairs_from(image, at, end)[k];
                &&& pair_at(image, pair.at as u32) == Some(pair)
                &&& (pair.at as u32) % 4 == 0
            },
        forall|place: u32|
            at <= place && place % 4 == 0 && place + 8 <= end && (#[trigger] pair_at(
                image,
                place,
            )) is Some ==> pairs_from(image, at, end).contains(pair_at(image, place)->0),
    decreases u32::MAX + 4 - at,
{
    let out = pairs_from(image, at, end);
    if at <= u32::MAX && at + 8 <= end {
        lemma_pairs_from(image, at + 4, end);
        lemma_pair(image, at as u32);
        let rest = pairs_from(image, at + 4, end);
        let here = pair_at(image, at as u32);
        match here {
            Some(pair) => {
                assert(out == seq![pair] + rest);
                assert(out[0] == pair);
                assert(forall|k: int| 0 <= k < rest.len() ==> out[k + 1] == #[trigger] rest[k]);
                assert forall|k: int| 0 <= k < out.len() implies {
                    let pair = #[trigger] out[k];
                    &&& pair_at(image, pair.at as u32) == Some(pair)
                    &&& (pair.at as u32) % 4 == 0
                } by {
                    if k > 0 {
                        assert(out[k] == rest[k - 1]);
                    }
                }
            },
            None => {
                assert(out == rest);
            },
        }
        assert forall|place: u32|
            at <= place && place % 4 == 0 && place + 8 <= end && (#[trigger] pair_at(
                image,
                place,
            )) is Some implies out.contains(pair_at(image, place)->0) by {
            if place as int != at {
                assert(at + 4 <= place);
                let wanted = pair_at(image, place)->0;
                assert(rest.contains(wanted));
                let k = choose|k: int| 0 <= k < rest.len() && rest[k] == wanted;
                if here is Some {
                    assert(out[k + 1] == wanted);
                }
            }
        }
    }
}

proof fn lemma_first_word(base: u32)
    ensures
        crate::analysis::classes::first_word(base) % 4 == 0,
        base <= crate::analysis::classes::first_word(base) < base + 4,
{
}

proof fn lemma_pairs_of(image: Seq<PlacedModel>, i: int)
    requires
        0 <= i <= image.len(),
    ensures
        forall|k: int|
            0 <= k < pairs_of(image, i).len() ==> {
                let pair = #[trigger] pairs_of(image, i)[k];
                &&& pair_at(image, pair.at as u32) == Some(pair)
                &&& (pair.at as u32) % 4 == 0
            },
        forall|j: int, place: u32|
            i <= j && #[trigger] looked_at(image, j, place) && pair_at(image, place) is Some
                ==> pairs_of(image, i).contains(pair_at(image, place)->0),
    decreases image.len() - i,
{
    if i < image.len() {
        let start = crate::analysis::classes::first_word(image[i].base);
        let end = image[i].base + image[i].bytes.len();
        let here = pairs_from(image, start, end);
        let rest = pairs_of(image, i + 1);
        let out = pairs_of(image, i);
        lemma_first_word(image[i].base);
        lemma_pairs_from(image, start, end);
        lemma_pairs_of(image, i + 1);
        assert(out == here + rest);
        assert forall|k: int| 0 <= k < out.len() implies {
            let pair = #[trigger] out[k];
            &&& pair_at(image, pair.at as u32) == Some(pair)
            &&& (pair.at as u32) % 4 == 0
        } by {
            if k < here.len() {
                assert(out[k] == here[k]);
            } else {
                assert(out[k] == rest[k - here.len()]);
            }
        }
        assert forall|j: int, place: u32|
            i <= j && #[trigger] looked_at(image, j, place) && pair_at(image, place)
                is Some implies out.contains(pair_at(image, place)->0) by {
            let wanted = pair_at(image, place)->0;
            if j == i {
                assert(start <= place);
                assert(here.contains(wanted));
                let k = choose|k: int| 0 <= k < here.len() && here[k] == wanted;
                assert(out[k] == wanted);
            } else {
                assert(rest.contains(wanted));
                let k = choose|k: int| 0 <= k < rest.len() && rest[k] == wanted;
                assert(out[here.len() + k] == wanted);
            }
        }
    }
}

/// The candidates are all the places in the data where one stands: aligned, and with both
/// words inside their segment.
pub proof fn every_candidate_is_looked_at(image: Seq<PlacedModel>, i: int, at: u32)
    requires
        looked_at(image, i, at),
    ensures
        listed(pairs_of(image, 0), at as i32) == exists|kind: i32, mangled: Seq<char>| #[trigger]
            candidate(image, at, kind, mangled),
{
    let pairs = pairs_of(image, 0);
    lemma_pairs_of(image, 0);
    lemma_pair(image, at);
    lemma_address_round_trip(at);
    if pair_at(image, at) is Some {
        let pair = pair_at(image, at)->0;
        assert(candidate(image, at, pair.kind, pair.mangled));
        assert(pairs.contains(pair));
        let k = choose|k: int| 0 <= k < pairs.len() && pairs[k] == pair;
        assert(pairs[k].at == at as i32) by {
            lemma_signed(pair.at, at as i32);
        }
    }
    if listed(pairs, at as i32) {
        let k = choose|k: int| 0 <= k < pairs.len() && (#[trigger] pairs[k]).at == at as i32;
        assert(pair_at(image, pairs[k].at as u32) == Some(pairs[k]));
    }
}

proof fn lemma_signed(a: i32, b: i32)
    by (bit_vector)
    requires
        a as u32 == b as u32,
    ensures
        a == b,
{
}

/// As many candidates have a kind as are counted.
proof fn lemma_kind_count(pairs: Seq<Pair>, kind: i32)
    ensures
        kind_count(pairs, kind) == pairs.filter(|pair: Pair| pair.kind == kind).len(),
    decreases pairs.len(),
{
    reveal(Seq::filter);
    if pairs.len() > 0 {
        lemma_kind_count(pairs.drop_last(), kind);
    }
}

// ---- classes ----

/// Every class that is reported stands in the data as a `type_info` does: a pointer to
/// what its kind of `type_info` shares, a pointer to its name, and, where it has a base, a
/// pointer to that. Either three candidates at least share the first pointer, or another
/// class names this one as its base.
pub proof fn a_class_is_what_its_type_info_says(
    list: Seq<Class>,
    image: Seq<PlacedModel>,
    table: Map<u32, u32>,
    i: int,
)
    requires
        are_classes(list, image, table, pairs_of(image, 0)),
        0 <= i < list.len(),
    ensures
        ({
            let class = list[i];
            let at = class.type_info as u32;
            &&& at % 4 == 0
            &&& exists|kind: i32| #[trigger]
                candidate(image, at, kind, class.mangled@) && (pairs_of(image, 0).filter(
                    |pair: Pair| pair.kind == kind,
                ).len() >= 3 || exists|j: int|
                    0 <= j < list.len() && (#[trigger] list[j]).base == Some(class.type_info))
            &&& (class.name@, class.short@) == demangled(class.mangled@)
            &&& class.base is Some ==> image_word(image, at.wrapping_add(8)) == class.base
        }),
{
    let pairs = pairs_of(image, 0);
    let class = list[i];
    let at = class.type_info;
    lemma_pairs_of(image, 0);
    assert(class@ == class_at(image, table, pairs, at));
    assert(list[i].type_info == at);
    assert(is_class(image, pairs, at));
    if !confirmed(image, pairs, at) {
        let derived = choose|derived: i32| #[trigger] base_at(image, pairs, derived) == Some(at);
        assert(named_base(image, pairs, derived) == Some(at));
        assert(listed(pairs, at));
        assert(is_class(image, pairs, derived));
        let j = choose|j: int| 0 <= j < list.len() && (#[trigger] list[j]).type_info == derived;
        assert(list[j]@ == class_at(image, table, pairs, derived));
        assert(list[j]@.base == Some(at));
        assert(list[j].base == Some(class.type_info));
    }
    assert(listed(pairs, at));
    let k = choose|k: int| 0 <= k < pairs.len() && (#[trigger] pairs[k]).at == at;
    let pair = pairs[k];
    assert(pair_at(image, at as u32) == Some(pair));
    lemma_pair(image, at as u32);
    lemma_kind_count(pairs, pair.kind);
    assert(class@.mangled == pair.mangled);
    assert(candidate(image, at as u32, pair.kind, class.mangled@));
}

/// A candidate is a class where three at least share its first pointer, and that points at
/// data.
pub proof fn enough_candidates_make_a_class(
    list: Seq<Class>,
    image: Seq<PlacedModel>,
    table: Map<u32, u32>,
    i: int,
    at: u32,
    kind: i32,
    mangled: Seq<char>,
)
    requires
        are_classes(list, image, table, pairs_of(image, 0)),
        looked_at(image, i, at),
        candidate(image, at, kind, mangled),
        pairs_of(image, 0).filter(|pair: Pair| pair.kind == kind).len() >= 3,
        image_bytes(image, kind as u32, 1) is Some,
        image_bytes(image, (kind as u32).wrapping_add(4), 1) is Some,
    ensures
        exists|j: int|
            0 <= j < list.len() && (#[trigger] list[j]).type_info == at as i32 && list[j].mangled@
                == mangled,
{
    let pairs = pairs_of(image, 0);
    every_candidate_is_looked_at(image, i, at);
    lemma_pair(image, at);
    lemma_address_round_trip(at);
    lemma_kind_count(pairs, kind);
    assert(listed(pairs, at as i32));
    assert(confirmed(image, pairs, at as i32));
    assert(is_class(image, pairs, at as i32));
    let j = choose|j: int| 0 <= j < list.len() && (#[trigger] list[j]).type_info == at as i32;
    assert(list[j]@ == class_at(image, table, pairs, at as i32));
    assert(list[j]@.mangled == mangled);
}

// ---- vtables ----

/// Whether a vtable of a class stands at an address: a zero, the address of the class's
/// `type_info`, and slots of which one at least is a function.
#[verifier::opaque]
pub open spec fn vtable_stands(
    image: Seq<PlacedModel>,
    table: Map<u32, u32>,
    at: u32,
    info: i32,
) -> bool {
    &&& image_word(image, at) == Some(0i32)
    &&& image_word(image, at.wrapping_add(4)) == Some(info)
    &&& exists|k: int|
        0 <= k < slots_from(image, table, at.wrapping_add(8) as int).len() && #[trigger] slots_from(
            image,
            table,
            at.wrapping_add(8) as int,
        )[k] is Some
}

proof fn lemma_vtable_from(
    image: Seq<PlacedModel>,
    table: Map<u32, u32>,
    info: i32,
    at: int,
    end: int,
)
    requires
        0 <= at,
        at % 4 == 0,
    ensures
        match vtable_from(image, table, info, at, end) {
            Some((found, slots)) => {
                &&& at <= found as u32
                &&& (found as u32) % 4 == 0
                &&& found as u32 + 8 <= end
                &&& vtable_stands(image, table, found as u32, info)
                &&& slots == slots_from(image, table, (found as u32).wrapping_add(8) as int)
                &&& forall|place: u32|
                    at <= place < found as u32 && place % 4 == 0 ==> !#[trigger] vtable_stands(
                        image,
                        table,
                        place,
                        info,
                    )
            },
            None => forall|place: u32|
                at <= place && place % 4 == 0 && place + 8 <= end ==> !#[trigger] vtable_stands(
                    image,
                    table,
                    place,
                    info,
                ),
        },
    decreases u32::MAX + 4 - at,
{
    reveal(vtable_stands);
    if at <= u32::MAX && at + 8 <= end {
        lemma_address_round_trip(at as u32);
        if vtable_at(image, table, at as u32, info) is None {
            lemma_vtable_from(image, table, info, at + 4, end);
        }
    }
}

/// A class has the vtable that stands first, by segment and then by address, and the
/// functions in its slots; where none stands it has none.
pub proof fn a_class_has_its_first_vtable(
    image: Seq<PlacedModel>,
    table: Map<u32, u32>,
    info: i32,
    from: int,
)
    requires
        0 <= from <= image.len(),
    ensures
        match vtable_of(image, table, info, from) {
            Some((found, slots)) => exists|i: int|
                from <= i && #[trigger] looked_at(image, i, found as u32) && vtable_stands(
                    image,
                    table,
                    found as u32,
                    info,
                ) && slots == slots_from(image, table, (found as u32).wrapping_add(8) as int)
                    && forall|j: int, place: u32|
                    from <= j && #[trigger] looked_at(image, j, place) && (j < i || j == i && place
                        < found as u32) ==> !vtable_stands(image, table, place, info),
            None => forall|j: int, place: u32|
                from <= j && #[trigger] looked_at(image, j, place) ==> !vtable_stands(
                    image,
                    table,
                    place,
                    info,
                ),
        },
    decreases image.len() - from,
{
    if from < image.len() {
        let start = crate::analysis::classes::first_word(image[from].base);
        let end = image[from].base + image[from].bytes.len();
        lemma_first_word(image[from].base);
        lemma_vtable_from(image, table, info, start, end);
        assert forall|place: u32| #[trigger] looked_at(image, from, place) implies start <= place
            && place % 4 == 0 && place + 8 <= end by {}
        match vtable_from(image, table, info, start, end) {
            Some((found, slots)) => {
                assert(looked_at(image, from, found as u32));
                assert forall|j: int, place: u32|
                    from <= j && #[trigger] looked_at(image, j, place) && (j < from || j == from
                        && place < found as u32) implies !vtable_stands(
                    image,
                    table,
                    place,
                    info,
                ) by {
                    assert(start <= place);
                }
            },
            None => {
                assert forall|place: u32| #[trigger] looked_at(image, from, place) implies
                    !vtable_stands(image, table, place, info) by {
                    assert(start <= place);
                }
                a_class_has_its_first_vtable(image, table, info, from + 1);
                match vtable_of(image, table, info, from + 1) {
                    Some((found, slots)) => {
                        let i = choose|i: int|
                            from + 1 <= i && #[trigger] looked_at(image, i, found as u32)
                                && vtable_stands(image, table, found as u32, info) && slots
                                == slots_from(
                                image,
                                table,
                                (found as u32).wrapping_add(8) as int,
                            ) && forall|j: int, place: u32|
                                from + 1 <= j && #[trigger] looked_at(image, j, place) && (j < i
                                    || j == i && place < found as u32) ==> !vtable_stands(
                                    image,
                                    table,
                                    place,
                                    info,
                                );
                        assert(looked_at(image, i, found as u32));
                        assert forall|j: int, place: u32|
                            from <= j && #[trigger] looked_at(image, j, place) && (j < i || j == i
                                && place < found as u32) implies !vtable_stands(
                            image,
                            table,
                            place,
                            info,
                        ) by {
                            if j == from {
                                assert(looked_at(image, from, place));
                            }
                        }
                    },
                    None => {},
                }
            },
        }
    }
}

} // verus!
