//! What a C++ module declares about its own classes.

use vstd::prelude::*;
use std::collections::{BTreeMap, BTreeSet};
use crate::analysis::calls::{read_table, table_of};
use crate::analysis::demangle::{demangle_type, demangled, is_mangled_type, mangled_type};
use crate::analysis::image::{
    image_bytes, image_of, image_text, image_word, lemma_address_round_trip, read_pointer_table,
    slots_from, DataImage, PlacedModel,
};
use crate::analysis::placement::Placement;
use crate::analysis::sets::{increasing_i32, keys_i32};
use crate::module::types::Module;

verus! {

/// A C++ class the module declares, and what it declares about it.
///
/// This is not inference from how the code behaves. Itanium's ABI puts a
/// `type_info` object in the data segments for every polymorphic class and a
/// vtable beside it, and both are written down: the class's name is a string the
/// compiler emitted, and the vtable's entries are the table slots its virtual calls
/// land on.
#[derive(Debug, Clone, PartialEq, Eq)]
pub struct Class {
    /// Where the `type_info` object sits.
    pub type_info: i32,
    /// The name exactly as the module wrote it, mangled.
    pub mangled: String,
    /// The readable form, as far as it could be read. The mangled string when it
    /// could not be read at all.
    pub name: String,
    /// The last component of the name, without template arguments.
    pub short: String,
    /// The `type_info` of the class this one derives from, when the module writes
    /// one down. An absent base is unstated, not stated to be absent.
    pub base: Option<i32>,
    /// Where the vtable sits, when one points at this `type_info`.
    pub vtable: Option<i32>,
    /// The vtable's slots, in order. `None` is a slot holding 0, a pure virtual
    /// function.
    pub methods: Vec<Option<u32>>,
}

/// What the class recovery rests on.
#[derive(Debug, Clone, Copy, PartialEq, Eq)]
pub struct ClassEvidence {
    /// How many distinct `__class_type_info` vtables the classes share.
    pub kinds: usize,
    /// How many classes were confirmed that way.
    pub classes: usize,
    /// How many of them a vtable points at.
    pub with_vtables: usize,
    /// How many of them the count alone missed, and a confirmed class named as its
    /// base.
    pub by_base: usize,
}

/// A class, as plain values.
pub struct ClassModel {
    /// Where the `type_info` object sits.
    pub type_info: i32,
    /// The mangled name.
    pub mangled: Seq<char>,
    /// The readable name.
    pub name: Seq<char>,
    /// The last component of the name.
    pub short: Seq<char>,
    /// The class it derives from.
    pub base: Option<i32>,
    /// Where the vtable sits.
    pub vtable: Option<i32>,
    /// The vtable's slots.
    pub methods: Seq<Option<u32>>,
}

impl View for Class {
    type V = ClassModel;

    open spec fn view(&self) -> ClassModel {
        ClassModel {
            type_info: self.type_info,
            mangled: self.mangled@,
            name: self.name@,
            short: self.short@,
            base: self.base,
            vtable: self.vtable,
            methods: self.methods@,
        }
    }
}

/// How many `type_info` candidates have to share a vtable pointer before it is
/// one: the lowest value that admits no accident. A wrong class name is worse than
/// none.
pub const TYPE_INFO_KIND_FLOOR: usize = 3;

/// Two words of which the second points at a mangled type name.
pub struct Pair {
    /// Where they are.
    pub at: i32,
    /// The first word.
    pub kind: i32,
    /// The name.
    pub mangled: Seq<char>,
}

/// The first address from a base on that is a multiple of four.
pub open spec fn first_word(base: u32) -> int {
    (base + 3) / 4 * 4
}

/// The pair at an address.
pub open spec fn pair_at(image: Seq<PlacedModel>, at: u32) -> Option<Pair> {
    match (image_word(image, at), image_word(image, at.wrapping_add(4))) {
        (Some(kind), Some(name_at)) => if kind != 0 {
            match image_text(image, name_at, false) {
                Some(mangled) => if mangled_type(mangled) {
                    Some(Pair { at: at as i32, kind, mangled })
                } else {
                    None
                },
                None => None,
            }
        } else {
            None
        },
        _ => None,
    }
}

/// The pairs from an address on, every four bytes, of two words that end before
/// `end`.
pub open spec fn pairs_from(image: Seq<PlacedModel>, at: int, end: int) -> Seq<Pair>
    decreases u32::MAX + 4 - at,
{
    if 0 <= at <= u32::MAX && at + 8 <= end {
        match pair_at(image, at as u32) {
            Some(pair) => seq![pair] + pairs_from(image, at + 4, end),
            None => pairs_from(image, at + 4, end),
        }
    } else {
        Seq::empty()
    }
}

/// The pairs of the segments from the `i`th on.
pub open spec fn pairs_of(image: Seq<PlacedModel>, i: int) -> Seq<Pair>
    decreases image.len() - i,
{
    if 0 <= i < image.len() {
        pairs_from(image, first_word(image[i].base), image[i].base + image[i].bytes.len())
            + pairs_of(image, i + 1)
    } else {
        Seq::empty()
    }
}

/// How many pairs have a kind.
pub open spec fn kind_count(pairs: Seq<Pair>, kind: i32) -> nat
    decreases pairs.len(),
{
    if pairs.len() == 0 {
        0
    } else {
        kind_count(pairs.drop_last(), kind) + if pairs.last().kind == kind {
            1nat
        } else {
            0
        }
    }
}

/// Whether a word is a kind of `type_info`: enough pairs share it, and it points
/// at two words of data.
pub open spec fn is_kind(image: Seq<PlacedModel>, pairs: Seq<Pair>, kind: i32) -> bool {
    &&& kind_count(pairs, kind) >= TYPE_INFO_KIND_FLOOR
    &&& image_bytes(image, kind as u32, 1) is Some
    &&& image_bytes(image, (kind as u32).wrapping_add(4), 1) is Some
}

/// Whether there is a pair at an address.
pub open spec fn listed(pairs: Seq<Pair>, at: i32) -> bool {
    exists|i: int| 0 <= i < pairs.len() && (#[trigger] pairs[i]).at == at
}

/// The kind of the pair at an address.
pub open spec fn kind_at(image: Seq<PlacedModel>, at: i32) -> i32 {
    pair_at(image, at as u32)->0.kind
}

/// The name of the pair at an address.
pub open spec fn mangled_at(image: Seq<PlacedModel>, at: i32) -> Seq<char> {
    pair_at(image, at as u32)->0.mangled
}

/// Whether the pair at an address is a `type_info` by its kind.
pub open spec fn confirmed(image: Seq<PlacedModel>, pairs: Seq<Pair>, at: i32) -> bool {
    listed(pairs, at) && is_kind(image, pairs, kind_at(image, at))
}

/// What the third word of a `type_info` names as its base: another pair, outside
/// the object itself.
pub open spec fn named_base(image: Seq<PlacedModel>, pairs: Seq<Pair>, at: i32) -> Option<i32> {
    match image_word(image, (at as u32).wrapping_add(8)) {
        Some(base) => if listed(pairs, base) && !(at <= base < at + 12) {
            Some(base)
        } else {
            None
        },
        None => None,
    }
}

/// The confirmed `type_info` objects of a kind that name a base.
pub open spec fn heirs(image: Seq<PlacedModel>, pairs: Seq<Pair>, kind: i32) -> Set<i32> {
    Set::new(
        |at: i32|
            confirmed(image, pairs, at) && kind_at(image, at) == kind && named_base(
                image,
                pairs,
                at,
            ) is Some,
    )
}

/// Whether a kind is the one of single inheritance: enough of its members name a
/// base.
pub open spec fn is_single(image: Seq<PlacedModel>, pairs: Seq<Pair>, kind: i32) -> bool {
    is_kind(image, pairs, kind) && heirs(image, pairs, kind).len() >= TYPE_INFO_KIND_FLOOR
}

/// The base the class at an address has.
pub open spec fn base_at(image: Seq<PlacedModel>, pairs: Seq<Pair>, at: i32) -> Option<i32> {
    if confirmed(image, pairs, at) && is_single(image, pairs, kind_at(image, at)) {
        named_base(image, pairs, at)
    } else {
        None
    }
}

/// Whether a class names the pair at an address as its base.
pub open spec fn adopted(image: Seq<PlacedModel>, pairs: Seq<Pair>, at: i32) -> bool {
    exists|derived: i32| #[trigger] base_at(image, pairs, derived) == Some(at)
}

/// Whether there is a class at an address.
pub open spec fn is_class(image: Seq<PlacedModel>, pairs: Seq<Pair>, at: i32) -> bool {
    confirmed(image, pairs, at) || adopted(image, pairs, at)
}

/// The slots of the vtable at an address for a class: a zero, the class's
/// `type_info`, and slots of which one is live.
pub open spec fn vtable_at(
    image: Seq<PlacedModel>,
    table: Map<u32, u32>,
    at: u32,
    info: i32,
) -> Option<Seq<Option<u32>>> {
    let slots = slots_from(image, table, at.wrapping_add(8) as int);
    if image_word(image, at) == Some(0i32) && image_word(image, at.wrapping_add(4)) == Some(info)
        && exists|i: int| 0 <= i < slots.len() && #[trigger] slots[i] is Some {
        Some(slots)
    } else {
        None
    }
}

/// The first vtable of a class from an address on, every four bytes, whose first
/// two words end before `end`.
pub open spec fn vtable_from(
    image: Seq<PlacedModel>,
    table: Map<u32, u32>,
    info: i32,
    at: int,
    end: int,
) -> Option<(i32, Seq<Option<u32>>)>
    decreases u32::MAX + 4 - at,
{
    if 0 <= at <= u32::MAX && at + 8 <= end {
        match vtable_at(image, table, at as u32, info) {
            Some(slots) => Some(((at as u32) as i32, slots)),
            None => vtable_from(image, table, info, at + 4, end),
        }
    } else {
        None
    }
}

/// The first vtable of a class in the segments from the `i`th on.
pub open spec fn vtable_of(image: Seq<PlacedModel>, table: Map<u32, u32>, info: i32, i: int) -> Option<
    (i32, Seq<Option<u32>>),
>
    decreases image.len() - i,
{
    if 0 <= i < image.len() {
        match vtable_from(
            image,
            table,
            info,
            first_word(image[i].base),
            image[i].base + image[i].bytes.len(),
        ) {
            Some(found) => Some(found),
            None => vtable_of(image, table, info, i + 1),
        }
    } else {
        None
    }
}

/// The class at an address.
pub open spec fn class_at(
    image: Seq<PlacedModel>,
    table: Map<u32, u32>,
    pairs: Seq<Pair>,
    at: i32,
) -> ClassModel {
    let names = demangled(mangled_at(image, at));
    let vtable = vtable_of(image, table, at, 0);
    ClassModel {
        type_info: at,
        mangled: mangled_at(image, at),
        name: names.0,
        short: names.1,
        base: base_at(image, pairs, at),
        vtable: match vtable {
            Some((at, _)) => Some(at),
            None => None,
        },
        methods: match vtable {
            Some((_, slots)) => slots,
            None => Seq::empty(),
        },
    }
}

/// Whether a list holds the class at each address where there is one, in order of
/// addresses.
pub open spec fn are_classes(
    list: Seq<Class>,
    image: Seq<PlacedModel>,
    table: Map<u32, u32>,
    pairs: Seq<Pair>,
) -> bool {
    &&& forall|i: int, j: int| 0 <= i < j < list.len() ==> list[i].type_info < list[j].type_info
    &&& forall|i: int|
        0 <= i < list.len() ==> (#[trigger] list[i])@ == class_at(
            image,
            table,
            pairs,
            list[i].type_info,
        )
    &&& forall|at: i32| #[trigger]
        is_class(image, pairs, at) == exists|i: int|
            0 <= i < list.len() && (#[trigger] list[i]).type_info == at
}

/// How many classes have a vtable.
pub open spec fn with_vtables(list: Seq<Class>) -> nat
    decreases list.len(),
{
    if list.len() == 0 {
        0
    } else {
        with_vtables(list.drop_last()) + if list.last().vtable is Some {
            1nat
        } else {
            0
        }
    }
}

/// What classes rest on.
pub open spec fn is_evidence(
    evidence: ClassEvidence,
    list: Seq<Class>,
    image: Seq<PlacedModel>,
    pairs: Seq<Pair>,
) -> bool {
    &&& evidence.kinds == Set::new(|kind: i32| is_kind(image, pairs, kind)).len()
    &&& evidence.classes == list.len()
    &&& evidence.with_vtables == with_vtables(list)
    &&& evidence.by_base == Set::new(
        |at: i32| adopted(image, pairs, at) && !confirmed(image, pairs, at),
    ).len()
}

// ---- the pairs ----

/// A pair that was found.
struct Candidate {
    at: i32,
    kind: i32,
    mangled: String,
}

spec fn pair_of(candidate: Candidate) -> Pair {
    Pair { at: candidate.at, kind: candidate.kind, mangled: candidate.mangled@ }
}

spec fn pairs(list: Seq<Candidate>) -> Seq<Pair> {
    list.map_values(|candidate: Candidate| pair_of(candidate))
}

/// The word some bytes after an address.
fn word_after(image: &DataImage<'_>, at: u32, by: u32) -> (word: Option<i32>)
    ensures
        word == image_word(image@, at.wrapping_add(by)),
{
    let there: u32 = at.wrapping_add(by);
    proof {
        lemma_address_round_trip(there);
    }
    image.read32(there as i32)
}

/// Reads the pair at an address.
fn read_pair(image: &DataImage<'_>, at: u32) -> (candidate: Option<Candidate>)
    ensures
        match candidate {
            Some(candidate) => pair_at(image@, at) == Some(pair_of(candidate)),
            None => pair_at(image@, at) is None,
        },
{
    assert(at.wrapping_add(0) == at);
    match (word_after(image, at, 0), word_after(image, at, 4)) {
        (Some(kind), Some(name_at)) => {
            if kind == 0 {
                return None;
            }
            match image.cstring(name_at) {
                Some(mangled) => if is_mangled_type(mangled.as_str()) {
                    Some(Candidate { at: at as i32, kind, mangled })
                } else {
                    None
                },
                None => None,
            }
        },
        _ => None,
    }
}

/// Finds every pair.
fn find_pairs(image: &DataImage<'_>) -> (list: Vec<Candidate>)
    ensures
        pairs(list@) == pairs_of(image@, 0),
{
    let mut list: Vec<Candidate> = Vec::new();
    let mut i: usize = 0;
    assert(pairs(list@) + pairs_of(image@, 0) =~= pairs_of(image@, 0));
    while i < image.segments.len()
        invariant
            i <= image.segments@.len(),
            image@.len() == image.segments@.len(),
            pairs(list@) + pairs_of(image@, i as int) == pairs_of(image@, 0),
        decreases image.segments@.len() - i,
    {
        let base: u32 = image.segments[i].base;
        let end: u128 = base as u128 + image.segments[i].bytes.len() as u128;
        let mut at: u64 = (base as u64 + 3) / 4 * 4;
        let ghost rest = pairs_of(image@, i + 1);
        proof {
            assert(image@[i as int] == image.segments@[i as int]@);
            assert(pairs(list@) + (pairs_from(image@, at as int, end as int) + rest) =~= pairs(
                list@,
            ) + pairs_from(image@, at as int, end as int) + rest);
        }
        while at <= u32::MAX as u64 && at as u128 + 8 <= end
            invariant
                at <= u32::MAX + 4,
                pairs(list@) + pairs_from(image@, at as int, end as int) + rest == pairs_of(
                    image@,
                    0,
                ),
            decreases u32::MAX + 4 - at,
        {
            let ghost before = list@;
            match read_pair(image, at as u32) {
                Some(candidate) => {
                    list.push(candidate);
                    proof {
                        let more = pairs_from(image@, at + 4, end as int);
                        assert(pairs(list@) =~= pairs(before).push(pair_of(candidate)));
                        assert(pairs(list@) + more =~= pairs(before) + (seq![pair_of(candidate)]
                            + more));
                    }
                },
                None => {},
            }
            at = at + 4;
        }
        assert(pairs(list@) + Seq::<Pair>::empty() =~= pairs(list@));
        i = i + 1;
    }
    assert(pairs(list@) + Seq::<Pair>::empty() =~= pairs(list@));
    list
}

/// Every pair is what stands at its address.
proof fn lemma_pairs_from(image: Seq<PlacedModel>, at: int, end: int)
    ensures
        forall|i: int|
            0 <= i < pairs_from(image, at, end).len() ==> pair_at(
                image,
                (#[trigger] pairs_from(image, at, end)[i]).at as u32,
            ) == Some(pairs_from(image, at, end)[i]),
    decreases u32::MAX + 4 - at,
{
    if 0 <= at <= u32::MAX && at + 8 <= end {
        lemma_pairs_from(image, at + 4, end);
        lemma_address_round_trip(at as u32);
        let rest = pairs_from(image, at + 4, end);
        let all = pairs_from(image, at, end);
        if pair_at(image, at as u32) is Some {
            assert forall|i: int| 0 <= i < all.len() implies pair_at(
                image,
                (#[trigger] all[i]).at as u32,
            ) == Some(all[i]) by {
                if i > 0 {
                    assert(all[i] == rest[i - 1]);
                }
            }
        }
    }
}

/// Every pair is what stands at its address.
proof fn lemma_pairs_of(image: Seq<PlacedModel>, i: int)
    ensures
        forall|k: int|
            0 <= k < pairs_of(image, i).len() ==> pair_at(
                image,
                (#[trigger] pairs_of(image, i)[k]).at as u32,
            ) == Some(pairs_of(image, i)[k]),
    decreases image.len() - i,
{
    if 0 <= i < image.len() {
        let at = first_word(image[i].base);
        let end = image[i].base + image[i].bytes.len();
        lemma_pairs_from(image, at, end);
        lemma_pairs_of(image, i + 1);
        let here = pairs_from(image, at, end);
        let rest = pairs_of(image, i + 1);
        let all = pairs_of(image, i);
        assert forall|k: int| 0 <= k < all.len() implies pair_at(
            image,
            (#[trigger] all[k]).at as u32,
        ) == Some(all[k]) by {
            if k < here.len() {
                assert(all[k] == here[k]);
            } else {
                assert(all[k] == rest[k - here.len()]);
            }
        }
    }
}

// ---- the kinds ----

/// The count a map has for a kind, or zero.
spec fn counted(map: Map<i32, usize>, kind: i32) -> nat {
    if map.contains_key(kind) {
        map[kind] as nat
    } else {
        0
    }
}

/// No more pairs have a kind than there are pairs.
proof fn lemma_kind_count(all: Seq<Pair>, kind: i32)
    ensures
        kind_count(all, kind) <= all.len(),
    decreases all.len(),
{
    if all.len() > 0 {
        lemma_kind_count(all.drop_last(), kind);
    }
}

/// Counts the pairs of each kind.
fn count_kinds(list: &Vec<Candidate>) -> (counts: BTreeMap<i32, usize>)
    ensures
        forall|kind: i32| #[trigger] counted(counts@, kind) == kind_count(pairs(list@), kind),
{
    let mut counts: BTreeMap<i32, usize> = BTreeMap::new();
    let ghost all = pairs(list@);
    let mut i: usize = 0;
    assert(all.take(0) =~= Seq::empty());
    while i < list.len()
        invariant
            i <= list@.len(),
            all == pairs(list@),
            forall|kind: i32| #[trigger]
                counted(counts@, kind) == kind_count(all.take(i as int), kind),
        decreases list@.len() - i,
    {
        let kind: i32 = list[i].kind;
        let ghost had = counts@;
        proof {
            assert(all.take(i + 1).drop_last() =~= all.take(i as int));
            assert(all.take(i + 1).last() == all[i as int]);
            lemma_kind_count(all.take(i as int), kind);
            assert(counted(had, kind) == kind_count(all.take(i as int), kind));
        }
        let count: usize = match counts.get(&kind) {
            Some(count) => *count,
            None => 0,
        };
        counts.insert(kind, count + 1);
        proof {
            assert forall|other: i32| #[trigger]
                counted(counts@, other) == kind_count(all.take(i + 1), other) by {
                assert(counted(had, other) == kind_count(all.take(i as int), other));
            }
        }
        i = i + 1;
    }
    assert(all.take(i as int) =~= all);
    counts
}

/// Finds the kinds, each once.
fn find_kinds(image: &DataImage<'_>, list: &Vec<Candidate>) -> (kinds: Vec<i32>)
    ensures
        kinds@.no_duplicates(),
        forall|kind: i32| #[trigger]
            kinds@.contains(kind) == is_kind(image@, pairs(list@), kind),
{
    let counts: BTreeMap<i32, usize> = count_kinds(list);
    let keys: Vec<i32> = keys_i32(&counts);
    let ghost all = pairs(list@);
    let mut kinds: Vec<i32> = Vec::new();
    let mut i: usize = 0;
    while i < keys.len()
        invariant
            i <= keys@.len(),
            increasing_i32(keys@),
            forall|kind: i32| #[trigger] keys@.contains(kind) == counts@.contains_key(kind),
            forall|kind: i32| #[trigger] counted(counts@, kind) == kind_count(all, kind),
            increasing_i32(kinds@),
            forall|j: int|
                0 <= j < kinds@.len() ==> is_kind(image@, all, #[trigger] kinds@[j]) && keys@.take(
                    i as int,
                ).contains(kinds@[j]),
            forall|j: int|
                0 <= j < i && is_kind(image@, all, #[trigger] keys@[j]) ==> kinds@.contains(
                    keys@[j],
                ),
        decreases keys@.len() - i,
    {
        let kind: i32 = keys[i];
        let ghost before = kinds@;
        assert(keys@.contains(keys@[i as int]));
        let count: usize = match counts.get(&kind) {
            Some(count) => *count,
            None => 0,
        };
        assert(counted(counts@, kind) == count);
        let next: u32 = (kind as u32).wrapping_add(4);
        proof {
            lemma_address_round_trip(next);
            assert forall|j: int| 0 <= j < before.len() implies before[j] < kind && keys@.take(
                i + 1,
            ).contains(#[trigger] before[j]) by {
                let done = keys@.take(i as int);
                let k = choose|k: int| 0 <= k < done.len() && done[k] == before[j];
                assert(keys@[k] < keys@[i as int]);
                assert(keys@.take(i + 1)[k] == before[j]);
            }
            assert(keys@.take(i + 1)[i as int] == kind);
        }
        if count >= TYPE_INFO_KIND_FLOOR && image.holds(kind) && image.holds(next as i32) {
            kinds.push(kind);
            assert(kinds@[before.len() as int] == kind);
        }
        proof {
            assert forall|j: int|
                0 <= j < i + 1 && is_kind(image@, all, #[trigger] keys@[j]) implies kinds@.contains(
                keys@[j],
            ) by {
                if j < i {
                    let k = choose|k: int| 0 <= k < before.len() && before[k] == keys@[j];
                    assert(kinds@[k] == keys@[j]);
                }
            }
        }
        i = i + 1;
    }
    proof {
        assert forall|kind: i32| #[trigger]
            kinds@.contains(kind) == is_kind(image@, all, kind) by {
            assert(counted(counts@, kind) == kind_count(all, kind));
            assert(keys@.contains(kind) == counts@.contains_key(kind));
            if is_kind(image@, all, kind) {
                let j = choose|j: int| 0 <= j < keys@.len() && keys@[j] == kind;
                assert(is_kind(image@, all, keys@[j]));
            }
            if kinds@.contains(kind) {
                let j = choose|j: int| 0 <= j < kinds@.len() && kinds@[j] == kind;
                assert(is_kind(image@, all, kinds@[j]));
            }
        }
    }
    kinds
}

// ---- the classes ----

/// Where each pair stands in a list.
fn index_pairs(list: &Vec<Candidate>) -> (index: BTreeMap<i32, usize>)
    ensures
        forall|at: i32| #[trigger] index@.contains_key(at) == listed(pairs(list@), at),
        forall|at: i32| #[trigger]
            index@.contains_key(at) ==> index@[at] < list@.len() && list@[index@[at] as int].at
                == at,
{
    let mut index: BTreeMap<i32, usize> = BTreeMap::new();
    let ghost all = pairs(list@);
    let mut i: usize = 0;
    while i < list.len()
        invariant
            i <= list@.len(),
            all == pairs(list@),
            forall|at: i32| #[trigger] index@.contains_key(at) == listed(all.take(i as int), at),
            forall|at: i32| #[trigger]
                index@.contains_key(at) ==> index@[at] < list@.len() && list@[index@[at] as int].at
                    == at,
        decreases list@.len() - i,
    {
        let here: i32 = list[i].at;
        let ghost had = index@;
        index.insert(here, i);
        proof {
            let done = all.take(i as int);
            let next = all.take(i + 1);
            assert forall|at: i32| #[trigger] index@.contains_key(at) == listed(next, at) by {
                assert(had.contains_key(at) == listed(done, at));
                if listed(done, at) {
                    let k = choose|k: int| 0 <= k < done.len() && (#[trigger] done[k]).at == at;
                    assert(next[k].at == at);
                }
                if listed(next, at) {
                    let k = choose|k: int| 0 <= k < next.len() && (#[trigger] next[k]).at == at;
                    if k < i {
                        assert(done[k].at == at);
                    }
                }
                assert(next[i as int].at == here);
            }
        }
        i = i + 1;
    }
    assert(all.take(i as int) =~= all);
    index
}

/// Whether the list's pairs are those of an image.
spec fn complete(image: Seq<PlacedModel>, list: Seq<Candidate>) -> bool {
    pairs(list) == pairs_of(image, 0)
}

/// Each pair of a complete list is what stands at its address.
proof fn lemma_complete(image: Seq<PlacedModel>, list: Seq<Candidate>, i: int)
    requires
        complete(image, list),
        0 <= i < list.len(),
    ensures
        pair_at(image, list[i].at as u32) == Some(pair_of(list[i])),
        listed(pairs(list), list[i].at),
{
    lemma_pairs_of(image, 0);
    assert(pairs(list)[i] == pair_of(list[i]));
    assert(pairs_of(image, 0)[i].at == list[i].at);
}

/// Whether a list holds a number.
fn holds_i32(list: &Vec<i32>, value: i32) -> (yes: bool)
    ensures
        yes == list@.contains(value),
{
    let mut i: usize = 0;
    while i < list.len()
        invariant
            i <= list@.len(),
            forall|j: int| 0 <= j < i ==> list@[j] != value,
        decreases list@.len() - i,
    {
        if list[i] == value {
            assert(list@[i as int] == value);
            return true;
        }
        i = i + 1;
    }
    false
}

/// Finds the `type_info` objects of the kinds, each with its kind.
fn find_confirmed(
    image: &DataImage<'_>,
    list: &Vec<Candidate>,
    kinds: &Vec<i32>,
) -> (found: BTreeMap<i32, i32>)
    requires
        complete(image@, list@),
        forall|kind: i32| #[trigger]
            kinds@.contains(kind) == is_kind(image@, pairs(list@), kind),
    ensures
        forall|at: i32| #[trigger]
            found@.contains_key(at) == confirmed(image@, pairs(list@), at),
        forall|at: i32| #[trigger] found@.contains_key(at) ==> found@[at] == kind_at(image@, at),
{
    let mut found: BTreeMap<i32, i32> = BTreeMap::new();
    let ghost all = pairs(list@);
    let mut i: usize = 0;
    while i < list.len()
        invariant
            i <= list@.len(),
            all == pairs(list@),
            complete(image@, list@),
            forall|kind: i32| #[trigger] kinds@.contains(kind) == is_kind(image@, all, kind),
            forall|at: i32| #[trigger]
                found@.contains_key(at) == (listed(all.take(i as int), at) && is_kind(
                    image@,
                    all,
                    kind_at(image@, at),
                )),
            forall|at: i32| #[trigger]
                found@.contains_key(at) ==> found@[at] == kind_at(image@, at),
        decreases list@.len() - i,
    {
        let here: i32 = list[i].at;
        let kind: i32 = list[i].kind;
        let ghost had = found@;
        proof {
            lemma_complete(image@, list@, i as int);
        }
        if holds_i32(kinds, kind) {
            found.insert(here, kind);
        }
        proof {
            let done = all.take(i as int);
            let next = all.take(i + 1);
            assert forall|at: i32| #[trigger]
                found@.contains_key(at) == (listed(next, at) && is_kind(
                    image@,
                    all,
                    kind_at(image@, at),
                )) by {
                assert(had.contains_key(at) == (listed(done, at) && is_kind(
                    image@,
                    all,
                    kind_at(image@, at),
                )));
                if listed(done, at) {
                    let k = choose|k: int| 0 <= k < done.len() && (#[trigger] done[k]).at == at;
                    assert(next[k].at == at);
                }
                if listed(next, at) {
                    let k = choose|k: int| 0 <= k < next.len() && (#[trigger] next[k]).at == at;
                    if k < i {
                        assert(done[k].at == at);
                    }
                }
                assert(next[i as int].at == here);
            }
        }
        i = i + 1;
    }
    assert(all.take(i as int) =~= all);
    found
}

/// Reads the base that a `type_info` names.
fn read_base(image: &DataImage<'_>, index: &BTreeMap<i32, usize>, at: i32, all: Ghost<Seq<Pair>>) -> (
    base: Option<i32>)
    requires
        forall|at: i32| #[trigger] index@.contains_key(at) == listed(all@, at),
    ensures
        base == named_base(image@, all@, at),
{
    match word_after(image, at as u32, 8) {
        Some(base) => if index.contains_key(&base) && !(at <= base && (base as i64) < at as i64
            + 12) {
            Some(base)
        } else {
            None
        },
        None => None,
    }
}

/// Whether a kind has enough members that name a base.
fn has_heirs(
    image: &DataImage<'_>,
    index: &BTreeMap<i32, usize>,
    found: &BTreeMap<i32, i32>,
    kind: i32,
    all: Ghost<Seq<Pair>>,
) -> (yes: bool)
    requires
        forall|at: i32| #[trigger] index@.contains_key(at) == listed(all@, at),
        forall|at: i32| #[trigger] found@.contains_key(at) == confirmed(image@, all@, at),
        forall|at: i32| #[trigger] found@.contains_key(at) ==> found@[at] == kind_at(image@, at),
    ensures
        yes == (heirs(image@, all@, kind).len() >= TYPE_INFO_KIND_FLOOR),
{
    let keys: Vec<i32> = keys_i32(found);
    let mut some: Vec<i32> = Vec::new();
    let ghost whole = heirs(image@, all@, kind);
    let mut i: usize = 0;
    while i < keys.len()
        invariant
            i <= keys@.len(),
            whole == heirs(image@, all@, kind),
            forall|at: i32| #[trigger] index@.contains_key(at) == listed(all@, at),
            forall|at: i32| #[trigger] found@.contains_key(at) == confirmed(image@, all@, at),
            forall|at: i32| #[trigger]
                found@.contains_key(at) ==> found@[at] == kind_at(image@, at),
            increasing_i32(keys@),
            forall|at: i32| #[trigger] keys@.contains(at) == found@.contains_key(at),
            increasing_i32(some@),
            forall|j: int|
                0 <= j < some@.len() ==> whole.contains(#[trigger] some@[j]) && keys@.take(
                    i as int,
                ).contains(some@[j]),
            forall|j: int|
                0 <= j < i && whole.contains(#[trigger] keys@[j]) ==> some@.contains(keys@[j]),
        decreases keys@.len() - i,
    {
        let at: i32 = keys[i];
        let ghost before = some@;
        proof {
            assert(keys@.contains(keys@[i as int]));
            assert forall|j: int| 0 <= j < before.len() implies before[j] < at && keys@.take(
                i + 1,
            ).contains(#[trigger] before[j]) by {
                let done = keys@.take(i as int);
                let k = choose|k: int| 0 <= k < done.len() && done[k] == before[j];
                assert(keys@[k] < keys@[i as int]);
                assert(keys@.take(i + 1)[k] == before[j]);
            }
            assert(keys@.take(i + 1)[i as int] == at);
        }
        let same: bool = match found.get(&at) {
            Some(one) => *one == kind,
            None => false,
        };
        if same && read_base(image, index, at, all).is_some() {
            some.push(at);
            assert(some@[before.len() as int] == at);
        }
        proof {
            assert forall|j: int|
                0 <= j < i + 1 && whole.contains(#[trigger] keys@[j]) implies some@.contains(
                keys@[j],
            ) by {
                if j < i {
                    let k = choose|k: int| 0 <= k < before.len() && before[k] == keys@[j];
                    assert(some@[k] == keys@[j]);
                }
            }
        }
        i = i + 1;
    }
    proof {
        assert forall|at: i32| whole.contains(at) implies some@.contains(at) by {
            assert(found@.contains_key(at));
            assert(keys@.contains(at));
            let j = choose|j: int| 0 <= j < keys@.len() && keys@[j] == at;
            assert(whole.contains(keys@[j]));
        }
        assert forall|at: i32| some@.contains(at) implies whole.contains(at) by {
            let j = choose|j: int| 0 <= j < some@.len() && some@[j] == at;
            assert(whole.contains(some@[j]));
        }
        assert(some@.to_set() =~= whole);
        some@.unique_seq_to_set();
    }
    some.len() >= TYPE_INFO_KIND_FLOOR
}

/// Finds the kinds of single inheritance.
fn find_single(
    image: &DataImage<'_>,
    index: &BTreeMap<i32, usize>,
    found: &BTreeMap<i32, i32>,
    kinds: &Vec<i32>,
    all: Ghost<Seq<Pair>>,
) -> (single: BTreeSet<i32>)
    requires
        forall|at: i32| #[trigger] index@.contains_key(at) == listed(all@, at),
        forall|at: i32| #[trigger] found@.contains_key(at) == confirmed(image@, all@, at),
        forall|at: i32| #[trigger] found@.contains_key(at) ==> found@[at] == kind_at(image@, at),
        forall|kind: i32| #[trigger] kinds@.contains(kind) == is_kind(image@, all@, kind),
    ensures
        forall|kind: i32| #[trigger] single@.contains(kind) == is_single(image@, all@, kind),
{
    let mut single: BTreeSet<i32> = BTreeSet::new();
    let mut i: usize = 0;
    while i < kinds.len()
        invariant
            i <= kinds@.len(),
            forall|at: i32| #[trigger] index@.contains_key(at) == listed(all@, at),
            forall|at: i32| #[trigger] found@.contains_key(at) == confirmed(image@, all@, at),
            forall|at: i32| #[trigger]
                found@.contains_key(at) ==> found@[at] == kind_at(image@, at),
            forall|kind: i32| #[trigger] kinds@.contains(kind) == is_kind(image@, all@, kind),
            forall|kind: i32| #[trigger]
                single@.contains(kind) == (is_single(image@, all@, kind) && exists|j: int|
                    0 <= j < i && #[trigger] kinds@[j] == kind),
        decreases kinds@.len() - i,
    {
        let kind: i32 = kinds[i];
        let ghost had = single@;
        assert(kinds@.contains(kinds@[i as int]));
        if has_heirs(image, index, found, kind, all) {
            single.insert(kind);
        }
        proof {
            assert forall|other: i32| #[trigger]
                single@.contains(other) == (is_single(image@, all@, other) && exists|j: int|
                    0 <= j < i + 1 && #[trigger] kinds@[j] == other) by {
                assert(had.contains(other) == (is_single(image@, all@, other) && exists|j: int|
                    0 <= j < i && #[trigger] kinds@[j] == other));
                if had.contains(other) {
                    let j = choose|j: int| 0 <= j < i && #[trigger] kinds@[j] == other;
                    assert(kinds@[j] == other);
                }
                assert(kinds@[i as int] == kind);
            }
        }
        i = i + 1;
    }
    proof {
        assert forall|kind: i32| #[trigger]
            single@.contains(kind) == is_single(image@, all@, kind) by {
            if is_single(image@, all@, kind) {
                assert(kinds@.contains(kind));
                let j = choose|j: int| 0 <= j < kinds@.len() && kinds@[j] == kind;
                assert(kinds@[j] == kind);
            }
        }
    }
    single
}

/// Finds where the classes are and the base of each, and how many of them are only
/// there as a base.
fn find_bases(
    image: &DataImage<'_>,
    index: &BTreeMap<i32, usize>,
    found: &BTreeMap<i32, i32>,
    single: &BTreeSet<i32>,
    all: Ghost<Seq<Pair>>,
) -> (out: (BTreeMap<i32, Option<i32>>, usize))
    requires
        forall|at: i32| #[trigger] index@.contains_key(at) == listed(all@, at),
        forall|at: i32| #[trigger] found@.contains_key(at) == confirmed(image@, all@, at),
        forall|at: i32| #[trigger] found@.contains_key(at) ==> found@[at] == kind_at(image@, at),
        forall|kind: i32| #[trigger] single@.contains(kind) == is_single(image@, all@, kind),
    ensures
        forall|at: i32| #[trigger] out.0@.contains_key(at) == is_class(image@, all@, at),
        forall|at: i32| #[trigger]
            out.0@.contains_key(at) ==> out.0@[at] == base_at(image@, all@, at),
        out.1 == Set::new(
            |at: i32| adopted(image@, all@, at) && !confirmed(image@, all@, at),
        ).len(),
{
    let keys: Vec<i32> = keys_i32(found);
    let mut classes: BTreeMap<i32, Option<i32>> = BTreeMap::new();
    let mut missed: Vec<i32> = Vec::new();
    let mut i: usize = 0;
    while i < keys.len()
        invariant
            i <= keys@.len(),
            forall|at: i32| #[trigger] index@.contains_key(at) == listed(all@, at),
            forall|at: i32| #[trigger] found@.contains_key(at) == confirmed(image@, all@, at),
            forall|at: i32| #[trigger]
                found@.contains_key(at) ==> found@[at] == kind_at(image@, at),
            forall|kind: i32| #[trigger] single@.contains(kind) == is_single(image@, all@, kind),
            forall|at: i32| #[trigger] keys@.contains(at) == found@.contains_key(at),
            forall|at: i32| #[trigger]
                classes@.contains_key(at) ==> classes@[at] == base_at(image@, all@, at),
            forall|at: i32| #[trigger] classes@.contains_key(at) ==> is_class(image@, all@, at),
            forall|j: int| 0 <= j < i ==> classes@.contains_key(#[trigger] keys@[j]),
            forall|j: int|
                0 <= j < i ==> match base_at(image@, all@, #[trigger] keys@[j]) {
                    Some(base) => classes@.contains_key(base),
                    None => true,
                },
            missed@.no_duplicates(),
            forall|at: i32| #[trigger]
                missed@.contains(at) == (classes@.contains_key(at) && !found@.contains_key(at)),
        decreases keys@.len() - i,
    {
        let at: i32 = keys[i];
        assert(keys@.contains(keys@[i as int]));
        let lone: bool = match found.get(&at) {
            Some(kind) => single.contains(kind),
            None => false,
        };
        let base: Option<i32> = if lone {
            read_base(image, index, at, all)
        } else {
            None
        };
        assert(base == base_at(image@, all@, at));
        let ghost had = classes@;
        let ghost gone = missed@;
        classes.insert(at, base);
        match base {
            Some(base) => {
                assert(adopted(image@, all@, base));
                if !classes.contains_key(&base) && !found.contains_key(&base) {
                    assert(base_at(image@, all@, base) is None);
                    classes.insert(base, None);
                    assert(!gone.contains(base));
                    missed.push(base);
                    assert(missed@[gone.len() as int] == base);
                } else if !classes.contains_key(&base) {
                    let theirs: Option<i32> = match found.get(&base) {
                        Some(kind) => if single.contains(kind) {
                            read_base(image, index, base, all)
                        } else {
                            None
                        },
                        None => None,
                    };
                    classes.insert(base, theirs);
                }
            },
            None => {},
        }
        proof {
            assert forall|j: int| 0 <= j < i + 1 implies match base_at(
                image@,
                all@,
                #[trigger] keys@[j],
            ) {
                Some(base) => classes@.contains_key(base),
                None => true,
            } by {}
            assert forall|other: i32| #[trigger]
                missed@.contains(other) == (classes@.contains_key(other) && !found@.contains_key(
                    other,
                )) by {
                assert(gone.contains(other) == (had.contains_key(other) && !found@.contains_key(
                    other,
                )));
                if gone.contains(other) {
                    let j = choose|j: int| 0 <= j < gone.len() && gone[j] == other;
                    assert(missed@[j] == other);
                }
                if missed@.contains(other) {
                    let j = choose|j: int| 0 <= j < missed@.len() && missed@[j] == other;
                    if j < gone.len() {
                        assert(gone[j] == other);
                    }
                }
            }
        }
        i = i + 1;
    }
    proof {
        assert forall|at: i32| #[trigger]
            classes@.contains_key(at) == is_class(image@, all@, at) by {
            if confirmed(image@, all@, at) {
                assert(found@.contains_key(at));
                assert(keys@.contains(at));
                let j = choose|j: int| 0 <= j < keys@.len() && keys@[j] == at;
                assert(classes@.contains_key(keys@[j]));
            } else if adopted(image@, all@, at) {
                let derived = choose|derived: i32| #[trigger]
                    base_at(image@, all@, derived) == Some(at);
                assert(found@.contains_key(derived));
                assert(keys@.contains(derived));
                let j = choose|j: int| 0 <= j < keys@.len() && keys@[j] == derived;
                assert(base_at(image@, all@, keys@[j]) == Some(at));
            }
        }
        let lost = Set::new(
            |at: i32| adopted(image@, all@, at) && !confirmed(image@, all@, at),
        );
        assert forall|at: i32| lost.contains(at) == missed@.contains(at) by {
            assert(missed@.contains(at) == (classes@.contains_key(at) && !found@.contains_key(at)));
            assert(classes@.contains_key(at) == is_class(image@, all@, at));
        }
        assert(missed@.to_set() =~= lost);
        missed@.unique_seq_to_set();
    }
    (classes, missed.len())
}

// ---- the vtables ----

/// A vtable, as plain values.
spec fn vtable_model(vtable: (i32, Vec<Option<u32>>)) -> (i32, Seq<Option<u32>>) {
    (vtable.0, vtable.1@)
}

/// The first vtable of a class from an address in the `i`th segment on.
spec fn vtable_after(
    image: Seq<PlacedModel>,
    table: Map<u32, u32>,
    info: i32,
    i: int,
    at: int,
    end: int,
) -> Option<(i32, Seq<Option<u32>>)> {
    match vtable_from(image, table, info, at, end) {
        Some(found) => Some(found),
        None => vtable_of(image, table, info, i + 1),
    }
}

/// Whether a map holds the vtables found so far, where `rest` is what is still to
/// be found of each class.
spec fn so_far(
    vtables: Map<i32, (i32, Vec<Option<u32>>)>,
    image: Seq<PlacedModel>,
    table: Map<u32, u32>,
    info: i32,
    rest: Option<(i32, Seq<Option<u32>>)>,
) -> bool {
    vtable_of(image, table, info, 0) == if vtables.contains_key(info) {
        Some(vtable_model(vtables[info]))
    } else {
        rest
    }
}

/// Whether any slot is live.
fn any_live(slots: &Vec<Option<u32>>) -> (yes: bool)
    ensures
        yes == exists|i: int| 0 <= i < slots@.len() && #[trigger] slots@[i] is Some,
{
    let mut i: usize = 0;
    while i < slots.len()
        invariant
            i <= slots@.len(),
            forall|j: int| 0 <= j < i ==> #[trigger] slots@[j] is None,
        decreases slots@.len() - i,
    {
        if slots[i].is_some() {
            assert(slots@[i as int] is Some);
            return true;
        }
        i = i + 1;
    }
    false
}

/// Reads the vtable at an address: the class it belongs to, and its slots.
fn read_vtable(
    image: &DataImage<'_>,
    table: &BTreeMap<u32, u32>,
    classes: &BTreeMap<i32, Option<i32>>,
    at: u32,
) -> (vtable: Option<(i32, Vec<Option<u32>>)>)
    ensures
        match vtable {
            Some((info, slots)) => classes@.contains_key(info) && forall|other: i32| #[trigger]
                vtable_at(image@, table@, at, other) == if other == info {
                    Some(slots@)
                } else {
                    None
                },
            None => forall|other: i32|
                classes@.contains_key(other) ==> #[trigger] vtable_at(image@, table@, at, other)
                    is None,
        },
{
    assert(at.wrapping_add(0) == at);
    match (word_after(image, at, 0), word_after(image, at, 4)) {
        (Some(zero), Some(info)) => {
            if zero != 0 || !classes.contains_key(&info) {
                return None;
            }
            let start: u32 = at.wrapping_add(8);
            proof {
                lemma_address_round_trip(start);
            }
            let slots: Vec<Option<u32>> = read_pointer_table(image, table, start as i32);
            if any_live(&slots) {
                Some((info, slots))
            } else {
                None
            }
        },
        _ => None,
    }
}

/// Finds the first vtable of each class.
fn find_vtables(
    image: &DataImage<'_>,
    table: &BTreeMap<u32, u32>,
    classes: &BTreeMap<i32, Option<i32>>,
) -> (vtables: BTreeMap<i32, (i32, Vec<Option<u32>>)>)
    ensures
        forall|info: i32|
            #![trigger classes@.contains_key(info)]
            #![trigger vtables@.contains_key(info)]
            classes@.contains_key(info) ==> so_far(vtables@, image@, table@, info, None),
{
    let mut vtables: BTreeMap<i32, (i32, Vec<Option<u32>>)> = BTreeMap::new();
    let mut i: usize = 0;
    while i < image.segments.len()
        invariant
            i <= image.segments@.len(),
            image@.len() == image.segments@.len(),
            forall|info: i32| #[trigger]
                classes@.contains_key(info) ==> so_far(
                    vtables@,
                    image@,
                    table@,
                    info,
                    vtable_of(image@, table@, info, i as int),
                ),
        decreases image.segments@.len() - i,
    {
        let base: u32 = image.segments[i].base;
        let end: u128 = base as u128 + image.segments[i].bytes.len() as u128;
        let mut at: u64 = (base as u64 + 3) / 4 * 4;
        proof {
            assert(image@[i as int] == image.segments@[i as int]@);
        }
        while at <= u32::MAX as u64 && at as u128 + 8 <= end
            invariant
                at <= u32::MAX + 4,
                forall|info: i32| #[trigger]
                    classes@.contains_key(info) ==> so_far(
                        vtables@,
                        image@,
                        table@,
                        info,
                        vtable_after(image@, table@, info, i as int, at as int, end as int),
                    ),
            decreases u32::MAX + 4 - at,
        {
            let ghost had = vtables@;
            match read_vtable(image, table, classes, at as u32) {
                Some((info, slots)) => {
                    assert(vtable_at(image@, table@, at as u32, info) == Some(slots@));
                    if !vtables.contains_key(&info) {
                        vtables.insert(info, (at as u32 as i32, slots));
                    }
                    proof {
                        assert forall|other: i32| #[trigger]
                            classes@.contains_key(other) implies so_far(
                            vtables@,
                            image@,
                            table@,
                            other,
                            vtable_after(image@, table@, other, i as int, at + 4, end as int),
                        ) by {
                            assert(so_far(
                                had,
                                image@,
                                table@,
                                other,
                                vtable_after(image@, table@, other, i as int, at as int, end as int),
                            ));
                            assert(vtable_at(image@, table@, at as u32, other) == if other == info {
                                Some(slots@)
                            } else {
                                None
                            });
                        }
                    }
                },
                None => {
                    proof {
                        assert forall|other: i32| #[trigger]
                            classes@.contains_key(other) implies so_far(
                            vtables@,
                            image@,
                            table@,
                            other,
                            vtable_after(image@, table@, other, i as int, at + 4, end as int),
                        ) by {
                            assert(vtable_at(image@, table@, at as u32, other) is None);
                        }
                    }
                },
            }
            at = at + 4;
        }
        i = i + 1;
    }
    vtables
}

/// Where there is a class there is a pair.
proof fn lemma_class_is_listed(image: Seq<PlacedModel>, all: Seq<Pair>, at: i32)
    requires
        is_class(image, all, at),
    ensures
        listed(all, at),
{
    if !confirmed(image, all, at) {
        let derived = choose|derived: i32| #[trigger] base_at(image, all, derived) == Some(at);
        assert(named_base(image, all, derived) == Some(at));
    }
}

/// The classes a module declares, and what they rest on.
///
/// Not part of the analysis of every module: it reads every four-byte-aligned word
/// of the data segments.
pub fn classes(module: &Module, placements: &BTreeMap<u32, Placement>) -> (out: (
    Vec<Class>,
    ClassEvidence,
))
    ensures
        ({
            let image = image_of(module, placements@, module.datas@.len() as int);
            &&& are_classes(out.0@, image, table_of(module.elems@), pairs_of(image, 0))
            &&& is_evidence(out.1, out.0@, image, pairs_of(image, 0))
        }),
{
    let image: DataImage<'_> = DataImage::of(module, placements);
    let table: BTreeMap<u32, u32> = read_table(module);
    let list: Vec<Candidate> = find_pairs(&image);
    let ghost all = pairs(list@);
    let kinds: Vec<i32> = find_kinds(&image, &list);
    let index: BTreeMap<i32, usize> = index_pairs(&list);
    let found: BTreeMap<i32, i32> = find_confirmed(&image, &list, &kinds);
    let single: BTreeSet<i32> = find_single(&image, &index, &found, &kinds, Ghost(all));
    let (bases, by_base) = find_bases(&image, &index, &found, &single, Ghost(all));
    let vtables: BTreeMap<i32, (i32, Vec<Option<u32>>)> = find_vtables(&image, &table, &bases);
    let keys: Vec<i32> = keys_i32(&bases);
    let mut classes: Vec<Class> = Vec::new();
    let mut pointed: usize = 0;
    let mut i: usize = 0;
    while i < keys.len()
        invariant
            i <= keys@.len(),
            complete(image@, list@),
            all == pairs(list@),
            increasing_i32(keys@),
            forall|at: i32| #[trigger] keys@.contains(at) == bases@.contains_key(at),
            forall|at: i32| #[trigger] index@.contains_key(at) == listed(all, at),
            forall|at: i32| #[trigger]
                index@.contains_key(at) ==> index@[at] < list@.len() && list@[index@[at] as int].at
                    == at,
            forall|at: i32| #[trigger] bases@.contains_key(at) == is_class(image@, all, at),
            forall|at: i32| #[trigger]
                bases@.contains_key(at) ==> bases@[at] == base_at(image@, all, at),
            forall|info: i32|
                #![trigger bases@.contains_key(info)]
                #![trigger vtables@.contains_key(info)]
                bases@.contains_key(info) ==> so_far(vtables@, image@, table@, info, None),
            classes@.len() == i,
            pointed <= i,
            pointed == with_vtables(classes@),
            forall|j: int|
                0 <= j < i ==> (#[trigger] classes@[j])@ == class_at(
                    image@,
                    table@,
                    all,
                    keys@[j],
                ),
        decreases keys@.len() - i,
    {
        let at: i32 = keys[i];
        let ghost before = classes@;
        proof {
            assert(keys@.contains(keys@[i as int]));
            lemma_class_is_listed(image@, all, at);
        }
        let base: Option<i32> = match bases.get(&at) {
            Some(base) => *base,
            None => None,
        };
        let mangled: String = match index.get(&at) {
            Some(position) => {
                proof {
                    lemma_complete(image@, list@, *position as int);
                }
                list[*position].mangled.clone()
            },
            None => {
                assert(index@.contains_key(at));
                String::new()
            },
        };
        let (name, short) = demangle_type(mangled.as_str());
        assert(so_far(vtables@, image@, table@, at, None));
        let (vtable, methods): (Option<i32>, Vec<Option<u32>>) = match vtables.get(&at) {
            Some(vtable) => {
                let slots: Vec<Option<u32>> = copy_slots(&vtable.1);
                (Some(vtable.0), slots)
            },
            None => (None, Vec::new()),
        };
        if vtable.is_some() {
            pointed = pointed + 1;
        }
        let class: Class = Class { type_info: at, mangled, name, short, base, vtable, methods };
        assert(class.methods@ =~= class_at(image@, table@, all, at).methods);
        classes.push(class);
        assert(classes@.drop_last() =~= before);
        i = i + 1;
    }
    proof {
        let kind_set = Set::new(|kind: i32| is_kind(image@, all, kind));
        assert(kinds@.to_set() =~= kind_set);
        kinds@.unique_seq_to_set();
        assert forall|at: i32| #[trigger]
            is_class(image@, all, at) == exists|i: int|
                0 <= i < classes@.len() && (#[trigger] classes@[i]).type_info == at by {
            if is_class(image@, all, at) {
                assert(bases@.contains_key(at));
                assert(keys@.contains(at));
                let j = choose|j: int| 0 <= j < keys@.len() && keys@[j] == at;
                assert(classes@[j]@ == class_at(image@, table@, all, keys@[j]));
            }
            if exists|i: int| 0 <= i < classes@.len() && (#[trigger] classes@[i]).type_info == at {
                let j = choose|j: int|
                    0 <= j < classes@.len() && (#[trigger] classes@[j]).type_info == at;
                assert(classes@[j]@ == class_at(image@, table@, all, keys@[j]));
                assert(keys@.contains(keys@[j]));
            }
        }
        assert forall|i: int, j: int| 0 <= i < j < classes@.len() implies classes@[i].type_info
            < classes@[j].type_info by {
            assert(classes@[i]@ == class_at(image@, table@, all, keys@[i]));
            assert(classes@[j]@ == class_at(image@, table@, all, keys@[j]));
            assert(keys@[i] < keys@[j]);
        }
        assert forall|i: int| 0 <= i < classes@.len() implies (#[trigger] classes@[i])@ == class_at(
            image@,
            table@,
            all,
            classes@[i].type_info,
        ) by {
            assert(classes@[i]@ == class_at(image@, table@, all, keys@[i]));
        }
    }
    let evidence: ClassEvidence = ClassEvidence {
        kinds: kinds.len(),
        classes: classes.len(),
        with_vtables: pointed,
        by_base,
    };
    (classes, evidence)
}

/// The same slots.
fn copy_slots(slots: &Vec<Option<u32>>) -> (copy: Vec<Option<u32>>)
    ensures
        copy@ == slots@,
{
    let mut copy: Vec<Option<u32>> = Vec::new();
    let mut i: usize = 0;
    while i < slots.len()
        invariant
            i <= slots@.len(),
            copy@ == slots@.take(i as int),
        decreases slots@.len() - i,
    {
        copy.push(slots[i]);
        i = i + 1;
        assert(copy@ =~= slots@.take(i as int));
    }
    assert(slots@.take(i as int) =~= slots@);
    copy
}

} // verus!
