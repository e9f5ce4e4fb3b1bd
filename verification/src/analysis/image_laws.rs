//! What holds of the image of a module's data.

use vstd::prelude::*;
use crate::analysis::image::{
    by_base, covers, covers_all, highest_end, image_byte, image_bytes, image_of, image_text, image_word,
    insert_by_base, lemma_image_sorted, located, located_from, placed_segment, readable_byte,
    text_bytes, windows, word_stands, words_found, words_in, Located, PlacedModel, ADDRESSES,
    LONGEST_READ,
};
use crate::analysis::placement::{ascii_text, placement_at, Placement};
use crate::module::types::{ConstExpr, Module};

verus! {

// ---- places ----

/// A place that was located is at the address that was asked about, and inside its
/// segment.
pub proof fn a_located_place_is_at_its_address(image: Seq<PlacedModel>, address: u32, i: int)
    requires
        located_from(image, address, i) is Some,
    ensures
        ({
            let place = located_from(image, address, i)->0;
            &&& place.base + place.offset == address
            &&& place.offset < place.length
        }),
    decreases image.len() - i,
{
    if !(i < 0 || i >= image.len()) && !covers(image[i], address) {
        a_located_place_is_at_its_address(image, address, i + 1);
    }
}

/// Bytes are found in an image exactly where one of its segments covers them all.
pub proof fn bytes_are_held_where_a_segment_covers_them(
    image: Seq<PlacedModel>,
    address: u32,
    length: nat,
)
    ensures
        image_bytes(image, address, length as int) is Some == exists|i: int|
            0 <= i < image.len() && covers_all(#[trigger] image[i], address, length as int),
    decreases image.len(),
{
    if image.len() > 0 {
        let rest = image.drop_last();
        bytes_are_held_where_a_segment_covers_them(rest, address, length);
        if covers_all(image.last(), address, length as int) {
            assert(covers_all(image[image.len() - 1], address, length as int));
        } else {
            if image_bytes(rest, address, length as int) is Some {
                let i = choose|i: int|
                    0 <= i < rest.len() && covers_all(#[trigger] rest[i], address, length as int);
                assert(covers_all(image[i], address, length as int));
            }
            if exists|i: int|
                0 <= i < image.len() && covers_all(#[trigger] image[i], address, length as int) {
                let i = choose|i: int|
                    0 <= i < image.len() && covers_all(#[trigger] image[i], address, length as int);
                assert(i < rest.len());
                assert(covers_all(rest[i], address, length as int));
            }
        }
    }
}

/// An address is located in a segment exactly where the image holds it.
pub proof fn an_address_is_located_where_it_is_held(image: Seq<PlacedModel>, address: u32)
    requires
        forall|i: int| 0 <= i < image.len() ==> (#[trigger] image[i]).bytes.len() <= u32::MAX,
    ensures
        located_from(image, address, 0) is Some == image_bytes(image, address, 1) is Some,
{
    bytes_are_held_where_a_segment_covers_them(image, address, 1);
    lemma_located_where_covered(image, address, 0);
    assert forall|i: int| 0 <= i < image.len() implies covers_all(#[trigger] image[i], address, 1)
        == covers(image[i], address) by {}
}

/// An address is located from a segment on exactly where one from there on covers it.
proof fn lemma_located_where_covered(image: Seq<PlacedModel>, address: u32, i: int)
    requires
        0 <= i,
    ensures
        located_from(image, address, i) is Some == exists|j: int|
            i <= j < image.len() && covers(#[trigger] image[j], address),
    decreases image.len() - i,
{
    if i < image.len() {
        lemma_located_where_covered(image, address, i + 1);
        if covers(image[i], address) {
        } else if located_from(image, address, i + 1) is Some {
            let j = choose|j: int| i + 1 <= j < image.len() && covers(#[trigger] image[j], address);
            assert(covers(image[j], address));
        }
    }
}

/// The extent of an image reaches from its lowest segment to the end of its highest: it
/// covers every segment, and each of its ends is one of theirs.
pub proof fn the_extent_covers_every_segment(image: Seq<PlacedModel>, i: int)
    requires
        0 <= i < image.len(),
        by_base(image),
        forall|k: int|
            0 <= k < image.len() ==> (#[trigger] image[k]).base + image[k].bytes.len()
                <= u32::MAX,
    ensures
        image[0].base <= image[i].base,
        image[i].base + image[i].bytes.len() <= highest_end(image),
        exists|k: int|
            0 <= k < image.len() && highest_end(image) == (#[trigger] image[k]).base
                + image[k].bytes.len(),
    decreases image.len(),
{
    let rest = image.drop_last();
    let last = image[image.len() - 1];
    assert(last == image.last());
    if rest.len() > 0 {
        assert forall|k: int| 0 <= k < rest.len() implies (#[trigger] rest[k]).base
            + rest[k].bytes.len() <= u32::MAX by {
            assert(rest[k] == image[k]);
        }
        assert(by_base(rest));
        the_extent_covers_every_segment(
            rest,
            if i < rest.len() {
                i
            } else {
                0
            },
        );
        assert(i < rest.len() ==> rest[i] == image[i]);
        let k = choose|k: int|
            0 <= k < rest.len() && highest_end(rest) == (#[trigger] rest[k]).base
                + rest[k].bytes.len();
        assert(image[k] == rest[k]);
    }
    if i > 0 {
        assert(image[0].base <= image[i].base);
    }
}

/// A place that was located says which segment it is in, where that starts, and how long
/// it is; and its byte is as far into the file as it is into the segment.
pub proof fn a_located_place_says_where_it_is(image: Seq<PlacedModel>, address: u32, i: int)
    requires
        located_from(image, address, i) is Some,
    ensures
        ({
            let place = located_from(image, address, i)->0;
            exists|k: int|
                i <= k < image.len() && covers(#[trigger] image[k], address) && place.segment
                    == image[k].index && place.base == image[k].base && place.length
                    == image[k].bytes.len() as u32 && place.active == image[k].active
                    && place.file_offset == image[k].file_offset.wrapping_add(place.offset)
                    && forall|j: int| i <= j < k ==> !covers(#[trigger] image[j], address)
        }),
    decreases image.len() - i,
{
    if covers(image[i], address) {
        assert(covers(image[i], address));
    } else {
        a_located_place_says_where_it_is(image, address, i + 1);
        let place = located_from(image, address, i)->0;
        let k = choose|k: int|
            i + 1 <= k < image.len() && covers(#[trigger] image[k], address) && place.segment
                == image[k].index && place.base == image[k].base && place.length
                == image[k].bytes.len() as u32 && place.active == image[k].active
                && place.file_offset == image[k].file_offset.wrapping_add(place.offset)
                && forall|j: int| i + 1 <= j < k ==> !covers(#[trigger] image[j], address);
        assert(covers(image[k], address));
    }
}

/// A segment is placed where it says itself, or where the part of it that was copied lands,
/// less how far into the segment that part is; an empty one, and one that is not placed,
/// is not in the image.
pub proof fn a_segment_is_where_it_was_put(
    module: &Module,
    placements: Map<u32, Placement>,
    k: int,
)
    requires
        0 <= k < module.datas@.len(),
    ensures
        ({
            let segment = module.datas@[k];
            let placed = placed_segment(segment, placement_at(placements, k), k);
            match segment.offset {
                Some(ConstExpr::I32(base)) => segment.bytes@.len() > 0 ==> placed is Some
                    && placed->0.base == base as u32 && placed->0.active && placed->0.bytes
                    == segment.bytes@ && placed->0.index == k as u32 && placed->0.file_offset
                    == segment.file_offset,
                Some(_) => placed is None,
                None => if placements.contains_key(k as u32) && segment.bytes@.len() > 0
                    && placements[k as u32].offset <= placements[k as u32].address as u32 {
                    placed is Some && placed->0.base + placements[k as u32].offset
                        == placements[k as u32].address as u32 && !placed->0.active
                        && placed->0.bytes == segment.bytes@ && placed->0.index == k as u32
                        && placed->0.file_offset == segment.file_offset
                } else {
                    placed is None
                },
            }
        }),
        module.datas@[k].bytes@.len() == 0 ==> placed_segment(
            module.datas@[k],
            placement_at(placements, k),
            k,
        ) is None,
{
}

// ---- segments that share no byte ----

/// Whether two segments share no byte.
pub open spec fn apart(a: PlacedModel, b: PlacedModel) -> bool {
    a.base + a.bytes.len() <= b.base || b.base + b.bytes.len() <= a.base
}

/// Whether no two segments of an image share a byte.
pub open spec fn disjoint(image: Seq<PlacedModel>) -> bool {
    forall|i: int, j: int|
        0 <= i < j < image.len() ==> apart(#[trigger] image[i], #[trigger] image[j])
}

/// Whether a placed segment is one of the first `n` of a module.
pub open spec fn comes_from(
    module: &Module,
    placements: Map<u32, Placement>,
    placed: PlacedModel,
    n: int,
) -> bool {
    exists|k: int|
        0 <= k < n && #[trigger] placed_segment(
            module.datas@[k],
            placement_at(placements, k),
            k,
        ) == Some(placed)
}

/// Inserting by base adds the one and nothing else.
proof fn lemma_insert_members(list: Seq<PlacedModel>, placed: PlacedModel)
    ensures
        forall|i: int|
            0 <= i < insert_by_base(list, placed).len() ==> (#[trigger] insert_by_base(
                list,
                placed,
            )[i] == placed || list.contains(insert_by_base(list, placed)[i])),
    decreases list.len(),
{
    let whole = insert_by_base(list, placed);
    if list.len() == 0 {
    } else if list.last().base <= placed.base {
        assert forall|i: int| 0 <= i < whole.len() implies (#[trigger] whole[i] == placed
            || list.contains(whole[i])) by {
            if i < list.len() {
                assert(whole[i] == list[i]);
            }
        }
    } else {
        let front = list.drop_last();
        lemma_insert_members(front, placed);
        let rest = insert_by_base(front, placed);
        assert forall|i: int| 0 <= i < whole.len() implies (#[trigger] whole[i] == placed
            || list.contains(whole[i])) by {
            if i < rest.len() {
                assert(whole[i] == rest[i]);
                if front.contains(rest[i]) {
                    let j = choose|j: int| 0 <= j < front.len() && front[j] == rest[i];
                    assert(list[j] == rest[i]);
                }
            } else {
                assert(whole[i] == list[list.len() - 1]);
            }
        }
    }
}

/// Every segment of the image is one of the module.
pub proof fn lemma_image_members(module: &Module, placements: Map<u32, Placement>, n: int)
    ensures
        forall|i: int|
            0 <= i < image_of(module, placements, n).len() ==> comes_from(
                module,
                placements,
                #[trigger] image_of(module, placements, n)[i],
                n,
            ),
    decreases n,
{
    if n > 0 {
        let before = image_of(module, placements, n - 1);
        let whole = image_of(module, placements, n);
        lemma_image_members(module, placements, n - 1);
        match placed_segment(module.datas@[n - 1], placement_at(placements, n - 1), n - 1) {
            Some(placed) => {
                lemma_insert_members(before, placed);
            },
            None => {},
        }
        assert forall|i: int| 0 <= i < whole.len() implies comes_from(
            module,
            placements,
            #[trigger] whole[i],
            n,
        ) by {
            if before.contains(whole[i]) {
                let j = choose|j: int| 0 <= j < before.len() && before[j] == whole[i];
                assert(comes_from(module, placements, before[j], n - 1));
                let k = choose|k: int|
                    0 <= k < n - 1 && #[trigger] placed_segment(
                        module.datas@[k],
                        placement_at(placements, k),
                        k,
                    ) == Some(whole[i]);
                assert(placed_segment(module.datas@[k], placement_at(placements, k), k) == Some(
                    whole[i],
                ));
            } else {
                let last = placed_segment(
                    module.datas@[n - 1],
                    placement_at(placements, n - 1),
                    n - 1,
                );
                if last is None {
                    assert(before[i] == whole[i]);
                }
                assert(last == Some(whole[i]));
            }
        }
    }
}

/// Where one segment alone covers an address, that is where the address is located.
proof fn lemma_located_in_the_one(image: Seq<PlacedModel>, address: u32, i: int, k: int)
    requires
        0 <= i <= k < image.len(),
        covers(image[k], address),
        forall|j: int| 0 <= j < image.len() && j != k ==> !covers(#[trigger] image[j], address),
    ensures
        located_from(image, address, i) == Some(
            located(image[k], (address - image[k].base) as u32),
        ),
    decreases k - i,
{
    if i < k {
        assert(!covers(image[i], address));
        lemma_located_in_the_one(image, address, i + 1, k);
    }
}

/// Where no segment but one covers a range, the bytes are those of that one.
proof fn lemma_bytes_of_the_one(image: Seq<PlacedModel>, address: u32, length: int, k: int)
    requires
        0 <= k < image.len(),
        forall|j: int|
            0 <= j < image.len() && j != k ==> !covers_all(#[trigger] image[j], address, length),
    ensures
        image_bytes(image, address, length) == if covers_all(image[k], address, length) {
            Some(
                image[k].bytes.subrange(
                    address - image[k].base,
                    address - image[k].base + length,
                ),
            )
        } else {
            None
        },
    decreases image.len(),
{
    let rest = image.drop_last();
    if k == image.len() - 1 {
        if !covers_all(image[k], address, length) {
            lemma_bytes_of_none(rest, address, length);
        }
    } else {
        assert(!covers_all(image[image.len() - 1], address, length));
        assert(rest[k] == image[k]);
        assert forall|j: int| 0 <= j < rest.len() && j != k implies !covers_all(
            #[trigger] rest[j],
            address,
            length,
        ) by {
            assert(rest[j] == image[j]);
        }
        lemma_bytes_of_the_one(rest, address, length, k);
    }
}

/// Where no segment covers a range, there are no bytes.
proof fn lemma_bytes_of_none(image: Seq<PlacedModel>, address: u32, length: int)
    requires
        forall|j: int| 0 <= j < image.len() ==> !covers_all(#[trigger] image[j], address, length),
    ensures
        image_bytes(image, address, length) is None,
    decreases image.len(),
{
    if image.len() > 0 {
        assert(!covers_all(image[image.len() - 1], address, length));
        let rest = image.drop_last();
        assert forall|j: int| 0 <= j < rest.len() implies !covers_all(
            #[trigger] rest[j],
            address,
            length,
        ) by {
            assert(rest[j] == image[j]);
        }
        lemma_bytes_of_none(rest, address, length);
    }
}

/// Of segments that share no byte one at most covers a range of at least one byte.
proof fn lemma_one_covers(image: Seq<PlacedModel>, address: u32, length: int, k: int)
    requires
        disjoint(image),
        0 <= k < image.len(),
        length >= 1,
        covers_all(image[k], address, 1),
    ensures
        forall|j: int|
            0 <= j < image.len() && j != k ==> !covers_all(#[trigger] image[j], address, length),
{
    assert forall|j: int| 0 <= j < image.len() && j != k implies !covers_all(
        #[trigger] image[j],
        address,
        length,
    ) by {
        if j < k {
            assert(apart(image[j], image[k]));
        } else {
            assert(apart(image[k], image[j]));
        }
    }
}

/// Where a module's segments share no byte, the bytes at an address are those of the
/// segment the address is located in, from where it is located on. A range that
/// leaves that segment has none, even where another segment follows directly.
pub proof fn bytes_are_those_where_the_address_is_located(
    module: &Module,
    placements: Map<u32, Placement>,
    address: u32,
    length: nat,
)
    requires
        length >= 1,
        module.datas@.len() <= ADDRESSES,
        forall|k: int|
            0 <= k < module.datas@.len() ==> (#[trigger] module.datas@[k]).bytes@.len() <= u32::MAX,
        disjoint(image_of(module, placements, module.datas@.len() as int)),
    ensures
        ({
            let image = image_of(module, placements, module.datas@.len() as int);
            image_bytes(image, address, length as int) == match located_from(image, address, 0) {
                Some(place) => if place.offset + length <= place.length {
                    Some(
                        module.datas@[place.segment as int].bytes@.subrange(
                            place.offset as int,
                            place.offset + length,
                        ),
                    )
                } else {
                    None
                },
                None => None,
            }
        }),
{
    let n = module.datas@.len() as int;
    let image = image_of(module, placements, n);
    lemma_image_members(module, placements, n);
    assert forall|i: int| 0 <= i < image.len() implies (#[trigger] image[i]).bytes.len()
        <= u32::MAX by {
        assert(comes_from(module, placements, image[i], n));
    }
    lemma_located_where_covered(image, address, 0);
    if located_from(image, address, 0) is Some {
        let k = choose|k: int| 0 <= k < image.len() && covers(#[trigger] image[k], address);
        assert(covers_all(image[k], address, 1));
        lemma_one_covers(image, address, length as int, k);
        lemma_one_covers(image, address, 1, k);
        assert forall|j: int| 0 <= j < image.len() && j != k implies !covers(
            #[trigger] image[j],
            address,
        ) by {
            assert(!covers_all(image[j], address, 1));
        }
        lemma_located_in_the_one(image, address, 0, k);
        lemma_bytes_of_the_one(image, address, length as int, k);
        assert(comes_from(module, placements, image[k], n));
    } else {
        assert forall|j: int| 0 <= j < image.len() implies !covers_all(
            #[trigger] image[j],
            address,
            length as int,
        ) by {
            assert(!covers(image[j], address));
        }
        lemma_bytes_of_none(image, address, length as int);
    }
}

// ---- searching ----

/// The address of a place.
pub open spec fn spot(place: Located) -> u32 {
    place.base.wrapping_add(place.offset)
}

/// Whether a place is where a word stands in a segment.
pub open spec fn marks(placed: PlacedModel, value: i32, place: Located) -> bool {
    place == located(placed, place.offset) && word_stands(
        placed.bytes,
        place.offset as int,
        value,
    )
}

/// What a search of a segment finds: every place the word stands at, in order.
proof fn lemma_words_in(placed: PlacedModel, value: i32, n: int)
    requires
        0 <= n <= windows(placed.bytes.len()),
        placed.bytes.len() <= ADDRESSES,
    ensures
        ({
            let found = words_in(placed, value, n);
            &&& forall|i: int|
                0 <= i < found.len() ==> marks(placed, value, #[trigger] found[i])
                    && found[i].offset < n
            &&& forall|i: int, j: int|
                0 <= i < j < found.len() ==> (#[trigger] found[i]).offset < (
                #[trigger] found[j]).offset
            &&& forall|at: int|
                0 <= at < n && #[trigger] word_stands(placed.bytes, at, value) ==> found.contains(
                    located(placed, at as u32),
                )
        }),
    decreases n,
{
    if n > 0 {
        lemma_words_in(placed, value, n - 1);
        let before = words_in(placed, value, n - 1);
        let found = words_in(placed, value, n);
        let last = located(placed, (n - 1) as u32);
        assert forall|at: int| 0 <= at < n && #[trigger] word_stands(
            placed.bytes,
            at,
            value,
        ) implies found.contains(located(placed, at as u32)) by {
            if at == n - 1 {
                assert(found[found.len() - 1] == last);
            } else {
                assert(before.contains(located(placed, at as u32)));
                let i = choose|i: int|
                    0 <= i < before.len() && before[i] == located(placed, at as u32);
                assert(found[i] == before[i]);
            }
        }
    }
}

/// Whether each segment of an image holds something and lies inside the address
/// space.
pub open spec fn within_the_address_space(image: Seq<PlacedModel>) -> bool {
    forall|i: int|
        0 <= i < image.len() ==> 0 < (#[trigger] image[i]).bytes.len() && image[i].base
            + image[i].bytes.len() <= ADDRESSES
}

/// Sorted segments that share no byte follow each other.
proof fn lemma_follows(image: Seq<PlacedModel>, i: int, j: int)
    requires
        by_base(image),
        disjoint(image),
        within_the_address_space(image),
        0 <= i < j < image.len(),
    ensures
        image[i].base + image[i].bytes.len() <= image[j].base,
{
    assert(apart(image[i], image[j]));
    assert(image[i].base <= image[j].base);
    assert(image[j].bytes.len() > 0);
    assert(image[i].bytes.len() > 0);
}

/// What a search of the first `n` segments finds: every place the word stands at, by
/// address.
proof fn lemma_words_found(image: Seq<PlacedModel>, value: i32, n: int)
    requires
        by_base(image),
        disjoint(image),
        within_the_address_space(image),
        0 <= n <= image.len(),
    ensures
        ({
            let found = words_found(image, value, n);
            &&& forall|i: int|
                0 <= i < found.len() ==> exists|k: int|
                    0 <= k < n && marks(#[trigger] image[k], value, #[trigger] found[i])
            &&& forall|i: int, j: int|
                0 <= i < j < found.len() ==> spot(#[trigger] found[i]) < spot(#[trigger] found[j])
            &&& forall|k: int, at: int|
                0 <= k < n && #[trigger] word_stands(image[k].bytes, at, value)
                    ==> found.contains(located(image[k], at as u32))
        }),
    decreases n,
{
    if n > 0 {
        lemma_words_found(image, value, n - 1);
        let before = words_found(image, value, n - 1);
        let last = image[n - 1];
        let here = words_in(last, value, windows(last.bytes.len()));
        let found = words_found(image, value, n);
        lemma_words_in(last, value, windows(last.bytes.len()));
        assert forall|i: int| 0 <= i < found.len() implies exists|k: int|
            0 <= k < n && marks(#[trigger] image[k], value, #[trigger] found[i]) by {
            if i < before.len() {
                assert(found[i] == before[i]);
                let k = choose|k: int|
                    0 <= k < n - 1 && marks(#[trigger] image[k], value, before[i]);
                assert(marks(image[k], value, found[i]));
            } else {
                assert(found[i] == here[i - before.len()]);
                assert(marks(image[n - 1], value, found[i]));
            }
        }
        assert forall|i: int, j: int| 0 <= i < j < found.len() implies spot(#[trigger] found[i])
            < spot(#[trigger] found[j]) by {
            if j < before.len() {
                assert(found[i] == before[i] && found[j] == before[j]);
            } else {
                assert(found[j] == here[j - before.len()]);
                assert(marks(last, value, found[j]));
                if i < before.len() {
                    assert(found[i] == before[i]);
                    let k = choose|k: int|
                        0 <= k < n - 1 && marks(#[trigger] image[k], value, before[i]);
                    lemma_follows(image, k, n - 1);
                } else {
                    assert(found[i] == here[i - before.len()]);
                    assert(marks(last, value, found[i]));
                }
            }
        }
        assert forall|k: int, at: int|
            0 <= k < n && #[trigger] word_stands(
                image[k].bytes,
                at,
                value,
            ) implies found.contains(located(image[k], at as u32)) by {
            let place = located(image[k], at as u32);
            if k < n - 1 {
                assert(before.contains(place));
                let i = choose|i: int| 0 <= i < before.len() && before[i] == place;
                assert(found[i] == place);
            } else {
                assert(here.contains(place));
                let i = choose|i: int| 0 <= i < here.len() && here[i] == place;
                assert(found[before.len() + i] == place);
            }
        }
    }
}

/// Where a module's segments share no byte and lie inside the address space, a search
/// for a word finds each address the word is read at once, and no other, by address.
/// Places that are not aligned, and such that overlap, are among them.
pub proof fn a_search_finds_each_address_the_word_is_read_at(
    module: &Module,
    placements: Map<u32, Placement>,
    value: i32,
)
    requires
        disjoint(image_of(module, placements, module.datas@.len() as int)),
        forall|i: int|
            0 <= i < image_of(module, placements, module.datas@.len() as int).len() ==> (
            #[trigger] image_of(module, placements, module.datas@.len() as int)[i]).base
                + image_of(module, placements, module.datas@.len() as int)[i].bytes.len()
                <= ADDRESSES,
    ensures
        ({
            let image = image_of(module, placements, module.datas@.len() as int);
            let found = words_found(image, value, image.len() as int);
            &&& forall|address: u32|
                (#[trigger] image_word(image, address) == Some(value)) == exists|i: int|
                    0 <= i < found.len() && spot(#[trigger] found[i]) == address
            &&& forall|i: int, j: int|
                0 <= i < j < found.len() ==> spot(#[trigger] found[i]) < spot(#[trigger] found[j])
        }),
{
    let n = module.datas@.len() as int;
    let image = image_of(module, placements, n);
    let found = words_found(image, value, image.len() as int);
    lemma_image_members(module, placements, n);
    lemma_image_sorted(module, placements, n);
    assert forall|i: int| 0 <= i < image.len() implies 0 < (#[trigger] image[i]).bytes.len()
        && image[i].base + image[i].bytes.len() <= ADDRESSES by {
        assert(comes_from(module, placements, image[i], n));
    }
    lemma_words_found(image, value, image.len() as int);
    assert forall|address: u32|
        (#[trigger] image_word(image, address) == Some(value)) == exists|i: int|
            0 <= i < found.len() && spot(#[trigger] found[i]) == address by {
        bytes_are_held_where_a_segment_covers_them(image, address, 4);
        if image_word(image, address) == Some(value) {
            let k = choose|k: int|
                0 <= k < image.len() && covers_all(#[trigger] image[k], address, 4);
            lemma_one_covers(image, address, 4, k);
            lemma_bytes_of_the_one(image, address, 4, k);
            let at = address - image[k].base;
            assert(word_stands(image[k].bytes, at, value));
            assert(found.contains(located(image[k], at as u32)));
            let i = choose|i: int|
                0 <= i < found.len() && found[i] == located(image[k], at as u32);
            assert(spot(found[i]) == address);
        }
        if exists|i: int| 0 <= i < found.len() && spot(#[trigger] found[i]) == address {
            let i = choose|i: int| 0 <= i < found.len() && spot(#[trigger] found[i]) == address;
            let k = choose|k: int|
                0 <= k < image.len() && marks(#[trigger] image[k], value, found[i]);
            assert(address == image[k].base + found[i].offset);
            assert(covers_all(image[k], address, 4));
            lemma_one_covers(image, address, 4, k);
            lemma_bytes_of_the_one(image, address, 4, k);
        }
    }
}

// ---- texts ----

/// Whether a character may stand in a readable text.
pub open spec fn readable_char(c: char, spaces: bool) -> bool {
    '!' <= c <= '~' || (spaces && c == ' ')
}

/// Whether a text stands at an address: its characters, each readable, and a NUL
/// after them.
pub open spec fn stands_at(
    image: Seq<PlacedModel>,
    address: i32,
    text: Seq<char>,
    spaces: bool,
) -> bool {
    &&& 1 <= text.len() <= LONGEST_READ
    &&& forall|i: int|
        0 <= i < text.len() ==> readable_char(#[trigger] text[i], spaces) && image_bytes(
            image,
            address.wrapping_add(i as i32) as u32,
            1,
        ) == Some(seq![text[i] as u8])
    &&& image_bytes(image, address.wrapping_add(text.len() as i32) as u32, 1) == Some(seq![0u8])
}

/// Whether bytes stand at an address: each readable, and a NUL after them.
spec fn bytes_stand_at(
    image: Seq<PlacedModel>,
    address: i32,
    bytes: Seq<u8>,
    spaces: bool,
) -> bool {
    &&& forall|i: int|
        0 <= i < bytes.len() ==> readable_byte(#[trigger] bytes[i], spaces) && image_byte(
            image,
            address.wrapping_add(i as i32) as u32,
        ) == Some(bytes[i])
    &&& image_byte(image, address.wrapping_add(bytes.len() as i32) as u32) == Some(0u8)
}

/// As many bytes are read as were asked for.
proof fn lemma_as_many(image: Seq<PlacedModel>, address: u32, length: int)
    requires
        length >= 0,
    ensures
        match image_bytes(image, address, length) {
            Some(bytes) => bytes.len() == length,
            None => true,
        },
    decreases image.len(),
{
    if image.len() > 0 {
        lemma_as_many(image.drop_last(), address, length);
    }
}

/// A byte is read where it is the only one.
proof fn lemma_one_byte(image: Seq<PlacedModel>, address: u32, byte: u8)
    ensures
        (image_byte(image, address) == Some(byte)) == (image_bytes(image, address, 1) == Some(
            seq![byte],
        )),
{
    lemma_as_many(image, address, 1);
    match image_bytes(image, address, 1) {
        Some(bytes) => {
            if bytes[0] == byte {
                assert(bytes =~= seq![byte]);
            }
        },
        None => {},
    }
}

/// What is read up to a NUL is what stands there.
proof fn lemma_text_bytes(
    image: Seq<PlacedModel>,
    address: i32,
    spaces: bool,
    n: int,
    bytes: Seq<u8>,
)
    requires
        0 <= n <= LONGEST_READ,
        bytes.len() <= LONGEST_READ,
    ensures
        (text_bytes(image, address, spaces, n) == Some(bytes)) == (bytes.len() <= LONGEST_READ - n
            && bytes_stand_at(image, address, bytes, spaces)),
    decreases LONGEST_READ - n,
{
    let next = address.wrapping_add(1);
    assert(address.wrapping_add(0) == address);
    if bytes.len() == 0 {
        assert(bytes =~= Seq::<u8>::empty());
    } else {
        assert(bytes_stand_at(image, address, bytes, spaces) ==> readable_byte(bytes[0], spaces)
            && image_byte(image, address as u32) == Some(bytes[0]));
    }
    match image_byte(image, address as u32) {
        None => {},
        Some(byte) => if byte != 0 && readable_byte(byte, spaces) && n < LONGEST_READ {
            if bytes.len() > 0 {
                let rest = bytes.drop_first();
                lemma_text_bytes(image, next, spaces, n + 1, rest);
                assert forall|i: int| 0 <= i <= rest.len() implies #[trigger] next.wrapping_add(
                    i as i32,
                ) == address.wrapping_add((i + 1) as i32) by {}
                assert(next.wrapping_add(rest.len() as i32) == address.wrapping_add(
                    bytes.len() as i32,
                ));
                assert(seq![bytes[0]] + rest =~= bytes);
                if text_bytes(image, address, spaces, n) == Some(bytes) {
                    let read = text_bytes(image, next, spaces, n + 1)->0;
                    assert((seq![byte] + read)[0] == byte);
                    assert((seq![byte] + read).drop_first() =~= read);
                    assert forall|i: int| 0 <= i < bytes.len() implies readable_byte(
                        #[trigger] bytes[i],
                        spaces,
                    ) && image_byte(image, address.wrapping_add(i as i32) as u32) == Some(
                        bytes[i],
                    ) by {
                        if i > 0 {
                            assert(rest[i - 1] == bytes[i]);
                            assert(next.wrapping_add((i - 1) as i32) == address.wrapping_add(
                                i as i32,
                            ));
                        }
                    }
                }
                if bytes.len() <= LONGEST_READ - n && bytes_stand_at(
                    image,
                    address,
                    bytes,
                    spaces,
                ) {
                    assert forall|i: int| 0 <= i < rest.len() implies readable_byte(
                        #[trigger] rest[i],
                        spaces,
                    ) && image_byte(image, next.wrapping_add(i as i32) as u32) == Some(
                        rest[i],
                    ) by {
                        assert(bytes[i + 1] == rest[i]);
                        assert(next.wrapping_add(i as i32) == address.wrapping_add((i + 1) as i32));
                    }
                }
            } else {
                if text_bytes(image, address, spaces, n) == Some(bytes) {
                    assert((seq![byte] + text_bytes(image, next, spaces, n + 1)->0).len() > 0);
                }
            }
        },
    }
}

/// What is read is no longer than may be read.
proof fn lemma_text_is_short(image: Seq<PlacedModel>, address: i32, spaces: bool, n: int)
    requires
        0 <= n <= LONGEST_READ,
    ensures
        match text_bytes(image, address, spaces, n) {
            Some(bytes) => bytes.len() <= LONGEST_READ - n,
            None => true,
        },
    decreases LONGEST_READ - n,
{
    if n < LONGEST_READ {
        lemma_text_is_short(image, address.wrapping_add(1), spaces, n + 1);
    }
}

/// A text is read at an address exactly where it stands there: between one readable
/// character and the most that are read, and a NUL directly after them.
pub proof fn a_text_is_what_stands_there(
    image: Seq<PlacedModel>,
    address: i32,
    spaces: bool,
    text: Seq<char>,
)
    ensures
        (image_text(image, address, spaces) == Some(text)) == stands_at(
            image,
            address,
            text,
            spaces,
        ),
{
    lemma_text_is_short(image, address, spaces, 0);
    if image_text(image, address, spaces) == Some(text) {
        let bytes = text_bytes(image, address, spaces, 0)->0;
        lemma_text_bytes(image, address, spaces, 0, bytes);
        assert(text == ascii_text(bytes));
        assert forall|i: int| 0 <= i < text.len() implies readable_char(#[trigger] text[i], spaces)
            && image_bytes(image, address.wrapping_add(i as i32) as u32, 1) == Some(
            seq![text[i] as u8],
        ) by {
            assert(readable_byte(bytes[i], spaces));
            lemma_one_byte(image, address.wrapping_add(i as i32) as u32, bytes[i]);
        }
        lemma_one_byte(image, address.wrapping_add(text.len() as i32) as u32, 0);
    }
    if stands_at(image, address, text, spaces) {
        let bytes = text.map_values(|c: char| c as u8);
        assert forall|i: int| 0 <= i < bytes.len() implies readable_byte(#[trigger] bytes[i], spaces)
            && image_byte(image, address.wrapping_add(i as i32) as u32) == Some(bytes[i]) by {
            assert(readable_char(text[i], spaces));
            lemma_one_byte(image, address.wrapping_add(i as i32) as u32, bytes[i]);
        }
        lemma_one_byte(image, address.wrapping_add(text.len() as i32) as u32, 0);
        lemma_text_bytes(image, address, spaces, 0, bytes);
        assert forall|i: int| 0 <= i < text.len() implies #[trigger] ascii_text(bytes)[i]
            == text[i] by {
            assert(readable_char(text[i], spaces));
        }
        assert(ascii_text(bytes) =~= text);
    }
}

/// A text without a space reads the same whether or not spaces count, and one with a
/// space is none where they do not.
pub proof fn without_a_space_both_readings_agree(
    image: Seq<PlacedModel>,
    address: i32,
    text: Seq<char>,
)
    ensures
        (image_text(image, address, false) == Some(text)) == (image_text(image, address, true)
            == Some(text) && !text.contains(' ')),
        image_text(image, address, true) == Some(text) && text.contains(' ') ==> image_text(
            image,
            address,
            false,
        ) is None,
{
    lemma_readings(image, address, text);
    match image_text(image, address, false) {
        Some(other) => {
            lemma_readings(image, address, other);
        },
        None => {},
    }
}

/// What is read where spaces do not count is what is read where they do, and holds
/// none.
proof fn lemma_readings(image: Seq<PlacedModel>, address: i32, text: Seq<char>)
    ensures
        (image_text(image, address, false) == Some(text)) == (image_text(image, address, true)
            == Some(text) && !text.contains(' ')),
{
    a_text_is_what_stands_there(image, address, false, text);
    a_text_is_what_stands_there(image, address, true, text);
    if stands_at(image, address, text, false) {
        assert forall|i: int| 0 <= i < text.len() implies readable_char(#[trigger] text[i], true)
            && text[i] != ' ' by {
            assert(readable_char(text[i], false));
        }
    }
    if stands_at(image, address, text, true) && !text.contains(' ') {
        assert forall|i: int| 0 <= i < text.len() implies readable_char(
            #[trigger] text[i],
            false,
        ) by {
            assert(readable_char(text[i], true));
            assert(text.contains(text[i]));
        }
    }
}

} // verus!
