//! The data segments as one addressable image.

use vstd::prelude::*;
use std::collections::BTreeMap;
use crate::analysis::placement::{Placement, ascii_text, placement_at, shown};
use crate::module::types::{ConstExpr, DataSegment, Module};
use crate::rt::words::le_value;
use crate::text::pieces::text_of;

verus! {

/// Where an address sits in the module's data.
///
/// An address is not a file offset, and the segment that covers it is what turns
/// one into the other. An address no segment covers is not an error: it is memory
/// the module never initialises.
#[derive(Debug, Clone, Copy, PartialEq, Eq, Structural)]
pub struct Located {
    /// Which data segment, by index into the module's.
    pub segment: u32,
    /// Where the segment starts in guest memory.
    pub base: u32,
    /// How far into the segment the address is.
    pub offset: u32,
    /// The segment's length in bytes.
    pub length: u32,
    /// Whether the segment declares its own address.
    pub active: bool,
    /// Where this address's byte sits in the wasm file.
    pub file_offset: u32,
}

impl Located {
    /// The guest address this located.
    pub fn address(&self) -> (address: u32)
        ensures
            address == self.base.wrapping_add(self.offset),
    {
        self.base.wrapping_add(self.offset)
    }
}

/// One placed data segment.
pub struct Placed<'a> {
    /// Its index.
    pub index: u32,
    /// Where it starts in guest memory.
    pub base: u32,
    /// Its bytes.
    pub bytes: &'a [u8],
    /// Whether it declares its own address.
    pub active: bool,
    /// Where its bytes start in the file.
    pub file_offset: u32,
}

/// What a [`Placed`] is.
pub struct PlacedModel {
    /// Its index.
    pub index: u32,
    /// Where it starts in guest memory.
    pub base: u32,
    /// Its bytes.
    pub bytes: Seq<u8>,
    /// Whether it declares its own address.
    pub active: bool,
    /// Where its bytes start in the file.
    pub file_offset: u32,
}

impl<'a> View for Placed<'a> {
    type V = PlacedModel;

    open spec fn view(&self) -> PlacedModel {
        PlacedModel {
            index: self.index,
            base: self.base,
            bytes: self.bytes@,
            active: self.active,
            file_offset: self.file_offset,
        }
    }
}

/// The data segments as one addressable image.
///
/// Everything here is what the module *starts* with: nothing that ran has
/// written to it yet.
pub struct DataImage<'a> {
    /// Each placed segment, sorted by address.
    pub segments: Vec<Placed<'a>>,
}

impl<'a> View for DataImage<'a> {
    type V = Seq<PlacedModel>;

    open spec fn view(&self) -> Seq<PlacedModel> {
        self.segments@.map_values(|placed: Placed<'a>| placed@)
    }
}

/// Where a segment starts in guest memory, and whether it says so itself. A
/// placement records where a *part* of a segment went; the segment's own start is
/// that much earlier.
pub open spec fn base_of(segment: DataSegment, placement: Option<Placement>) -> Option<(u32, bool)> {
    match segment.offset {
        Some(ConstExpr::I32(base)) => Some((base as u32, true)),
        Some(_) => None,
        None => match placement {
            Some(placement) => if placement.offset <= placement.address as u32 {
                Some(((placement.address as u32 - placement.offset) as u32, false))
            } else {
                None
            },
            None => None,
        },
    }
}

/// A segment as the image holds it, if it can be placed and is not empty.
pub open spec fn placed_segment(
    segment: DataSegment,
    placement: Option<Placement>,
    index: int,
) -> Option<PlacedModel> {
    match base_of(segment, placement) {
        Some((base, active)) => if segment.bytes@.len() > 0 {
            Some(
                PlacedModel {
                    index: index as u32,
                    base,
                    bytes: segment.bytes@,
                    active,
                    file_offset: segment.file_offset,
                },
            )
        } else {
            None
        },
        None => None,
    }
}

/// A list by base with one more in its place, after those of the same base.
pub open spec fn insert_by_base(list: Seq<PlacedModel>, placed: PlacedModel) -> Seq<PlacedModel>
    decreases list.len(),
{
    if list.len() == 0 {
        seq![placed]
    } else if list.last().base <= placed.base {
        list.push(placed)
    } else {
        insert_by_base(list.drop_last(), placed).push(list.last())
    }
}

/// The first `n` segments of a module that can be placed, by base, and where
/// bases agree in the order the module has them.
pub open spec fn image_of(
    module: &Module,
    placements: Map<u32, Placement>,
    n: int,
) -> Seq<PlacedModel>
    decreases n,
{
    if n <= 0 {
        Seq::empty()
    } else {
        let before = image_of(module, placements, n - 1);
        match placed_segment(module.datas@[n - 1], placement_at(placements, n - 1), n - 1) {
            Some(placed) => insert_by_base(before, placed),
            None => before,
        }
    }
}

/// Whether a list is sorted by base.
pub open spec fn by_base(list: Seq<PlacedModel>) -> bool {
    forall|i: int, j: int| 0 <= i < j < list.len() ==> list[i].base <= list[j].base
}

/// Inserting by base keeps a list sorted, and puts nothing below what was there.
pub proof fn lemma_insert_sorted(list: Seq<PlacedModel>, placed: PlacedModel)
    requires
        by_base(list),
    ensures
        by_base(insert_by_base(list, placed)),
        insert_by_base(list, placed).len() == list.len() + 1,
        forall|i: int|
            0 <= i < insert_by_base(list, placed).len() ==> (#[trigger] insert_by_base(
                list,
                placed,
            )[i]).base <= placed.base || list.len() > 0 && insert_by_base(list, placed)[i].base
                <= list.last().base,
    decreases list.len(),
{
    if list.len() > 0 && list.last().base > placed.base {
        let front = list.drop_last();
        lemma_insert_sorted(front, placed);
        let rest = insert_by_base(front, placed);
        assert forall|i: int| 0 <= i < rest.len() implies rest[i].base <= list.last().base by {
            if front.len() > 0 {
                assert(front.last().base <= list.last().base);
            }
        }
    }
}

/// The image is sorted by base.
pub proof fn lemma_image_sorted(module: &Module, placements: Map<u32, Placement>, n: int)
    ensures
        by_base(image_of(module, placements, n)),
    decreases n,
{
    if n > 0 {
        lemma_image_sorted(module, placements, n - 1);
        match placed_segment(module.datas@[n - 1], placement_at(placements, n - 1), n - 1) {
            Some(placed) => {
                lemma_insert_sorted(image_of(module, placements, n - 1), placed);
            },
            None => {},
        }
    }
}

/// Where a segment goes in a sorted list: before everything of a higher base.
proof fn lemma_insert_at(list: Seq<PlacedModel>, placed: PlacedModel, at: int)
    requires
        0 <= at <= list.len(),
        at > 0 ==> list[at - 1].base <= placed.base,
        forall|i: int| at <= i < list.len() ==> (#[trigger] list[i]).base > placed.base,
    ensures
        insert_by_base(list, placed) == list.insert(at, placed),
    decreases list.len(),
{
    if list.len() == 0 {
        assert(list.insert(at, placed) =~= seq![placed]);
    } else if list.last().base <= placed.base {
        assert(at == list.len());
        assert(list.insert(at, placed) =~= list.push(placed));
    } else {
        let front = list.drop_last();
        assert(at < list.len());
        assert(at > 0 ==> front[at - 1] == list[at - 1]);
        lemma_insert_at(front, placed, at);
        assert(list.insert(at, placed) =~= front.insert(at, placed).push(list.last()));
    }
}

/// The last segment of a sorted image that starts at or before an address.
pub open spec fn last_below(image: Seq<PlacedModel>, address: u32) -> int
    decreases image.len(),
{
    if image.len() == 0 {
        -1
    } else if image.last().base <= address {
        image.len() - 1
    } else {
        last_below(image.drop_last(), address)
    }
}

/// Whether a segment covers all of a range.
pub open spec fn covers_all(placed: PlacedModel, address: u32, length: int) -> bool {
    placed.base <= address && address - placed.base + length <= placed.bytes.len()
}

/// The bytes at an address, if a segment covers all of them: of several that do,
/// those of the one nearest below.
pub open spec fn image_bytes(image: Seq<PlacedModel>, address: u32, length: int) -> Option<Seq<u8>>
    decreases image.len(),
{
    if image.len() == 0 {
        None
    } else if covers_all(image.last(), address, length) {
        let within = address - image.last().base;
        Some(image.last().bytes.subrange(within, within + length))
    } else {
        image_bytes(image.drop_last(), address, length)
    }
}

/// The byte at an address.
pub open spec fn image_byte(image: Seq<PlacedModel>, address: u32) -> Option<u8> {
    match image_bytes(image, address, 1) {
        Some(bytes) => Some(bytes[0]),
        None => None,
    }
}

/// The 32-bit little-endian word at an address.
pub open spec fn image_word(image: Seq<PlacedModel>, address: u32) -> Option<i32> {
    match image_bytes(image, address, 4) {
        Some(bytes) => Some((le_value(bytes) as u32) as i32),
        None => None,
    }
}

/// Where a position in a segment is.
pub open spec fn located(placed: PlacedModel, offset: u32) -> Located {
    Located {
        segment: placed.index,
        base: placed.base,
        offset,
        length: placed.bytes.len() as u32,
        active: placed.active,
        file_offset: placed.file_offset.wrapping_add(offset),
    }
}

/// Whether a segment covers an address.
pub open spec fn covers(placed: PlacedModel, address: u32) -> bool {
    address >= placed.base && address - placed.base < placed.bytes.len() as u32
}

/// The first segment from `i` on that covers an address.
pub open spec fn located_from(image: Seq<PlacedModel>, address: u32, i: int) -> Option<Located>
    decreases image.len() - i,
{
    if i < 0 || i >= image.len() {
        None
    } else if covers(image[i], address) {
        Some(located(image[i], (address - image[i].base) as u32))
    } else {
        located_from(image, address, i + 1)
    }
}

/// The highest end of the segments, as 32-bit addresses.
pub open spec fn highest_end(image: Seq<PlacedModel>) -> u32
    decreases image.len(),
{
    if image.len() == 0 {
        0
    } else {
        let end = image.last().base.wrapping_add(image.last().bytes.len() as u32);
        let before = highest_end(image.drop_last());
        if image.len() == 1 || end >= before {
            end
        } else {
            before
        }
    }
}

/// Whether the four bytes of a word stand at an offset.
pub open spec fn word_stands(bytes: Seq<u8>, offset: int, value: i32) -> bool {
    0 <= offset && offset + 4 <= bytes.len() && (le_value(bytes.subrange(offset, offset + 4)) as u32)
        as i32 == value
}

/// Where a word stands in the first `n` windows of a segment.
pub open spec fn words_in(placed: PlacedModel, value: i32, n: int) -> Seq<Located>
    decreases n,
{
    if n <= 0 {
        Seq::empty()
    } else if word_stands(placed.bytes, n - 1, value) {
        words_in(placed, value, n - 1).push(located(placed, (n - 1) as u32))
    } else {
        words_in(placed, value, n - 1)
    }
}

/// How many words of four bytes start in a run of bytes.
pub open spec fn windows(len: nat) -> int {
    if len >= 4 {
        len - 3
    } else {
        0
    }
}

/// Everywhere a word stands in the first `n` segments.
pub open spec fn words_found(image: Seq<PlacedModel>, value: i32, n: int) -> Seq<Located>
    decreases n,
{
    if n <= 0 {
        Seq::empty()
    } else {
        words_found(image, value, n - 1) + words_in(
            image[n - 1],
            value,
            windows(image[n - 1].bytes.len()),
        )
    }
}

/// Whether a byte may stand in a readable text: graphic ASCII, and the space
/// where spaces count.
pub open spec fn readable_byte(byte: u8, spaces: bool) -> bool {
    0x21 <= byte <= 0x7e || (spaces && byte == 0x20)
}

/// The longest text that is read.
pub const LONGEST_READ: usize = 512;

/// The bytes of the text at an address up to its NUL, `n` bytes of it having been
/// read.
pub open spec fn text_bytes(
    image: Seq<PlacedModel>,
    address: i32,
    spaces: bool,
    n: int,
) -> Option<Seq<u8>>
    decreases LONGEST_READ - n,
{
    match image_byte(image, address as u32) {
        None => None,
        Some(byte) => if byte == 0 {
            Some(Seq::empty())
        } else if !readable_byte(byte, spaces) || n >= LONGEST_READ {
            None
        } else {
            match text_bytes(image, address.wrapping_add(1), spaces, n + 1) {
                Some(rest) => Some(seq![byte] + rest),
                None => None,
            }
        },
    }
}

/// The text at an address: readable, NUL-terminated and not empty.
pub open spec fn image_text(image: Seq<PlacedModel>, address: i32, spaces: bool) -> Option<
    Seq<char>,
> {
    match text_bytes(image, address, spaces, 0) {
        Some(bytes) => if bytes.len() > 0 {
            Some(ascii_text(bytes))
        } else {
            None
        },
        None => None,
    }
}

impl<'a> DataImage<'a> {
    /// The segments are sorted by base.
    pub open spec fn wf(&self) -> bool {
        by_base(self@)
    }

    /// Builds the image from a module and the placements the analysis recovered.
    ///
    /// A passive segment says nothing about where it goes, so without the
    /// placements a threaded module's data is entirely unaddressable.
    pub fn of(module: &'a Module, placements: &BTreeMap<u32, Placement>) -> (image: Self)
        ensures
            image.wf(),
            image@ == image_of(module, placements@, module.datas@.len() as int),
    {
        let mut image: DataImage<'a> = DataImage { segments: Vec::new() };
        let mut index: usize = 0;
        assert(image@ =~= Seq::empty());
        while index < module.datas.len()
            invariant
                index <= module.datas@.len(),
                image@ == image_of(module, placements@, index as int),
            decreases module.datas@.len() - index,
        {
            let ghost before = image@;
            proof {
                lemma_image_sorted(module, placements@, index as int);
            }
            let segment: &'a DataSegment = &module.datas[index];
            let base: Option<(u32, bool)> = match segment.offset {
                Some(ConstExpr::I32(base)) => Some((base as u32, true)),
                Some(_) => None,
                None => match placements.get(&(index as u32)) {
                    Some(placement) => match (placement.address as u32).checked_sub(
                        placement.offset,
                    ) {
                        Some(base) => Some((base, false)),
                        None => None,
                    },
                    None => None,
                },
            };
            match base {
                Some((base, active)) => {
                    if segment.bytes.len() > 0 {
                        let placed: Placed<'a> = Placed {
                            index: index as u32,
                            base,
                            bytes: segment.bytes.as_slice(),
                            active,
                            file_offset: segment.file_offset,
                        };
                        let mut at: usize = image.segments.len();
                        while at > 0 && image.segments[at - 1].base > base
                            invariant
                                at <= image.segments@.len(),
                                image@ == before,
                                forall|i: int|
                                    at <= i < before.len() ==> (#[trigger] before[i]).base > base,
                            decreases at,
                        {
                            assert(before[at - 1].base == image.segments@[at - 1].base);
                            at = at - 1;
                        }
                        proof {
                            assert(at > 0 ==> before[at - 1].base == image.segments@[at - 1].base);
                            lemma_insert_at(before, placed@, at as int);
                        }
                        image.segments.insert(at, placed);
                        assert(image@ =~= before.insert(at as int, placed@));
                    }
                },
                None => {},
            }
            index = index + 1;
        }
        proof {
            lemma_image_sorted(module, placements@, module.datas@.len() as int);
        }
        image
    }

    /// How many segments the image could place.
    pub fn placed(&self) -> (count: usize)
        ensures
            count == self@.len(),
    {
        self.segments.len()
    }

    /// The address range the placed segments span, lowest base to highest end.
    pub fn extent(&self) -> (range: Option<(u32, u32)>)
        ensures
            range == if self@.len() == 0 {
                None
            } else {
                Some((self@[0].base, highest_end(self@)))
            },
    {
        if self.segments.len() == 0 {
            return None;
        }
        let low: u32 = self.segments[0].base;
        let mut high: u32 = 0;
        let mut i: usize = 0;
        assert(self@.take(0) =~= Seq::empty());
        while i < self.segments.len()
            invariant
                i <= self.segments@.len(),
                high == highest_end(self@.take(i as int)),
            decreases self.segments@.len() - i,
        {
            let placed: &Placed<'a> = &self.segments[i];
            let end: u32 = placed.base.wrapping_add(placed.bytes.len() as u32);
            proof {
                let next = self@.take(i + 1);
                assert(next.drop_last() =~= self@.take(i as int));
                assert(next.last() == placed@);
            }
            if i == 0 || end >= high {
                high = end;
            }
            i = i + 1;
        }
        assert(self@.take(i as int) =~= self@);
        Some((low, high))
    }

    /// Where a position in a segment is.
    fn describe(&self, i: usize, offset: u32) -> (place: Located)
        requires
            i < self@.len(),
        ensures
            place == located(self@[i as int], offset),
    {
        let placed: &Placed<'a> = &self.segments[i];
        Located {
            segment: placed.index,
            base: placed.base,
            offset,
            length: placed.bytes.len() as u32,
            active: placed.active,
            file_offset: placed.file_offset.wrapping_add(offset),
        }
    }

    /// Which segment covers an address, if one does.
    ///
    /// Linear rather than binary: segments can overlap and can share a base, and
    /// the first covering one is the answer a reader wants.
    pub fn locate(&self, address: i32) -> (place: Option<Located>)
        ensures
            place == located_from(self@, address as u32, 0),
    {
        let wanted: u32 = address as u32;
        let mut i: usize = 0;
        while i < self.segments.len()
            invariant
                i <= self.segments@.len(),
                wanted == address as u32,
                located_from(self@, address as u32, 0) == located_from(self@, wanted, i as int),
            decreases self.segments@.len() - i,
        {
            let base: u32 = self.segments[i].base;
            let len: u32 = self.segments[i].bytes.len() as u32;
            assert(self@[i as int] == self.segments@[i as int]@);
            if wanted >= base && wanted - base < len {
                return Some(self.describe(i, wanted - base));
            }
            i = i + 1;
        }
        None
    }

    /// The position of the last segment that starts at or before an address.
    fn below(&self, address: u32) -> (at: Option<usize>)
        ensures
            match at {
                Some(at) => at < self@.len() && last_below(self@, address) == at
                    && self@[at as int].base <= address,
                None => last_below(self@, address) == -1,
            },
    {
        let mut i: usize = self.segments.len();
        assert(self@.take(i as int) =~= self@);
        while i > 0
            invariant
                i <= self.segments@.len(),
                last_below(self@, address) == last_below(self@.take(i as int), address),
            decreases i,
        {
            proof {
                let here = self@.take(i as int);
                assert(here.last() == self.segments@[i - 1]@);
                assert(here.drop_last() =~= self@.take(i - 1));
            }
            if self.segments[i - 1].base <= address {
                return Some(i - 1);
            }
            i = i - 1;
        }
        None
    }

    /// The segment nearest below an address, for saying what a miss is near.
    pub fn nearest_below(&self, address: i32) -> (place: Option<Located>)
        requires
            self.wf(),
        ensures
            ({
                let at = last_below(self@, address as u32);
                place == if at < 0 {
                    None
                } else {
                    Some(located(self@[at], (address as u32 - self@[at].base) as u32))
                }
            }),
    {
        match self.below(address as u32) {
            Some(at) => {
                let offset: u32 = address as u32 - self.segments[at].base;
                Some(self.describe(at, offset))
            },
            None => None,
        }
    }

    /// The bytes at an address, if a segment covers all of them.
    ///
    /// `None` covers both "no segment is there" and "the range runs off the end
    /// of the one that is": a read that spans two segments is not answered from
    /// one of them, because the gap between them is not in the module at all.
    /// Where segments overlap, the one nearest below that covers the range answers.
    pub fn bytes(&self, address: i32, length: usize) -> (bytes: Option<&'a [u8]>)
        ensures
            match bytes {
                Some(bytes) => image_bytes(self@, address as u32, length as int) == Some(bytes@)
                    && bytes@.len() == length,
                None => image_bytes(self@, address as u32, length as int) is None,
            },
    {
        let wanted: u32 = address as u32;
        let mut i: usize = self.segments.len();
        assert(self@.take(i as int) =~= self@);
        while i > 0
            invariant
                i <= self.segments@.len(),
                wanted == address as u32,
                image_bytes(self@, wanted, length as int) == image_bytes(
                    self@.take(i as int),
                    wanted,
                    length as int,
                ),
            decreases i,
        {
            let placed: &Placed<'a> = &self.segments[i - 1];
            proof {
                let here = self@.take(i as int);
                assert(here.last() == placed@);
                assert(here.drop_last() =~= self@.take(i - 1));
            }
            if placed.base <= wanted {
                let within: usize = (wanted - placed.base) as usize;
                let total: usize = placed.bytes.len();
                if within <= total && length <= total - within {
                    return Some(vstd::slice::slice_subrange(placed.bytes, within, within + length));
                }
            }
            i = i - 1;
        }
        None
    }

    /// The byte at an address.
    fn byte(&self, address: i32) -> (byte: Option<u8>)
        ensures
            byte == image_byte(self@, address as u32),
    {
        match self.bytes(address, 1) {
            Some(bytes) => Some(bytes[0]),
            None => None,
        }
    }

    /// The 32-bit little-endian word at an address.
    pub fn read32(&self, address: i32) -> (word: Option<i32>)
        ensures
            word == image_word(self@, address as u32),
    {
        match self.bytes(address, 4) {
            Some(bytes) => {
                let four: Vec<u8> = vstd::slice::slice_to_vec(bytes);
                assert(four@.subrange(0, 4) =~= four@);
                Some((crate::rt::words::read_le(&four, 0, 4) as u32) as i32)
            },
            None => None,
        }
    }

    /// Whether any segment covers this address.
    pub fn holds(&self, address: i32) -> (yes: bool)
        ensures
            yes == image_bytes(self@, address as u32, 1) is Some,
    {
        self.bytes(address, 1).is_some()
    }

    /// Every address at which the four bytes of `value` appear in the data.
    ///
    /// A function pointer installed in a vtable is never pushed by any
    /// instruction, so a search of the code finds nothing.
    pub fn find32(&self, value: i32) -> (found: Vec<Located>)
        ensures
            found@ == words_found(self@, value, self@.len() as int),
    {
        let mut found: Vec<Located> = Vec::new();
        let mut i: usize = 0;
        while i < self.segments.len()
            invariant
                i <= self.segments@.len(),
                found@ == words_found(self@, value, i as int),
            decreases self.segments@.len() - i,
        {
            let ghost before = found@;
            let bytes: Vec<u8> = vstd::slice::slice_to_vec(self.segments[i].bytes);
            let ghost placed = self@[i as int];
            let mut offset: usize = 0;
            assert(before + words_in(placed, value, 0) =~= before);
            while offset < bytes.len() && bytes.len() - offset >= 4
                invariant
                    i < self.segments@.len(),
                    placed == self@[i as int],
                    bytes@ == placed.bytes,
                    offset <= windows(bytes@.len()),
                    found@ == before + words_in(placed, value, offset as int),
                decreases bytes@.len() - offset,
            {
                let word: i32 = (crate::rt::words::read_le(&bytes, offset, 4) as u32) as i32;
                if word == value {
                    found.push(self.describe(i, offset as u32));
                }
                offset = offset + 1;
                assert(found@ =~= before + words_in(placed, value, offset as int));
            }
            i = i + 1;
        }
        found
    }

    /// Reads the text at an address.
    fn read_text(&self, address: i32, spaces: bool) -> (text: Option<String>)
        ensures
            shown(text) == image_text(self@, address, spaces),
    {
        let mut out: Vec<char> = Vec::new();
        let ghost mut read: Seq<u8> = Seq::empty();
        let mut cursor: i32 = address;
        proof {
            if text_bytes(self@, address, spaces, 0) is Some {
                assert(read + text_bytes(self@, address, spaces, 0)->0 =~= text_bytes(
                    self@,
                    address,
                    spaces,
                    0,
                )->0);
            }
        }
        loop
            invariant
                out@.len() <= LONGEST_READ,
                out@ == ascii_text(read),
                text_bytes(self@, address, spaces, 0) is Some == text_bytes(
                    self@,
                    cursor,
                    spaces,
                    out@.len() as int,
                ) is Some,
                text_bytes(self@, address, spaces, 0) is Some ==> read + text_bytes(
                    self@,
                    cursor,
                    spaces,
                    out@.len() as int,
                )->0 == text_bytes(self@, address, spaces, 0)->0,
            decreases LONGEST_READ - out@.len(),
        {
            let byte: u8 = match self.byte(cursor) {
                Some(byte) => byte,
                None => {
                    return None;
                },
            };
            if byte == 0 {
                assert(read + Seq::<u8>::empty() =~= read);
                if out.len() == 0 {
                    return None;
                }
                return Some(text_of(&out, 0, out.len()));
            }
            if !((0x21 <= byte && byte <= 0x7e) || (spaces && byte == 0x20)) || out.len()
                >= LONGEST_READ {
                return None;
            }
            out.push(byte as char);
            proof {
                if text_bytes(self@, address, spaces, 0) is Some {
                    let rest = text_bytes(
                        self@,
                        cursor.wrapping_add(1),
                        spaces,
                        out@.len() as int,
                    )->0;
                    assert(read.push(byte) + rest =~= read + (seq![byte] + rest));
                }
                read = read.push(byte);
                assert(out@ =~= ascii_text(read));
            }
            cursor = cursor.wrapping_add(1);
        }
    }

    /// The NUL-terminated readable text at an address, spaces included.
    pub fn text(&self, address: i32) -> (text: Option<String>)
        ensures
            shown(text) == image_text(self@, address, true),
    {
        self.read_text(address, true)
    }

    /// The NUL-terminated printable text at an address. A space is refused: a
    /// mangled type name never has one.
    pub fn cstring(&self, address: i32) -> (text: Option<String>)
        ensures
            shown(text) == image_text(self@, address, false),
    {
        self.read_text(address, false)
    }
}

// ---- tables of function pointers ----

/// How long a run of null slots may be before it is the end of the table.
///
/// A pure virtual function is a zero in the middle of a vtable; the zeros after
/// the last method are the next object.
pub const NULL_RUN: usize = 4;

/// How many addresses there are.
pub const ADDRESSES: u64 = 0x1_0000_0000;

/// The word at an address. After the last address comes the first.
pub open spec fn word_at(image: Seq<PlacedModel>, at: int) -> Option<i32> {
    image_word(image, (at % (ADDRESSES as int)) as u32)
}

/// The function a word is the table index of, if it is one.
pub open spec fn live(table: Map<u32, u32>, word: i32) -> Option<u32> {
    if word > 0 && table.contains_key(word as u32) {
        Some(table[word as u32])
    } else {
        None
    }
}

/// How many zero words stand from an address on, up to one more than a run may
/// have.
pub open spec fn zeros_from(image: Seq<PlacedModel>, at: int, n: int) -> int
    decreases NULL_RUN + 1 - n,
{
    if n <= NULL_RUN && word_at(image, at + 4 * n) == Some(0i32) {
        zeros_from(image, at, n + 1)
    } else {
        n
    }
}

/// The slots of a table of function pointers: live table indices, and runs of
/// nulls that a live index follows. It ends at the first word that is neither, and
/// no slot starts after every address has been passed once.
pub open spec fn slots_from(
    image: Seq<PlacedModel>,
    table: Map<u32, u32>,
    at: int,
) -> Seq<Option<u32>> {
    slots_before(image, table, at, at + ADDRESSES)
}

/// The slots of a table of function pointers from `at` on, before `end`.
pub open spec fn slots_before(
    image: Seq<PlacedModel>,
    table: Map<u32, u32>,
    at: int,
    end: int,
) -> Seq<Option<u32>>
    decreases end + 16 - at,
{
    if at >= end {
        Seq::empty()
    } else {
        match word_at(image, at) {
            None => Seq::empty(),
            Some(word) => match live(table, word) {
                Some(func) => seq![Some(func)] + slots_before(image, table, at + 4, end),
                None => if word != 0 {
                    Seq::empty()
                } else {
                    let run = zeros_from(image, at, 1);
                    match word_at(image, at + 4 * run) {
                        Some(after) => if 0 < run <= NULL_RUN && live(table, after) is Some {
                            Seq::new(run as nat, |i: int| None::<u32>) + slots_before(
                                image,
                                table,
                                at + 4 * run,
                                end,
                            )
                        } else {
                            Seq::empty()
                        },
                        None => Seq::empty(),
                    }
                },
            },
        }
    }
}

/// The function a word is the table index of.
fn live_func(table: &BTreeMap<u32, u32>, word: i32) -> (func: Option<u32>)
    ensures
        func == live(table@, word),
{
    if word > 0 {
        match table.get(&(word as u32)) {
            Some(func) => Some(*func),
            None => None,
        }
    } else {
        None
    }
}

/// The word at an address. After the last address comes the first.
fn read_word(image: &DataImage<'_>, at: u64) -> (word: Option<i32>)
    ensures
        word == word_at(image@, at as int),
{
    let within: u32 = (at % ADDRESSES) as u32;
    let address: i32 = within as i32;
    assert(address as u32 == within) by {
        lemma_address_round_trip(within);
    }
    image.read32(address)
}

/// An address survives being taken for a signed number.
pub proof fn lemma_address_round_trip(address: u32)
    by (bit_vector)
    ensures
        address as i32 as u32 == address,
{
}

/// Reads a table of function pointers: each slot as a function, and `None` for a
/// slot holding 0.
pub fn read_pointer_table(
    image: &DataImage<'_>,
    table: &BTreeMap<u32, u32>,
    address: i32,
) -> (slots: Vec<Option<u32>>)
    ensures
        slots@ == slots_from(image@, table@, (address as u32) as int),
{
    let mut slots: Vec<Option<u32>> = Vec::new();
    let mut cursor: u64 = address as u32 as u64;
    let ghost whole = slots_from(image@, table@, (address as u32) as int);
    let end: u64 = cursor + ADDRESSES;
    assert(slots@ + whole =~= whole);
    while cursor < end
        invariant
            cursor <= end + 16,
            end <= u32::MAX + ADDRESSES,
            whole == slots_from(image@, table@, (address as u32) as int),
            slots@ + slots_before(image@, table@, cursor as int, end as int) == whole,
        decreases end + 16 - cursor,
    {
        let ghost before = slots@;
        let word: i32 = match read_word(image, cursor) {
            Some(word) => word,
            None => {
                assert(slots@ + Seq::<Option<u32>>::empty() =~= slots@);
                return slots;
            },
        };
        match live_func(table, word) {
            Some(func) => {
                slots.push(Some(func));
                proof {
                    let rest = slots_before(image@, table@, cursor + 4, end as int);
                    assert(slots@ + rest =~= before + (seq![Some(func)] + rest));
                }
                cursor = cursor + 4;
            },
            None => {
                if word != 0 {
                    assert(slots@ + Seq::<Option<u32>>::empty() =~= slots@);
                    return slots;
                }
                let mut run: u64 = 1;
                while run <= NULL_RUN as u64 && read_word(image, cursor + 4 * run) == Some(0i32)
                    invariant
                        1 <= run <= NULL_RUN + 1,
                        cursor <= u32::MAX + ADDRESSES,
                        zeros_from(image@, cursor as int, 1) == zeros_from(
                            image@,
                            cursor as int,
                            run as int,
                        ),
                    decreases NULL_RUN + 1 - run,
                {
                    run = run + 1;
                }
                let follows: bool = match read_word(image, cursor + 4 * run) {
                    Some(after) => live_func(table, after).is_some(),
                    None => false,
                };
                if run > NULL_RUN as u64 || !follows {
                    assert(slots@ + Seq::<Option<u32>>::empty() =~= slots@);
                    return slots;
                }
                let mut n: u64 = 0;
                assert(before + Seq::new(0, |i: int| None::<u32>) =~= before);
                while n < run
                    invariant
                        n <= run,
                        slots@ == before + Seq::new(n as nat, |i: int| None::<u32>),
                    decreases run - n,
                {
                    slots.push(None);
                    n = n + 1;
                    assert(slots@ =~= before + Seq::new(n as nat, |i: int| None::<u32>));
                }
                proof {
                    let rest = slots_before(image@, table@, cursor + 4 * run, end as int);
                    let nulls = Seq::new(run as nat, |i: int| None::<u32>);
                    assert(slots@ + rest =~= before + (nulls + rest));
                }
                cursor = cursor + 4 * run;
            },
        }
    }
    assert(slots@ + Seq::<Option<u32>>::empty() =~= slots@);
    slots
}

/// The slots of a table of a stated length, from the `k`th on: as many words as
/// were asked for, whatever they hold, up to where the image ends.
pub open spec fn counted_slots(
    image: Seq<PlacedModel>,
    table: Map<u32, u32>,
    address: i32,
    k: int,
    cap: int,
) -> Seq<Option<u32>>
    decreases cap - k,
{
    if k >= cap {
        Seq::empty()
    } else {
        match image_word(image, address.wrapping_add((4 * k) as i32) as u32) {
            None => Seq::empty(),
            Some(word) => seq![live(table, word)] + counted_slots(
                image,
                table,
                address,
                k + 1,
                cap,
            ),
        }
    }
}

/// Reads a table of function pointers at an address.
///
/// `None` is a slot holding 0, which a `call_indirect` cannot survive. `cap`
/// bounds the read; without one it stops where the table stops looking like one.
/// An explicit count reads that many words whatever they hold: the caller asked,
/// and refusing would hide the bytes they asked about.
pub fn pointer_table(
    image: &DataImage<'_>,
    table: &BTreeMap<u32, u32>,
    address: i32,
    cap: Option<usize>,
) -> (slots: Vec<Option<u32>>)
    requires
        cap is Some ==> 4 * cap->0 <= usize::MAX,
    ensures
        slots@ == match cap {
            Some(cap) => counted_slots(image@, table@, address, 0, cap as int),
            None => slots_from(image@, table@, (address as u32) as int),
        },
{
    match cap {
        Some(most) => {
            let mut slots: Vec<Option<u32>> = Vec::new();
            let mut slot: usize = 0;
            let ghost whole = counted_slots(image@, table@, address, 0, most as int);
            assert(slots@ + whole =~= whole);
            while slot < most
                invariant
                    cap == Some(most),
                    4 * most <= usize::MAX,
                    slot <= most,
                    whole == counted_slots(image@, table@, address, 0, most as int),
                    slots@ + counted_slots(image@, table@, address, slot as int, most as int)
                        == whole,
                decreases most - slot,
            {
                let ghost before = slots@;
                match image.read32(address.wrapping_add((4 * slot) as i32)) {
                    Some(word) => {
                        let func: Option<u32> = live_func(table, word);
                        slots.push(func);
                        proof {
                            let rest = counted_slots(
                                image@,
                                table@,
                                address,
                                slot + 1,
                                most as int,
                            );
                            assert(slots@ + rest =~= before + (seq![func] + rest));
                        }
                    },
                    None => {
                        assert(slots@ + Seq::<Option<u32>>::empty() =~= slots@);
                        return slots;
                    },
                }
                slot = slot + 1;
            }
            assert(slots@ + Seq::<Option<u32>>::empty() =~= slots@);
            slots
        },
        None => read_pointer_table(image, table, address),
    }
}

} // verus!
