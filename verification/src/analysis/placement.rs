//! Where a module's data ends up, and what can be read there.

use vstd::prelude::*;
use std::collections::{BTreeMap, BTreeSet};
use crate::module::types::{ConstExpr, DataSegment, Module, Op};
use crate::rt::words::{le_value, read_le};
use crate::text::pieces::text_of;

verus! {

/// Where a passive data segment ends up in memory.
///
/// A module built for threads places its data with `memory.init` rather than
/// with static offsets. The address is in the code, as three constants before
/// the `memory.init`. Anything less definite than that is not recorded.
#[derive(Debug, Clone, Copy, PartialEq, Eq, Structural)]
pub struct Placement {
    /// Where the copy lands.
    pub address: i32,
    /// Where in the segment it starts.
    pub offset: u32,
    /// How many bytes.
    pub length: u32,
}

/// The placement of a segment an instruction makes: a `memory.init` of it with
/// its three operands immediately before, all constant.
pub open spec fn placed_by(body: Seq<Op>, at: int, segment: u32) -> Option<Placement> {
    if 3 <= at < body.len() && body[at] == Op::MemoryInit(segment) {
        match (body[at - 3], body[at - 2], body[at - 1]) {
            (
                Op::I32Const(address),
                Op::I32Const(offset),
                Op::I32Const(length),
            ) => if offset >= 0 && length > 0 {
                Some(Placement { address, offset: offset as u32, length: length as u32 })
            } else {
                None
            },
            _ => None,
        }
    } else {
        None
    }
}

/// Whether a module places a segment so.
pub open spec fn places(module: &Module, segment: u32, placement: Placement) -> bool {
    exists|f: int, at: int|
        0 <= f < module.funcs@.len() && #[trigger] placed_by(module.funcs@[f].body@, at, segment)
            == Some(placement)
}

/// The placements a module settles: a segment placed at two different constant
/// addresses is dropped, since both are true and neither can be used to resolve
/// an address.
pub open spec fn are_placements(map: Map<u32, Placement>, module: &Module) -> bool {
    forall|segment: u32, placement: Placement|
        (map.contains_key(segment) && map[segment] == placement) == (#[trigger] places(
            module,
            segment,
            placement,
        ) && forall|other: Placement| #[trigger]
            places(module, segment, other) ==> other == placement)
}

/// The placement an instruction makes, with its segment.
fn read_placement(body: &Vec<Op>, at: usize) -> (found: Option<(u32, Placement)>)
    requires
        at < body@.len(),
    ensures
        match found {
            Some((segment, placement)) => placed_by(body@, at as int, segment) == Some(placement),
            None => forall|segment: u32| placed_by(body@, at as int, segment) is None,
        },
{
    match &body[at] {
        Op::MemoryInit(segment) => {
            if at < 3 {
                return None;
            }
            match (&body[at - 3], &body[at - 2], &body[at - 1]) {
                (Op::I32Const(address), Op::I32Const(offset), Op::I32Const(length)) => {
                    if *offset < 0 || *length <= 0 {
                        return None;
                    }
                    Some(
                        (
                            *segment,
                            Placement {
                                address: *address,
                                offset: *offset as u32,
                                length: *length as u32,
                            },
                        ),
                    )
                },
                _ => None,
            }
        },
        _ => None,
    }
}

/// Whether the map and the set of ambiguous segments account for what was seen.
spec fn accounts(
    map: Map<u32, Placement>,
    ambiguous: Set<u32>,
    seen: Set<(u32, Placement)>,
) -> bool {
    &&& forall|segment: u32| #[trigger]
        map.contains_key(segment) ==> seen.contains((segment, map[segment]))
    &&& forall|segment: u32, placement: Placement| #[trigger]
        seen.contains((segment, placement)) ==> map.contains_key(segment) && (map[segment]
            == placement || ambiguous.contains(segment))
    &&& forall|segment: u32| #[trigger]
        ambiguous.contains(segment) ==> exists|placement: Placement| #[trigger]
            seen.contains((segment, placement)) && map.contains_key(segment) && map[segment]
                != placement
}

/// Finds where the module places its passive data segments.
///
/// Only the plainest form counts: three constants and a `memory.init`. Where the
/// address is computed, this records nothing rather than guess at it.
pub fn find_placements(module: &Module) -> (placements: BTreeMap<u32, Placement>)
    ensures
        are_placements(placements@, module),
{
    let mut placements: BTreeMap<u32, Placement> = BTreeMap::new();
    let mut ambiguous: BTreeSet<u32> = BTreeSet::new();
    let ghost mut seen: Set<(u32, Placement)> = Set::empty();
    let mut f: usize = 0;
    while f < module.funcs.len()
        invariant
            f <= module.funcs@.len(),
            accounts(placements@, ambiguous@, seen),
            ambiguous@.finite(),
            forall|segment: u32, placement: Placement| #[trigger]
                seen.contains((segment, placement)) == exists|g: int, at: int|
                    0 <= g < f && #[trigger] placed_by(module.funcs@[g].body@, at, segment)
                        == Some(placement),
        decreases module.funcs@.len() - f,
    {
        let body: &Vec<Op> = &module.funcs[f].body;
        let ghost seen_before = seen;
        let mut at: usize = 0;
        while at < body.len()
            invariant
                at <= body@.len(),
                accounts(placements@, ambiguous@, seen),
                ambiguous@.finite(),
                forall|segment: u32, placement: Placement| #[trigger]
                    seen.contains((segment, placement)) == (seen_before.contains(
                        (segment, placement),
                    ) || exists|i: int|
                        0 <= i < at && #[trigger] placed_by(body@, i, segment) == Some(placement)),
            decreases body@.len() - at,
        {
            let ghost had = seen;
            match read_placement(body, at) {
                Some((segment, placement)) => {
                    let known: Option<Placement> = match placements.get(&segment) {
                        Some(existing) => Some(*existing),
                        None => None,
                    };
                    match known {
                        Some(existing) => {
                            if existing != placement {
                                ambiguous.insert(segment);
                            }
                        },
                        None => {
                            placements.insert(segment, placement);
                        },
                    }
                    proof {
                        seen = seen.insert((segment, placement));
                        assert(accounts(placements@, ambiguous@, seen)) by {
                            assert forall|s: u32| #[trigger] ambiguous@.contains(s) implies exists|
                                p: Placement,
                            | #[trigger]
                                seen.contains((s, p)) && placements@.contains_key(s)
                                    && placements@[s] != p by {
                                if s == segment && known is Some && known->0 != placement {
                                    assert(seen.contains((s, placement)));
                                } else {
                                    let p = choose|p: Placement| #[trigger]
                                        had.contains((s, p)) && placements@.contains_key(s)
                                            && placements@[s] != p;
                                    assert(seen.contains((s, p)));
                                }
                            }
                        }
                        assert forall|s: u32, p: Placement| #[trigger]
                            seen.contains((s, p)) == (seen_before.contains((s, p)) || exists|
                                i: int,
                            |
                                0 <= i < at + 1 && #[trigger] placed_by(body@, i, s) == Some(p)) by {
                            if had.contains((s, p)) && !seen_before.contains((s, p)) {
                                let i = choose|i: int|
                                    0 <= i < at && #[trigger] placed_by(body@, i, s) == Some(p);
                                assert(placed_by(body@, i, s) == Some(p));
                            }
                            if placed_by(body@, at as int, s) == Some(p) {
                                assert(s == segment);
                            }
                        }
                    }
                },
                None => {
                    proof {
                        assert forall|s: u32, p: Placement| #[trigger]
                            seen.contains((s, p)) == (seen_before.contains((s, p)) || exists|
                                i: int,
                            |
                                0 <= i < at + 1 && #[trigger] placed_by(body@, i, s) == Some(p)) by {
                            if had.contains((s, p)) && !seen_before.contains((s, p)) {
                                let i = choose|i: int|
                                    0 <= i < at && #[trigger] placed_by(body@, i, s) == Some(p);
                                assert(placed_by(body@, i, s) == Some(p));
                            }
                        }
                    }
                },
            }
            at = at + 1;
        }
        proof {
            assert forall|s: u32, p: Placement| #[trigger]
                seen.contains((s, p)) == exists|g: int, i: int|
                    0 <= g < f + 1 && #[trigger] placed_by(module.funcs@[g].body@, i, s)
                        == Some(p) by {
                if seen_before.contains((s, p)) {
                    let (g, i) = choose|g: int, i: int|
                        0 <= g < f && #[trigger] placed_by(module.funcs@[g].body@, i, s)
                            == Some(p);
                    assert(placed_by(module.funcs@[g].body@, i, s) == Some(p));
                } else if seen.contains((s, p)) {
                    let i = choose|i: int|
                        0 <= i < at && #[trigger] placed_by(body@, i, s) == Some(p);
                    assert(placed_by(module.funcs@[f as int].body@, i, s) == Some(p));
                }
                if exists|g: int, i: int|
                    0 <= g < f + 1 && #[trigger] placed_by(module.funcs@[g].body@, i, s)
                        == Some(p) {
                    let (g, i) = choose|g: int, i: int|
                        0 <= g < f + 1 && #[trigger] placed_by(module.funcs@[g].body@, i, s)
                            == Some(p);
                    if g < f {
                        assert(seen_before.contains((s, p)));
                    } else {
                        assert(placed_by(body@, i, s) == Some(p));
                    }
                }
            }
        }
        f = f + 1;
    }
    let ghost settled = placements@;
    let dropped: Vec<u32> = crate::analysis::sets::members_u32(&ambiguous);
    let mut i: usize = 0;
    while i < dropped.len()
        invariant
            i <= dropped@.len(),
            forall|segment: u32| #[trigger]
                placements@.contains_key(segment) == (settled.contains_key(segment) && !exists|
                    j: int,
                |
                    0 <= j < i && #[trigger] dropped@[j] == segment),
            forall|segment: u32| #[trigger]
                placements@.contains_key(segment) ==> placements@[segment] == settled[segment],
        decreases dropped@.len() - i,
    {
        let ghost had = placements@;
        placements.remove(&dropped[i]);
        proof {
            assert forall|segment: u32| #[trigger]
                placements@.contains_key(segment) == (settled.contains_key(segment) && !exists|
                    j: int,
                |
                    0 <= j < i + 1 && #[trigger] dropped@[j] == segment) by {
                if exists|j: int| 0 <= j < i && #[trigger] dropped@[j] == segment {
                    let j = choose|j: int| 0 <= j < i && #[trigger] dropped@[j] == segment;
                    assert(dropped@[j] == segment);
                }
                if segment == dropped@[i as int] {
                    assert(dropped@[i as int] == segment);
                }
            }
        }
        i = i + 1;
    }
    proof {
        assert forall|segment: u32| #[trigger]
            placements@.contains_key(segment) == (settled.contains_key(segment)
                && !ambiguous@.contains(segment)) by {
            if ambiguous@.contains(segment) {
                assert(dropped@.contains(segment));
                let j = choose|j: int| 0 <= j < dropped@.len() && dropped@[j] == segment;
                assert(dropped@[j] == segment);
            }
            if exists|j: int| 0 <= j < i && #[trigger] dropped@[j] == segment {
                let j = choose|j: int| 0 <= j < i && #[trigger] dropped@[j] == segment;
                assert(dropped@.contains(dropped@[j]));
            }
        }
        assert forall|segment: u32, placement: Placement|
            places(module, segment, placement) == seen.contains((segment, placement)) by {
            if places(module, segment, placement) {
                let (g, at) = choose|g: int, at: int|
                    0 <= g < module.funcs@.len() && #[trigger] placed_by(
                        module.funcs@[g].body@,
                        at,
                        segment,
                    ) == Some(placement);
                assert(placed_by(module.funcs@[g].body@, at, segment) == Some(placement));
            }
        }
        assert forall|segment: u32, placement: Placement|
            (placements@.contains_key(segment) && placements@[segment] == placement) == (
            #[trigger] places(module, segment, placement) && forall|other: Placement| #[trigger]
                places(module, segment, other) ==> other == placement) by {
            if places(module, segment, placement) && !ambiguous@.contains(segment) {
                assert(seen.contains((segment, placement)));
            }
            if ambiguous@.contains(segment) {
                let p = choose|p: Placement| #[trigger]
                    seen.contains((segment, p)) && settled.contains_key(segment)
                        && settled[segment] != p;
                assert(places(module, segment, p));
                assert(seen.contains((segment, settled[segment])));
                assert(places(module, segment, settled[segment]));
            }
            if placements@.contains_key(segment) {
                assert(seen.contains((segment, settled[segment])));
                assert(places(module, segment, settled[segment]));
            }
        }
    }
    placements
}

// ---- static memory ----

/// The placement of a segment, if one is known.
pub open spec fn placement_at(placements: Map<u32, Placement>, index: int) -> Option<Placement> {
    if placements.contains_key(index as u32) {
        Some(placements[index as u32])
    } else {
        None
    }
}

/// Where a segment is addressed from: the address, and how far into the segment
/// it is. An active segment says where it goes; a passive one is wherever the
/// module put it, if it did so at a constant address.
pub open spec fn seat(segment: DataSegment, placement: Option<Placement>) -> Option<(i32, u32)> {
    match segment.offset {
        Some(ConstExpr::I32(base)) => Some((base, 0)),
        Some(_) => None,
        None => match placement {
            Some(placement) => Some((placement.address, placement.offset)),
            None => None,
        },
    }
}

/// Where a segment is addressed from.
fn seat_of(module: &Module, placements: &BTreeMap<u32, Placement>, index: usize) -> (found: Option<
    (i32, u32),
>)
    requires
        index < module.datas@.len(),
    ensures
        found == seat(module.datas@[index as int], placement_at(placements@, index as int)),
{
    match module.datas[index].offset {
        Some(ConstExpr::I32(base)) => Some((base, 0)),
        Some(_) => None,
        None => match placements.get(&(index as u32)) {
            Some(placement) => Some((placement.address, placement.offset)),
            None => None,
        },
    }
}

/// The word a segment has at an address, if it has all four bytes of it.
pub open spec fn word_in(bytes: Seq<u8>, seat: Option<(i32, u32)>, address: i32) -> Option<i32> {
    match seat {
        Some((base, within)) => {
            let at = address as u32 - base as u32 + within;
            if address as u32 >= base as u32 && at + 4 <= bytes.len() {
                Some((le_value(bytes.subrange(at, at + 4)) as u32) as i32)
            } else {
                None
            }
        },
        None => None,
    }
}

/// The word the first segment from `index` on that has one has at an address.
pub open spec fn static_word(
    module: &Module,
    placements: Map<u32, Placement>,
    address: i32,
    index: int,
) -> Option<i32>
    decreases module.datas@.len() - index,
{
    if index < 0 || index >= module.datas@.len() {
        None
    } else {
        let segment = module.datas@[index];
        match word_in(segment.bytes@, seat(segment, placement_at(placements, index)), address) {
            Some(word) => Some(word),
            None => static_word(module, placements, address, index + 1),
        }
    }
}

/// Reads four bytes of static memory.
///
/// The same lookup [`placed_text`] does, for a number rather than text.
pub fn static_i32(
    module: &Module,
    placements: &BTreeMap<u32, Placement>,
    address: i32,
) -> (word: Option<i32>)
    ensures
        word == static_word(module, placements@, address, 0),
{
    let mut index: usize = 0;
    while index < module.datas.len()
        invariant
            index <= module.datas@.len(),
            static_word(module, placements@, address, 0) == static_word(
                module,
                placements@,
                address,
                index as int,
            ),
        decreases module.datas@.len() - index,
    {
        match seat_of(module, placements, index) {
            Some((base, within)) => {
                let bytes: &Vec<u8> = &module.datas[index].bytes;
                if address as u32 >= base as u32 {
                    let at: u64 = (address as u32 - base as u32) as u64 + within as u64;
                    if at + 4 <= bytes.len() as u64 {
                        return Some((read_le(bytes, at as usize, 4) as u32) as i32);
                    }
                }
            },
            None => {},
        }
        index = index + 1;
    }
    None
}

/// Whether a byte may stand in a message: printable ASCII, and the whitespace
/// that appears in messages.
pub open spec fn in_message(byte: u8) -> bool {
    0x21 <= byte <= 0x7e || byte == 0x20 || byte == 0x0a || byte == 0x09
}

/// Bytes as the characters of the same numbers.
pub open spec fn ascii_text(bytes: Seq<u8>) -> Seq<char> {
    bytes.map_values(|byte: u8| byte as char)
}

/// The longest text that is shown whole.
pub const LONGEST_TEXT: usize = 120;

/// The text in a run of bytes, from the `n`th on, all before it being text.
///
/// Without a length the text runs to the next NUL; with one it is all of the
/// bytes. Past the longest that is shown it is cut.
pub open spec fn text_from(bytes: Seq<u8>, bounded: bool, shortest: nat, n: int) -> Option<Seq<char>>
    decreases bytes.len() - n,
{
    if n < 0 || n >= bytes.len() {
        if bounded && bytes.len() >= shortest {
            Some(ascii_text(bytes))
        } else {
            None
        }
    } else if bytes[n] == 0 && !bounded {
        if n >= shortest {
            Some(ascii_text(bytes.take(n)))
        } else {
            None
        }
    } else if !in_message(bytes[n]) {
        None
    } else if n == LONGEST_TEXT {
        Some(ascii_text(bytes.take(n)).push('…'))
    } else {
        text_from(bytes, bounded, shortest, n + 1)
    }
}

/// Where in a segment an address is, if it is in it.
pub open spec fn position_in(len: nat, seat: Option<(i32, u32)>, address: i32) -> Option<int> {
    match seat {
        Some((base, within)) => {
            let at = (address as u32) - (base as u32) + within;
            if (address as u32) >= (base as u32) && at < len {
                Some(at)
            } else {
                None
            }
        },
        None => None,
    }
}

/// The text at a position of a segment.
pub open spec fn text_at(bytes: Seq<u8>, at: int, length: Option<usize>, shortest: nat) -> Option<
    Seq<char>,
> {
    let available = bytes.skip(at);
    match length {
        Some(length) => if length <= available.len() {
            text_from(available.take(length as int), true, shortest, 0)
        } else {
            None
        },
        None => text_from(available, false, shortest, 0),
    }
}

/// The text at an address, in the first segment from `index` on that covers it.
pub open spec fn static_text_from(
    module: &Module,
    placements: Map<u32, Placement>,
    address: i32,
    length: Option<usize>,
    shortest: nat,
    index: int,
) -> Option<Seq<char>>
    decreases module.datas@.len() - index,
{
    if index < 0 || index >= module.datas@.len() {
        None
    } else {
        let segment = module.datas@[index];
        match position_in(
            segment.bytes@.len(),
            seat(segment, placement_at(placements, index)),
            address,
        ) {
            Some(at) => text_at(segment.bytes@, at, length, shortest),
            None => static_text_from(
                module,
                placements,
                address,
                length,
                shortest,
                index + 1,
            ),
        }
    }
}

/// A text, if there is one, as its characters.
pub open spec fn shown(text: Option<String>) -> Option<Seq<char>> {
    match text {
        Some(text) => Some(text@),
        None => None,
    }
}

/// Reads the text at a position of a segment.
fn read_text(bytes: &Vec<u8>, at: usize, length: Option<usize>, shortest: usize) -> (text: Option<
    String,
>)
    requires
        at < bytes@.len(),
    ensures
        shown(text) == text_at(bytes@, at as int, length, shortest as nat),
{
    let bounded: bool = length.is_some();
    let end: usize = match length {
        Some(length) => if length <= bytes.len() - at {
            at + length
        } else {
            return None;
        },
        None => bytes.len(),
    };
    let ghost slice = if bounded {
        bytes@.skip(at as int).take(end - at)
    } else {
        bytes@.skip(at as int)
    };
    assert(slice.len() == end - at);
    let mut text: Vec<char> = Vec::new();
    let mut n: usize = 0;
    while n < end - at
        invariant
            at <= end <= bytes@.len(),
            slice.len() == end - at,
            forall|i: int| 0 <= i < slice.len() ==> slice[i] == bytes@[at + i],
            n <= slice.len(),
            n <= LONGEST_TEXT,
            text@ == ascii_text(slice.take(n as int)),
            text_from(slice, bounded, shortest as nat, 0) == text_from(
                slice,
                bounded,
                shortest as nat,
                n as int,
            ),
            text_at(bytes@, at as int, length, shortest as nat) == text_from(
                slice,
                bounded,
                shortest as nat,
                0,
            ),
        decreases end - at - n,
    {
        let byte: u8 = bytes[at + n];
        assert(slice[n as int] == byte);
        if byte == 0 && !bounded {
            return if n >= shortest {
                Some(text_of(&text, 0, text.len()))
            } else {
                None
            };
        }
        if !((0x21 <= byte && byte <= 0x7e) || byte == 0x20 || byte == 0x0a || byte == 0x09) {
            return None;
        }
        if n == LONGEST_TEXT {
            let mut cut: String = text_of(&text, 0, text.len());
            assert(text@.subrange(0, text@.len() as int) =~= text@);
            cut.push('…');
            return Some(cut);
        }
        text.push(byte as char);
        n = n + 1;
        assert(text@ =~= ascii_text(slice.take(n as int)));
    }
    assert(slice.take(n as int) =~= slice);
    if bounded && n >= shortest {
        Some(text_of(&text, 0, text.len()))
    } else {
        None
    }
}

/// The text at an address, of a length or up to a NUL, where it is long enough.
fn static_text_placed_with(
    module: &Module,
    placements: &BTreeMap<u32, Placement>,
    address: i32,
    length: Option<usize>,
    shortest: usize,
) -> (text: Option<String>)
    ensures
        shown(text) == static_text_from(
            module,
            placements@,
            address,
            length,
            shortest as nat,
            0,
        ),
{
    let mut index: usize = 0;
    while index < module.datas.len()
        invariant
            index <= module.datas@.len(),
            static_text_from(module, placements@, address, length, shortest as nat, 0)
                == static_text_from(
                module,
                placements@,
                address,
                length,
                shortest as nat,
                index as int,
            ),
        decreases module.datas@.len() - index,
    {
        match seat_of(module, placements, index) {
            Some((base, within)) => {
                let bytes: &Vec<u8> = &module.datas[index].bytes;
                if address as u32 >= base as u32 {
                    let at: u64 = (address as u32 - base as u32) as u64 + within as u64;
                    if at < bytes.len() as u64 {
                        return read_text(bytes, at as usize, length, shortest);
                    }
                }
            },
            None => {},
        }
        index = index + 1;
    }
    None
}

/// What [`placed_text`] reads.
pub open spec fn message_at(
    module: &Module,
    placements: Map<u32, Placement>,
    address: i32,
    length: Option<usize>,
) -> Option<Seq<char>> {
    static_text_from(module, placements, address, length, 4, 0)
}

/// The NUL-terminated text at an address, if a data segment puts text there.
///
/// `None` unless the bytes really look like text: printable ASCII,
/// NUL-terminated, and long enough that it is not three bytes of a struct that
/// happen to be letters.
pub fn static_text(module: &Module, address: i32) -> (text: Option<String>)
    ensures
        shown(text) == message_at(module, Map::empty(), address, None),
{
    static_text_placed_with(module, &BTreeMap::new(), address, None, 4)
}

/// The text of a known length at an address.
///
/// Rust's strings carry a length instead of a terminator, and it is right there
/// in the code: a `&str` is passed as `i32.const ptr; i32.const len`. A length of
/// zero is an empty string, and one past a few hundred is not a message being
/// passed to something.
pub fn static_text_of_length(module: &Module, address: i32, length: u32) -> (text: Option<String>)
    ensures
        shown(text) == if length == 0 || length > 512 {
            None
        } else {
            message_at(module, Map::empty(), address, Some(length as usize))
        },
{
    if length == 0 || length > 512 {
        return None;
    }
    static_text_placed_with(module, &BTreeMap::new(), address, Some(length as usize), 4)
}

/// The text at an address, including in segments the module places itself.
pub fn placed_text(
    module: &Module,
    placements: &BTreeMap<u32, Placement>,
    address: i32,
    length: Option<u32>,
) -> (text: Option<String>)
    ensures
        shown(text) == message_at(
            module,
            placements@,
            address,
            match length {
                Some(length) => Some(length as usize),
                None => None,
            },
        ),
{
    let bytes: Option<usize> = match length {
        Some(length) => Some(length as usize),
        None => None,
    };
    static_text_placed_with(module, placements, address, bytes, 4)
}

/// Text at an address that is declared to be a name.
///
/// The same read as [`placed_text`] without its minimum length: `int` is three
/// characters, and requiring four loses the most common type in any module.
pub fn placed_name(
    module: &Module,
    placements: &BTreeMap<u32, Placement>,
    address: i32,
) -> (text: Option<String>)
    ensures
        shown(text) == static_text_from(module, placements@, address, None, 1, 0),
{
    static_text_placed_with(module, placements, address, None, 1)
}

} // verus!
