//! What holds of every text and every word that is read out of a module's data.

use vstd::prelude::*;
use crate::analysis::placement::{
    placed_by, static_text_from, static_word, text_at, text_from, Placement,
};
use crate::module::types::{ConstExpr, Module, Op};
use crate::rt::words::le_value;

verus! {

/// Where in a segment an address is: as far into it as it is past where the segment, or
/// the part of it that was placed, starts. Addresses are unsigned.
pub open spec fn position(
    module: &Module,
    placements: Map<u32, Placement>,
    k: int,
    address: i32,
) -> Option<int> {
    match module.datas@[k].offset {
        Some(ConstExpr::I32(base)) => if address as u32 >= base as u32 {
            Some(address as u32 - base as u32)
        } else {
            None
        },
        Some(_) => None,
        None => if placements.contains_key(k as u32) && address as u32
            >= placements[k as u32].address as u32 {
            Some(
                address as u32 - placements[k as u32].address as u32 + placements[k as u32].offset,
            )
        } else {
            None
        },
    }
}

/// Whether a segment has so many bytes from an address on.
pub open spec fn has_bytes(
    module: &Module,
    placements: Map<u32, Placement>,
    k: int,
    address: i32,
    count: int,
) -> bool {
    match position(module, placements, k, address) {
        Some(at) => at + count <= module.datas@[k].bytes@.len(),
        None => false,
    }
}

/// Whether a byte may stand in a text: printable ASCII, a tab or a line feed.
pub open spec fn printable(byte: u8) -> bool {
    32 <= byte <= 126 || byte == 9 || byte == 10
}

// ---- words ----

/// A word is read out of the first segment that has all four bytes of it, the lowest byte
/// first.
pub proof fn a_word_is_its_four_bytes(
    module: &Module,
    placements: Map<u32, Placement>,
    address: i32,
    k: int,
)
    requires
        0 <= k < module.datas@.len(),
        has_bytes(module, placements, k, address, 4),
        forall|j: int| 0 <= j < k ==> !#[trigger] has_bytes(module, placements, j, address, 4),
    ensures
        ({
            let bytes = module.datas@[k].bytes@;
            let at = position(module, placements, k, address)->0;
            &&& static_word(module, placements, address, 0) is Some
            &&& (static_word(module, placements, address, 0)->0) as u32 as int == bytes[at]
                + 0x100 * bytes[at + 1] + 0x1_0000 * bytes[at + 2] + 0x100_0000 * bytes[at + 3]
        }),
{
    lemma_word_from(module, placements, address, k, 0);
    let bytes = module.datas@[k].bytes@;
    let at = position(module, placements, k, address)->0;
    let four = bytes.subrange(at, at + 4);
    lemma_four(four);
    crate::analysis::image::lemma_address_round_trip(le_value(four) as u32);
}

/// The value of four bytes.
proof fn lemma_four(four: Seq<u8>)
    requires
        four.len() == 4,
    ensures
        le_value(four) == four[0] + 0x100 * four[1] + 0x1_0000 * four[2] + 0x100_0000 * four[3],
        le_value(four) <= u32::MAX,
{
    reveal_with_fuel(le_value, 6);
    assert(four.drop_first() =~= seq![four[1], four[2], four[3]]);
    assert(four.drop_first().drop_first() =~= seq![four[2], four[3]]);
    assert(four.drop_first().drop_first().drop_first() =~= seq![four[3]]);
    assert(four.drop_first().drop_first().drop_first().drop_first() =~= Seq::empty());
}

proof fn lemma_word_from(
    module: &Module,
    placements: Map<u32, Placement>,
    address: i32,
    k: int,
    i: int,
)
    requires
        0 <= i <= k < module.datas@.len(),
        has_bytes(module, placements, k, address, 4),
        forall|j: int| 0 <= j < k ==> !#[trigger] has_bytes(module, placements, j, address, 4),
    ensures
        ({
            let bytes = module.datas@[k].bytes@;
            let at = position(module, placements, k, address)->0;
            static_word(module, placements, address, i) == Some(
                (le_value(bytes.subrange(at, at + 4)) as u32) as i32,
            )
        }),
    decreases k - i,
{
    if i < k {
        assert(!has_bytes(module, placements, i, address, 4));
        lemma_word_from(module, placements, address, k, i + 1);
    }
}

/// Where no segment has all four bytes there is no word.
pub proof fn without_four_bytes_there_is_no_word(
    module: &Module,
    placements: Map<u32, Placement>,
    address: i32,
    i: int,
)
    requires
        0 <= i <= module.datas@.len(),
        forall|j: int|
            i <= j < module.datas@.len() ==> !#[trigger] has_bytes(module, placements, j, address, 4),
    ensures
        static_word(module, placements, address, i) is None,
    decreases module.datas@.len() - i,
{
    if i < module.datas@.len() {
        assert(!has_bytes(module, placements, i, address, 4));
        without_four_bytes_there_is_no_word(module, placements, address, i + 1);
    }
}

// ---- texts ----

proof fn lemma_text_in(
    module: &Module,
    placements: Map<u32, Placement>,
    address: i32,
    length: Option<usize>,
    shortest: nat,
    k: int,
    i: int,
)
    requires
        0 <= i <= k < module.datas@.len(),
        has_bytes(module, placements, k, address, 1),
        forall|j: int| 0 <= j < k ==> !#[trigger] has_bytes(module, placements, j, address, 1),
    ensures
        static_text_from(module, placements, address, length, shortest, i) == text_at(
            module.datas@[k].bytes@,
            position(module, placements, k, address)->0,
            length,
            shortest,
        ),
    decreases k - i,
{
    if i < k {
        assert(!has_bytes(module, placements, i, address, 1));
        lemma_text_in(module, placements, address, length, shortest, k, i + 1);
    }
}

/// Bytes that may stand in a text are passed over.
proof fn lemma_passed(bytes: Seq<u8>, bounded: bool, shortest: nat, n: int, m: int)
    requires
        0 <= n <= m <= bytes.len(),
        m <= 120,
        forall|i: int| n <= i < m ==> printable(#[trigger] bytes[i]),
    ensures
        text_from(bytes, bounded, shortest, n) == text_from(bytes, bounded, shortest, m),
    decreases m - n,
{
    if n < m {
        assert(printable(bytes[n]));
        lemma_passed(bytes, bounded, shortest, n + 1, m);
    }
}

/// Whether a text is the bytes at a position, one character for each.
pub open spec fn spells_out(text: Seq<char>, bytes: Seq<u8>, at: int) -> bool {
    at + text.len() <= bytes.len() && forall|i: int|
        0 <= i < text.len() ==> #[trigger] text[i] == bytes[at + i] as char
}

/// The text at an address is what stands there, in the first segment that covers it, up
/// to the first NUL: every byte before that may stand in a text, and there are as many as
/// were asked for at least. Of a text of more than a hundred and twenty characters the
/// first hundred and twenty are shown, and an ellipsis.
pub proof fn a_text_runs_to_its_terminator(
    module: &Module,
    placements: Map<u32, Placement>,
    address: i32,
    shortest: nat,
    k: int,
    z: int,
)
    requires
        0 <= k < module.datas@.len(),
        has_bytes(module, placements, k, address, 1),
        forall|j: int| 0 <= j < k ==> !#[trigger] has_bytes(module, placements, j, address, 1),
        shortest <= 120,
        ({
            let bytes = module.datas@[k].bytes@;
            let at = position(module, placements, k, address)->0;
            &&& at <= z <= bytes.len()
            &&& z - at <= 121
            &&& forall|i: int| at <= i < z ==> printable(#[trigger] bytes[i])
        }),
    ensures
        ({
            let bytes = module.datas@[k].bytes@;
            let at = position(module, placements, k, address)->0;
            let found = static_text_from(module, placements, address, None, shortest, 0);
            &&& z - at == 121 ==> found is Some && (found->0).len() == 121 && spells_out(
                (found->0).take(120),
                bytes,
                at,
            ) && (found->0)[120] == '\u{2026}'
            &&& z - at <= 120 && z < bytes.len() && bytes[z] == 0 && z - at >= shortest ==> found
                is Some && (found->0).len() == z - at && spells_out(found->0, bytes, at)
            &&& z - at <= 120 && z < bytes.len() && bytes[z] == 0 && z - at < shortest ==> found
                is None
            &&& z - at <= 120 && z < bytes.len() && bytes[z] != 0 && !printable(bytes[z])
                ==> found is None
            &&& z - at <= 120 && z == bytes.len() ==> found is None
        }),
{
    lemma_text_in(module, placements, address, None, shortest, k, 0);
    let bytes = module.datas@[k].bytes@;
    let at = position(module, placements, k, address)->0;
    let rest = bytes.skip(at);
    let m = if z - at <= 120 {
        z - at
    } else {
        120
    };
    assert forall|i: int| 0 <= i < m implies printable(#[trigger] rest[i]) by {
        assert(rest[i] == bytes[at + i]);
    }
    lemma_passed(rest, false, shortest, 0, m);
    let found = static_text_from(module, placements, address, None, shortest, 0);
    if m < rest.len() {
        assert(rest[m] == bytes[at + m]);
        if z - at == 121 {
            assert(printable(bytes[at + 120]));
            assert(text_from(rest, false, shortest, 120) == Some(
                crate::analysis::placement::ascii_text(rest.take(120)).push('\u{2026}'),
            ));
            assert((found->0).take(120) =~= crate::analysis::placement::ascii_text(
                rest.take(120),
            ));
        }
    }
}

/// A text of a given length is that many bytes, all of which may stand in a text; where
/// there are not so many, or one may not, there is none.
pub proof fn a_text_of_a_length_is_that_long(
    module: &Module,
    placements: Map<u32, Placement>,
    address: i32,
    length: usize,
    shortest: nat,
    k: int,
    z: int,
)
    requires
        0 <= k < module.datas@.len(),
        has_bytes(module, placements, k, address, 1),
        forall|j: int| 0 <= j < k ==> !#[trigger] has_bytes(module, placements, j, address, 1),
        ({
            let bytes = module.datas@[k].bytes@;
            let at = position(module, placements, k, address)->0;
            &&& at <= z <= bytes.len()
            &&& z - at <= length <= 120
            &&& forall|i: int| at <= i < z ==> printable(#[trigger] bytes[i])
        }),
    ensures
        ({
            let bytes = module.datas@[k].bytes@;
            let at = position(module, placements, k, address)->0;
            let found = static_text_from(module, placements, address, Some(length), shortest, 0);
            &&& z - at == length && length >= shortest ==> found is Some && (found->0).len()
                == length && spells_out(found->0, bytes, at)
            &&& z - at == length && length < shortest ==> found is None
            &&& z - at < length && z < bytes.len() && !printable(bytes[z]) ==> found is None
            &&& at + length > bytes.len() ==> found is None
        }),
{
    lemma_text_in(module, placements, address, Some(length), shortest, k, 0);
    let bytes = module.datas@[k].bytes@;
    let at = position(module, placements, k, address)->0;
    if at + length <= bytes.len() {
        let slice = bytes.skip(at).take(length as int);
        assert forall|i: int| 0 <= i < z - at implies printable(#[trigger] slice[i]) by {
            assert(slice[i] == bytes[at + i]);
        }
        lemma_passed(slice, true, shortest, 0, z - at);
        if z - at < length {
            assert(slice[z - at] == bytes[z]);
        }
    }
}

/// Where no segment covers an address there is no text.
pub proof fn outside_the_data_there_is_no_text(
    module: &Module,
    placements: Map<u32, Placement>,
    address: i32,
    length: Option<usize>,
    shortest: nat,
    i: int,
)
    requires
        0 <= i <= module.datas@.len(),
        forall|j: int|
            i <= j < module.datas@.len() ==> !#[trigger] has_bytes(module, placements, j, address, 1),
    ensures
        static_text_from(module, placements, address, length, shortest, i) is None,
    decreases module.datas@.len() - i,
{
    if i < module.datas@.len() {
        assert(!has_bytes(module, placements, i, address, 1));
        outside_the_data_there_is_no_text(module, placements, address, length, shortest, i + 1);
    }
}

// ---- placements ----

/// A `memory.init` places its segment where the three constants before it say: the
/// address, the offset into the segment, and how many bytes. A negative offset, nothing to
/// copy, and anything that is no constant place nothing.
pub proof fn three_constants_place_a_segment(
    body: Seq<Op>,
    at: int,
    address: i32,
    offset: i32,
    length: i32,
    segment: u32,
)
    requires
        3 <= at < body.len(),
        body[at - 3] == Op::I32Const(address),
        body[at - 2] == Op::I32Const(offset),
        body[at - 1] == Op::I32Const(length),
        body[at] == Op::MemoryInit(segment),
    ensures
        offset >= 0 && length > 0 ==> placed_by(body, at, segment) == Some(
            Placement { address, offset: offset as u32, length: length as u32 },
        ),
        offset < 0 || length <= 0 ==> placed_by(body, at, segment) is None,
        forall|other: u32| other != segment ==> placed_by(body, at, other) is None,
{
}

} // verus!
