//! What holds of every host.

use vstd::prelude::*;
use crate::hostlib::embind::{with_reference, without_reference};
use crate::hostlib::env::{
    c_bytes, laid_out, layout_fits, pointer_place, random_bytes, state_after, text_place,
};
use crate::hostlib::io::{
    buffer, buffers_fit, gathered, overwritten, room, scattered, share, sought, source_of, taken,
    written_to, WHENCE_CUR, WHENCE_SET,
};
use crate::hostlib::stat::{inode_at, stat_bytes};
use crate::hostlib::unanswered::with_call;
use crate::hostlib::wasi::{
    moved_to, opened, with_opened, DescriptorModel, OpenModel, Wasi, WasiModel,
};
use crate::rt::access::{effective, fits};
use crate::rt::caller::{i32_bytes, i64_bytes, word32};
use crate::rt::words::{le_value, lemma_le_bytes_len, lemma_le_value_of_bytes, lemma_pow256_values};
use crate::text::table::lemma_ordered;

verus! {

// ---- files ----

/// A read where bytes were written gives them back, wherever in the file that was
/// and whatever gap it left.
pub proof fn a_read_gives_back_what_was_written(contents: Seq<u8>, at: int, bytes: Seq<u8>)
    requires
        0 <= at,
    ensures
        taken(overwritten(contents, at, bytes), at as nat, bytes.len()) == bytes,
{
    assert(taken(overwritten(contents, at, bytes), at as nat, bytes.len()) =~= bytes);
}

/// A write leaves every byte of the file outside it as it was, and what it leaves
/// between the old end and itself is zero.
pub proof fn a_write_leaves_the_rest(contents: Seq<u8>, at: int, bytes: Seq<u8>, i: int)
    requires
        0 <= i < overwritten(contents, at, bytes).len(),
        !(at <= i < at + bytes.len()),
    ensures
        overwritten(contents, at, bytes)[i] == if i < contents.len() {
            contents[i]
        } else {
            0
        },
{
}

/// A write to the end appends.
pub proof fn a_write_at_the_end_appends(contents: Seq<u8>, bytes: Seq<u8>)
    ensures
        overwritten(contents, contents.len() as int, bytes) == contents + bytes,
{
    assert(overwritten(contents, contents.len() as int, bytes) =~= contents + bytes);
}

/// A file round-trips: after a write to a descriptor, a seek back to where it landed
/// and a read of as many bytes give back what was written.
pub proof fn a_file_round_trips(
    wasi: WasiModel,
    fd: i32,
    open: OpenModel,
    bytes: Seq<u8>,
)
    requires
        opened(wasi, fd) == Some(DescriptorModel::File(open)),
        wasi.files.contains_key(open.path),
        !open.append,
        open.position + bytes.len() <= i64::MAX,
    ensures
        written_to(wasi, fd, bytes) is Ok,
        ({
            let after = written_to(wasi, fd, bytes)->Ok_0;
            &&& sought(after, fd, open.position as i64, WHENCE_SET) == Ok::<i64, i32>(
                open.position as i64,
            )
            &&& {
                let back = moved_to(
                    after,
                    fd,
                    opened(after, fd)->0->File_0,
                    open.position,
                );
                &&& source_of(back, fd) is Ok
                &&& {
                    let (source, position) = source_of(back, fd)->Ok_0;
                    taken(source, position, bytes.len()) == bytes
                }
            }
        }),
{
    a_read_gives_back_what_was_written(
        wasi.files[open.path],
        open.position as int,
        bytes,
    );
}

/// A write to one file leaves every other file as it was.
pub proof fn a_write_leaves_other_files(
    wasi: WasiModel,
    fd: i32,
    bytes: Seq<u8>,
    path: Seq<char>,
)
    requires
        written_to(wasi, fd, bytes) is Ok,
        opened(wasi, fd) == Some(DescriptorModel::File(opened(wasi, fd)->0->File_0)) ==> path
            != (opened(wasi, fd)->0->File_0).path,
    ensures
        ({
            let after = written_to(wasi, fd, bytes)->Ok_0;
            &&& after.files.contains_key(path) == wasi.files.contains_key(path)
            &&& wasi.files.contains_key(path) ==> after.files[path] == wasi.files[path]
        }),
{
}

/// Seeking nowhere from where a descriptor is says where it is.
pub proof fn seeking_nowhere_tells_the_position(wasi: WasiModel, fd: i32, open: OpenModel)
    requires
        opened(wasi, fd) == Some(DescriptorModel::File(open)),
        wasi.files.contains_key(open.path),
        open.position <= i64::MAX,
    ensures
        sought(wasi, fd, 0, WHENCE_CUR) == Ok::<i64, i32>(open.position as i64),
{
}

/// A path that was just opened is there, and its descriptor stands at its start.
pub proof fn an_opened_path_is_there(wasi: WasiModel, path: Seq<char>, append: bool)
    ensures
        ({
            let after = with_opened(wasi, path, append);
            &&& after.files.contains_key(path)
            &&& opened(after, wasi.next_fd) == Some(
                DescriptorModel::File(OpenModel { path, position: 0, append }),
            )
            &&& source_of(after, wasi.next_fd) == Ok::<(Seq<u8>, nat), i32>(
                (after.files[path], 0nat),
            )
        }),
{
}

// ---- buffers ----

/// Whether no two buffers of a list share a byte.
pub open spec fn apart(list: Seq<(i32, i32)>) -> bool {
    forall|i: int, j: int|
        0 <= i < j < list.len() ==> {
            let (a, n) = #[trigger] list[i];
            let (b, m) = #[trigger] list[j];
            effective(a, 0) + (n as u32) <= effective(b, 0) || effective(b, 0) + (m as u32)
                <= effective(a, 0)
        }
}

/// Gathering depends only on the buffers.
proof fn lemma_gathered_same(one: Seq<u8>, other: Seq<u8>, list: Seq<(i32, i32)>)
    requires
        forall|i: int|
            0 <= i < list.len() ==> buffer(one, #[trigger] list[i]) == buffer(other, list[i]),
    ensures
        gathered(one, list) == gathered(other, list),
    decreases list.len(),
{
    if list.len() > 0 {
        let less = list.drop_last();
        assert forall|i: int| 0 <= i < less.len() implies buffer(one, #[trigger] less[i])
            == buffer(other, less[i]) by {
            assert(less[i] == list[i]);
        }
        lemma_gathered_same(one, other, less);
        assert(buffer(one, list[list.len() - 1]) == buffer(other, list[list.len() - 1]));
    }
}

proof fn lemma_scatter_then_gather(memory: Seq<u8>, list: Seq<(i32, i32)>, bytes: Seq<u8>, n: int)
    requires
        0 <= n <= list.len(),
        buffers_fit(memory.len(), list),
        apart(list),
        room(list) == bytes.len(),
    ensures
        scattered(memory, list, bytes, n).len() == memory.len(),
        gathered(scattered(memory, list, bytes, n), list.take(n)) == bytes.take(
            room(list.take(n)) as int,
        ),
        room(list.take(n)) <= bytes.len(),
    decreases n,
{
    lemma_room_prefix(list, n);
    if n == 0 {
        assert(bytes.take(0) =~= Seq::empty());
    } else {
        lemma_scatter_then_gather(memory, list, bytes, n - 1);
        let before = scattered(memory, list, bytes, n - 1);
        let after = scattered(memory, list, bytes, n);
        let vector = list[n - 1];
        let piece = share(list, bytes, n - 1);
        let shorter = list.take(n - 1);
        let longer = list.take(n);
        assert(longer.drop_last() =~= shorter);
        assert(longer.last() == vector);
        assert(piece.len() == vector.1 as u32);
        assert(fits(memory.len(), vector.0, 0, (vector.1 as u32) as int));
        assert forall|i: int| 0 <= i < shorter.len() implies buffer(after, #[trigger] shorter[i])
            == buffer(before, shorter[i]) by {
            assert(shorter[i] == list[i]);
            assert(fits(memory.len(), list[i].0, 0, (list[i].1 as u32) as int));
            let (a, m) = list[i];
            let (b, k) = list[n - 1];
            assert(effective(a, 0) + (m as u32) <= effective(b, 0) || effective(b, 0) + (k as u32)
                <= effective(a, 0));
            assert(buffer(after, shorter[i]) =~= buffer(before, shorter[i]));
        }
        lemma_gathered_same(after, before, shorter);
        assert(buffer(after, vector) =~= piece);
        assert(bytes.take(room(shorter) as int) + piece =~= bytes.take(room(longer) as int));
    }
}

/// Fewer buffers have no more room.
proof fn lemma_room_prefix(list: Seq<(i32, i32)>, n: int)
    requires
        0 <= n <= list.len(),
    ensures
        room(list.take(n)) <= room(list),
    decreases list.len(),
{
    if n == list.len() {
        assert(list.take(n) =~= list);
    } else {
        assert(list.drop_last().take(n) =~= list.take(n));
        lemma_room_prefix(list.drop_last(), n);
    }
}

/// What is scattered into buffers that share no byte is what gathering them gives
/// back.
pub proof fn gathering_gives_back_what_was_scattered(
    memory: Seq<u8>,
    list: Seq<(i32, i32)>,
    bytes: Seq<u8>,
)
    requires
        buffers_fit(memory.len(), list),
        apart(list),
        room(list) == bytes.len(),
    ensures
        gathered(scattered(memory, list, bytes, list.len() as int), list) == bytes,
{
    lemma_scatter_then_gather(memory, list, bytes, list.len() as int);
    assert(list.take(list.len() as int) =~= list);
    assert(bytes.take(bytes.len() as int) =~= bytes);
}

// ---- randomness ----

/// The generator goes on where it stopped: reading some numbers and then more gives
/// what reading all of them at once gives.
pub proof fn randomness_goes_on_where_it_stopped(seed: u64, a: nat, b: nat)
    ensures
        state_after(seed, a + b) == state_after(state_after(seed, a), b),
        random_bytes(seed, a + b) == random_bytes(seed, a) + random_bytes(
            state_after(seed, a),
            b,
        ),
    decreases b,
{
    if b > 0 {
        randomness_goes_on_where_it_stopped(seed, a, (b - 1) as nat);
        assert((a + b - 1) as nat == a + (b - 1) as nat);
        assert(random_bytes(seed, a + b) =~= random_bytes(seed, a) + random_bytes(
            state_after(seed, a),
            b,
        ));
    } else {
        assert(random_bytes(seed, a) + Seq::<u8>::empty() =~= random_bytes(seed, a));
    }
}

// ---- what a stat says ----

/// The size a `struct stat` gives is the size it was made with.
pub proof fn a_stat_says_the_size(mode: i32, size: usize, inode: i64)
    requires
        size <= i64::MAX,
    ensures
        stat_bytes(mode, size, inode).len() == 96,
        le_value(stat_bytes(mode, size, inode).subrange(24, 32)) == size,
        le_value(stat_bytes(mode, size, inode).subrange(88, 96)) == (inode as u64) as nat,
        word32(stat_bytes(mode, size, inode), 4) == mode,
{
    lemma_le_bytes_len((1i32 as u32) as nat, 4);
    lemma_le_bytes_len((mode as u32) as nat, 4);
    lemma_le_bytes_len(((size as i64) as u64) as nat, 8);
    lemma_le_bytes_len((4096i32 as u32) as nat, 4);
    lemma_le_bytes_len(((crate::hostlib::stat::blocks(size) as i32) as u32) as nat, 4);
    lemma_le_bytes_len((inode as u64) as nat, 8);
    let bytes = stat_bytes(mode, size, inode);
    assert(bytes.subrange(24, 32) =~= i64_bytes(size as i64));
    assert(bytes.subrange(88, 96) =~= i64_bytes(inode));
    assert(bytes.subrange(4, 8) =~= i32_bytes(mode));
    lemma_le_value_of_bytes(((size as i64) as u64) as nat, 8);
    lemma_le_value_of_bytes((inode as u64) as nat, 8);
    lemma_le_value_of_bytes((mode as u32) as nat, 4);
    lemma_pow256_values();
    assert((size as i64) as u64 == size);
    assert((mode as u32) as i32 == mode) by (bit_vector);
    assert(effective(4, 0) == 4);
}

/// Two files have two inodes.
pub proof fn two_files_have_two_inodes(wasi: Wasi, one: Seq<char>, other: Seq<char>)
    requires
        wasi.wf(),
        wasi.files.keys().len() <= i64::MAX - 2,
        wasi@.files.contains_key(one),
        wasi@.files.contains_key(other),
        one != other,
    ensures
        inode_at(wasi@, one) != inode_at(wasi@, other),
{
    let keys = wasi.files.keys();
    wasi.files.lemma_shape();
    assert forall|key: Seq<char>| #[trigger]
        keys.contains(key) == wasi@.files.dom().contains(key) by {
        assert(wasi.files@.contains_key(key) == keys.contains(key));
    }
    lemma_ordered(keys, wasi@.files.dom());
    assert(keys.contains(one));
    assert(keys.contains(other));
    let a = keys.index_of(one);
    let b = keys.index_of(other);
    assert(keys[a] == one && keys[b] == other);
}

/// While no file is added or removed an inode stays what it is, whatever is written.
pub proof fn an_inode_stays_while_the_files_do(
    before: WasiModel,
    after: WasiModel,
    path: Seq<char>,
)
    requires
        before.files.dom() == after.files.dom(),
    ensures
        inode_at(before, path) == inode_at(after, path),
{
    assert(before.files.dom().contains(path) == before.files.contains_key(path));
    assert(after.files.dom().contains(path) == after.files.contains_key(path));
}

// ---- handles and counts ----

/// Counting a handle up and down again leaves it as it was.
pub proof fn up_and_down_is_nothing(handles: Map<i32, i32>, handle: i32)
    requires
        handles.contains_key(handle),
        0 < handles[handle] < i32::MAX,
    ensures
        without_reference(with_reference(handles, handle), handle) == handles,
{
    assert(without_reference(with_reference(handles, handle), handle) =~= handles);
}

/// A handle with one reference is released when that goes.
pub proof fn the_last_reference_releases(handles: Map<i32, i32>, handle: i32)
    requires
        handle != 0,
        !handles.contains_key(handle),
    ensures
        without_reference(handles.insert(handle, 1), handle) == handles,
{
    assert(without_reference(handles.insert(handle, 1), handle) =~= handles);
}

/// However often an import is called, the arguments kept are the first call's, and
/// each call is counted.
pub proof fn the_first_arguments_are_kept(
    calls: Map<Seq<char>, (usize, Seq<i64>)>,
    import: Seq<char>,
    first: Seq<i64>,
    second: Seq<i64>,
)
    requires
        !calls.contains_key(import),
    ensures
        with_call(with_call(calls, import, first), import, second)[import] == (2usize, first),
{
}

// ---- strings ----

/// Whether two runs of memory share no byte.
pub open spec fn clear(a: int, n: int, b: int, m: int) -> bool {
    a + n <= b || b + m <= a
}

/// Whether the texts and the pointers to them share no byte.
pub open spec fn layout_apart(list: Seq<Seq<char>>, pointers: i32, buffer: i32) -> bool {
    &&& forall|i: int, j: int|
        0 <= i < list.len() && 0 <= j < list.len() ==> clear(
            effective(#[trigger] pointer_place(pointers, i), 0),
            4,
            effective(#[trigger] text_place(list, buffer, j), 0),
            c_bytes(list[j]).len() as int,
        )
    &&& forall|i: int, j: int|
        0 <= i < j < list.len() ==> clear(
            effective(#[trigger] pointer_place(pointers, i), 0),
            4,
            effective(#[trigger] pointer_place(pointers, j), 0),
            4,
        )
    &&& forall|i: int, j: int|
        0 <= i < j < list.len() ==> clear(
            effective(#[trigger] text_place(list, buffer, i), 0),
            c_bytes(list[i]).len() as int,
            effective(#[trigger] text_place(list, buffer, j), 0),
            c_bytes(list[j]).len() as int,
        )
}

/// A string that was laid out is there, NUL and all, and its pointer says where,
/// provided that nothing overlaps.
pub proof fn every_string_is_where_its_pointer_says(
    memory: Seq<u8>,
    list: Seq<Seq<char>>,
    pointers: i32,
    buffer: i32,
    n: int,
    i: int,
)
    requires
        0 <= i < n <= list.len(),
        layout_fits(memory.len(), list, pointers, buffer),
        layout_apart(list, pointers, buffer),
    ensures
        ({
            let after = laid_out(memory, list, pointers, buffer, n);
            let pointer = effective(pointer_place(pointers, i), 0);
            let place = effective(text_place(list, buffer, i), 0);
            &&& after.len() == memory.len()
            &&& after.subrange(pointer, pointer + 4) == i32_bytes(text_place(list, buffer, i))
            &&& after.subrange(place, place + c_bytes(list[i]).len()) == c_bytes(list[i])
        }),
    decreases n,
{
    let before = laid_out(memory, list, pointers, buffer, n - 1);
    let after = laid_out(memory, list, pointers, buffer, n);
    let pointer = effective(pointer_place(pointers, i), 0);
    let place = effective(text_place(list, buffer, i), 0);
    let last = n - 1;
    let there = effective(pointer_place(pointers, last), 0);
    let at = effective(text_place(list, buffer, last), 0);
    lemma_laid_out_len(memory, list, pointers, buffer, n - 1);
    lemma_le_bytes_len((text_place(list, buffer, last) as u32) as nat, 4);
    assert(fits(memory.len(), pointer_place(pointers, i), 0, 4));
    assert(fits(memory.len(), pointer_place(pointers, last), 0, 4));
    assert(clear(pointer, 4, at, c_bytes(list[last]).len() as int));
    if i < last {
        every_string_is_where_its_pointer_says(memory, list, pointers, buffer, n - 1, i);
        assert(clear(pointer, 4, there, 4));
        assert(clear(
            place,
            c_bytes(list[i]).len() as int,
            at,
            c_bytes(list[last]).len() as int,
        ));
        assert(clear(there, 4, place, c_bytes(list[i]).len() as int));
        assert(after.subrange(pointer, pointer + 4) =~= before.subrange(pointer, pointer + 4));
        assert(after.subrange(place, place + c_bytes(list[i]).len()) =~= before.subrange(
            place,
            place + c_bytes(list[i]).len(),
        ));
    } else {
        assert(after.subrange(pointer, pointer + 4) =~= i32_bytes(text_place(list, buffer, i)));
        assert(after.subrange(place, place + c_bytes(list[i]).len()) =~= c_bytes(list[i]));
    }
}

/// Laying strings out does not change how long the memory is.
proof fn lemma_laid_out_len(
    memory: Seq<u8>,
    list: Seq<Seq<char>>,
    pointers: i32,
    buffer: i32,
    n: int,
)
    ensures
        laid_out(memory, list, pointers, buffer, n).len() == memory.len(),
    decreases n,
{
    if n > 0 {
        lemma_laid_out_len(memory, list, pointers, buffer, n - 1);
    }
}

} // verus!
