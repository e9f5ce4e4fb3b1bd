//! Reading, writing and seeking.

use vstd::prelude::*;
use crate::hostlib::errno;
use crate::hostlib::wasi::{
    append_bytes, copy_bytes, moved_to, opened, Descriptor, DescriptorModel, OpenModel, Standard,
    Wasi, WasiModel,
};
use crate::rt::access::{effective, fits, Access};
use crate::rt::caller::{i32_bytes, i64_bytes, word32, Caller};
use crate::rt::words::splice;

verus! {

/// An offset is measured from the start.
pub const WHENCE_SET: i32 = 0;

/// An offset is measured from where the descriptor is.
pub const WHENCE_CUR: i32 = 1;

/// An offset is measured from the end.
pub const WHENCE_END: i32 = 2;

// ---- iovecs ----

/// Where the `i`th entry of an iovec array is.
pub open spec fn entry_at(iovs: i32, i: int) -> i32 {
    iovs.wrapping_add((i as i32).wrapping_mul(8))
}

/// How many entries an array has.
pub open spec fn entries(count: i32) -> nat {
    if count > 0 {
        count as nat
    } else {
        0
    }
}

/// An iovec array: pairs of address and length.
pub open spec fn vectors(memory: Seq<u8>, iovs: i32, count: i32) -> Seq<(i32, i32)> {
    Seq::new(
        entries(count),
        |i: int|
            (
                word32(memory, entry_at(iovs, i)),
                word32(memory, entry_at(iovs, i).wrapping_add(4)),
            ),
    )
}

/// Whether an iovec array lies inside the memory.
pub open spec fn vectors_fit(len: nat, iovs: i32, count: i32) -> bool {
    forall|i: int|
        0 <= i < entries(count) ==> fits(len, #[trigger] entry_at(iovs, i), 0, 4) && fits(
            len,
            entry_at(iovs, i).wrapping_add(4),
            0,
            4,
        )
}

/// Whether every buffer of an iovec array lies inside the memory.
pub open spec fn buffers_fit(len: nat, list: Seq<(i32, i32)>) -> bool {
    forall|i: int|
        0 <= i < list.len() ==> fits(
            len,
            (#[trigger] list[i]).0,
            0,
            (list[i].1 as u32) as int,
        )
}

/// The bytes of a buffer.
pub open spec fn buffer(memory: Seq<u8>, vector: (i32, i32)) -> Seq<u8> {
    memory.subrange(effective(vector.0, 0), effective(vector.0, 0) + (vector.1 as u32))
}

/// The bytes of the buffers, one after another.
pub open spec fn gathered(memory: Seq<u8>, list: Seq<(i32, i32)>) -> Seq<u8>
    decreases list.len(),
{
    if list.len() == 0 {
        Seq::empty()
    } else {
        gathered(memory, list.drop_last()) + buffer(memory, list.last())
    }
}

/// How many bytes the buffers have room for.
pub open spec fn room(list: Seq<(i32, i32)>) -> nat
    decreases list.len(),
{
    if list.len() == 0 {
        0
    } else {
        room(list.drop_last()) + (list.last().1 as u32) as nat
    }
}

/// The smaller of two numbers.
pub open spec fn least(a: int, b: int) -> int {
    if a < b {
        a
    } else {
        b
    }
}

/// The bytes that go to the `i`th buffer.
pub open spec fn share(list: Seq<(i32, i32)>, bytes: Seq<u8>, i: int) -> Seq<u8> {
    bytes.subrange(
        least(room(list.take(i)) as int, bytes.len() as int),
        least(room(list.take(i + 1)) as int, bytes.len() as int),
    )
}

/// Memory with bytes scattered into the first `n` buffers.
pub open spec fn scattered(memory: Seq<u8>, list: Seq<(i32, i32)>, bytes: Seq<u8>, n: int) -> Seq<u8>
    decreases n,
{
    if n <= 0 {
        memory
    } else {
        splice(
            scattered(memory, list, bytes, n - 1),
            effective(list[n - 1].0, 0),
            share(list, bytes, n - 1),
        )
    }
}

/// Whether everything that goes to a buffer lies inside the memory.
pub open spec fn shares_fit(len: nat, list: Seq<(i32, i32)>, bytes: Seq<u8>) -> bool {
    forall|i: int|
        0 <= i < list.len() && (#[trigger] share(list, bytes, i)).len() > 0 ==> fits(
            len,
            list[i].0,
            0,
            share(list, bytes, i).len() as int,
        )
}

/// Reads an iovec array.
pub(crate) fn iovecs<M: Access>(caller: &Caller<'_, M>, iovs: i32, count: i32) -> (list: Vec<(i32, i32)>)
    requires
        vectors_fit(caller.contents().len(), iovs, count),
    ensures
        list@ == vectors(caller.contents(), iovs, count),
{
    let mut list: Vec<(i32, i32)> = Vec::new();
    let ghost whole = vectors(caller.contents(), iovs, count);
    let mut at: i32 = 0;
    while at < count
        invariant
            vectors_fit(caller.contents().len(), iovs, count),
            whole == vectors(caller.contents(), iovs, count),
            0 <= at,
            at <= count || (at == 0 && count < 0),
            list@ == whole.take(at as int),
        decreases count - at,
    {
        let entry: i32 = iovs.wrapping_add(at.wrapping_mul(8));
        assert(entry == entry_at(iovs, at as int));
        let address: i32 = caller.read_i32(entry);
        let length: i32 = caller.read_i32(entry.wrapping_add(4));
        list.push((address, length));
        at = at + 1;
        assert(list@ =~= whole.take(at as int));
    }
    assert(list@ =~= whole);
    list
}

/// Gathers the bytes of the buffers.
pub(crate) fn gather<M: Access>(caller: &Caller<'_, M>, list: &Vec<(i32, i32)>) -> (bytes: Vec<u8>)
    requires
        buffers_fit(caller.contents().len(), list@),
    ensures
        bytes@ == gathered(caller.contents(), list@),
{
    let mut bytes: Vec<u8> = Vec::new();
    let mut i: usize = 0;
    assert(list@.take(0) =~= Seq::empty());
    while i < list.len()
        invariant
            buffers_fit(caller.contents().len(), list@),
            i <= list@.len(),
            bytes@ == gathered(caller.contents(), list@.take(i as int)),
        decreases list@.len() - i,
    {
        proof {
            assert(list@.take(i + 1).drop_last() =~= list@.take(i as int));
            assert(list@.take(i + 1).last() == list@[i as int]);
        }
        let (address, length) = list[i];
        let piece: Vec<u8> = caller.bytes(address, length);
        append_bytes(&mut bytes, piece.as_slice());
        i = i + 1;
    }
    assert(list@.take(i as int) =~= list@);
    bytes
}

/// How many bytes the buffers have room for.
pub(crate) fn room_of(list: &Vec<(i32, i32)>) -> (total: u128)
    ensures
        total == room(list@),
{
    let mut total: u128 = 0;
    let mut i: usize = 0;
    assert(list@.take(0) =~= Seq::empty());
    while i < list.len()
        invariant
            i <= list@.len(),
            total == room(list@.take(i as int)),
            total <= i * 0xffff_ffff,
        decreases list@.len() - i,
    {
        proof {
            assert(list@.take(i + 1).drop_last() =~= list@.take(i as int));
            assert(list@.take(i + 1).last() == list@[i as int]);
            assert(i * 0xffff_ffff + 0xffff_ffff == (i + 1) * 0xffff_ffff) by (nonlinear_arith);
            assert(i * 0xffff_ffff <= usize::MAX * 0xffff_ffff) by (nonlinear_arith)
                requires
                    i <= usize::MAX,
            ;
        }
        total = total + (list[i].1 as u32) as u128;
        i = i + 1;
    }
    assert(list@.take(i as int) =~= list@);
    total
}

/// Room grows with the buffers.
proof fn lemma_room(list: Seq<(i32, i32)>, n: int)
    requires
        0 <= n < list.len(),
    ensures
        room(list.take(n + 1)) == room(list.take(n)) + (list[n].1 as u32) as nat,
{
    assert(list.take(n + 1).drop_last() =~= list.take(n));
    assert(list.take(n + 1).last() == list[n]);
}

/// Where the share of a buffer lies.
pub proof fn lemma_share(list: Seq<(i32, i32)>, bytes: Seq<u8>, n: int, at: int, end: int)
    requires
        0 <= n < list.len(),
        at == least(room(list.take(n)) as int, bytes.len() as int),
        end == least(at + (list[n].1 as u32), bytes.len() as int),
    ensures
        share(list, bytes, n) == bytes.subrange(at, end),
        share(list, bytes, n).len() == end - at,
        end == least(room(list.take(n + 1)) as int, bytes.len() as int),
{
    lemma_room(list, n);
}

/// Writes some of the bytes at an address, if there are any.
fn deliver<M: Access>(
    caller: &mut Caller<'_, M>,
    address: i32,
    bytes: &Vec<u8>,
    at: usize,
    end: usize,
)
    requires
        at <= end <= bytes@.len(),
        at < end ==> old(caller).reaches(address, end - at),
    ensures
        final(caller).contents() == splice(
            old(caller).contents(),
            effective(address, 0),
            bytes@.subrange(at as int, end as int),
        ),
        final(caller).same_limits(old(caller)),
        *final(final(caller).memory) == *final(old(caller).memory),
{
    if end > at {
        let piece: &[u8] = vstd::slice::slice_subrange(bytes.as_slice(), at, end);
        caller.write(address, piece);
    } else {
        assert(splice(
            caller.contents(),
            effective(address, 0),
            bytes@.subrange(at as int, end as int),
        ) =~= caller.contents());
    }
}

/// Scatters bytes into the buffers.
fn scatter<M: Access>(caller: &mut Caller<'_, M>, list: &Vec<(i32, i32)>, bytes: &Vec<u8>)
    requires
        shares_fit(old(caller).contents().len(), list@, bytes@),
    ensures
        final(caller).contents() == scattered(
            old(caller).contents(),
            list@,
            bytes@,
            list@.len() as int,
        ),
        final(caller).contents().len() == old(caller).contents().len(),
        final(caller).same_limits(old(caller)),
        *final(final(caller).memory) == *final(old(caller).memory),
{
    let ghost before = caller.contents();
    let total: usize = bytes.len();
    let mut at: usize = 0;
    let mut i: usize = 0;
    assert(list@.take(0) =~= Seq::empty());
    while i < list.len()
        invariant
            shares_fit(before.len(), list@, bytes@),
            i <= list@.len(),
            total == bytes@.len(),
            at == least(room(list@.take(i as int)) as int, total as int),
            caller.contents() == scattered(before, list@, bytes@, i as int),
            caller.contents().len() == before.len(),
            caller.same_limits(old(caller)),
            *final(caller.memory) == *final(old(caller).memory),
        decreases list@.len() - i,
    {
        let (address, length) = list[i];
        let size: u64 = (length as u32) as u64;
        let left: usize = total - at;
        let end: usize = if size <= left as u64 {
            at + size as usize
        } else {
            total
        };
        proof {
            lemma_share(list@, bytes@, i as int, at as int, end as int);
            assert(list@[i as int].0 == address);
            assert(scattered(before, list@, bytes@, i + 1) == splice(
                scattered(before, list@, bytes@, i as int),
                effective(address, 0),
                bytes@.subrange(at as int, end as int),
            ));
            assert(at < end ==> caller.reaches(address, end - at));
        }
        deliver(caller, address, bytes, at, end);
        at = end;
        i = i + 1;
    }
}

// ---- writing ----

/// A file with bytes put at a position: what was there is overwritten, and a gap
/// is filled with zeros.
pub open spec fn overwritten(contents: Seq<u8>, at: int, bytes: Seq<u8>) -> Seq<u8> {
    let end = at + bytes.len();
    Seq::new(
        if end > contents.len() {
            end as nat
        } else {
            contents.len()
        },
        |i: int|
            if at <= i < end {
                bytes[i - at]
            } else if i < contents.len() {
                contents[i]
            } else {
                0
            },
    )
}

/// Where a write to an open file lands.
pub open spec fn lands(open: OpenModel, contents: Seq<u8>) -> int {
    if open.append {
        contents.len() as int
    } else {
        open.position as int
    }
}

/// A host once bytes were written to a descriptor, or why they cannot be.
pub open spec fn written_to(wasi: WasiModel, fd: i32, bytes: Seq<u8>) -> Result<WasiModel, i32> {
    match opened(wasi, fd) {
        Some(DescriptorModel::Standard(Standard::Out)) => Ok(
            WasiModel { stdout: wasi.stdout + bytes, ..wasi },
        ),
        Some(DescriptorModel::Standard(Standard::Error)) => Ok(
            WasiModel { stderr: wasi.stderr + bytes, ..wasi },
        ),
        Some(DescriptorModel::Standard(Standard::In)) => Err(errno::INVAL),
        Some(DescriptorModel::Directory(_)) => Err(errno::INVAL),
        Some(DescriptorModel::File(open)) => if wasi.files.contains_key(open.path) {
            let contents = wasi.files[open.path];
            let at = lands(open, contents);
            let after = moved_to(wasi, fd, open, (at + bytes.len()) as u64);
            Ok(
                WasiModel {
                    files: wasi.files.insert(open.path, overwritten(contents, at, bytes)),
                    ..after
                },
            )
        } else {
            Err(errno::NOENT)
        },
        None => Err(errno::BADF),
    }
}

/// Whether what a write to a descriptor leaves is no longer than a file can be.
pub open spec fn holdable(wasi: WasiModel, fd: i32, bytes: Seq<u8>) -> bool {
    match opened(wasi, fd) {
        Some(DescriptorModel::File(open)) => wasi.files.contains_key(open.path) ==> lands(
            open,
            wasi.files[open.path],
        ) + bytes.len() <= isize::MAX,
        _ => true,
    }
}

/// Puts bytes at a position of a file.
fn overwrite(contents: &mut Vec<u8>, at: usize, bytes: &Vec<u8>)
    requires
        at + bytes@.len() <= usize::MAX,
    ensures
        final(contents)@ == overwritten(old(contents)@, at as int, bytes@),
{
    let ghost before = contents@;
    let end: usize = at + bytes.len();
    while contents.len() < end
        invariant
            before.len() <= contents@.len(),
            contents@.len() <= end || contents@.len() == before.len(),
            forall|i: int| 0 <= i < before.len() ==> contents@[i] == before[i],
            forall|i: int| before.len() <= i < contents@.len() ==> contents@[i] == 0,
        decreases end - contents@.len(),
    {
        contents.push(0);
    }
    let ghost padded = contents@;
    let mut i: usize = 0;
    while i < bytes.len()
        invariant
            i <= bytes@.len(),
            end == at + bytes@.len(),
            end <= contents@.len(),
            contents@.len() == padded.len(),
            forall|k: int|
                0 <= k < padded.len() ==> contents@[k] == if at <= k < at + i {
                    bytes@[k - at]
                } else {
                    padded[k]
                },
        decreases bytes@.len() - i,
    {
        contents.set(at + i, bytes[i]);
        i = i + 1;
    }
    assert(contents@ =~= overwritten(before, at as int, bytes@));
}

// ---- reading ----

/// What a descriptor reads from, and where it is.
pub open spec fn source_of(wasi: WasiModel, fd: i32) -> Result<(Seq<u8>, nat), i32> {
    match opened(wasi, fd) {
        Some(DescriptorModel::Standard(Standard::In)) => Ok(
            (wasi.stdin, wasi.stdin_position as nat),
        ),
        Some(DescriptorModel::File(open)) => if wasi.files.contains_key(open.path) {
            Ok((wasi.files[open.path], open.position as nat))
        } else {
            Err(errno::NOENT)
        },
        Some(_) => Err(errno::INVAL),
        None => Err(errno::BADF),
    }
}

/// The bytes a read takes: from a position, as many as there is room for and
/// source left.
pub open spec fn taken(source: Seq<u8>, position: nat, wanted: nat) -> Seq<u8> {
    let start = least(position as int, source.len() as int);
    source.subrange(start, least(start + wanted, source.len() as int))
}

/// Where a read leaves the position.
pub open spec fn after_read(source: Seq<u8>, position: nat, wanted: nat) -> int {
    least(position as int, source.len() as int) + taken(source, position, wanted).len()
}

/// A host once a descriptor was read from.
pub open spec fn read_from(wasi: WasiModel, fd: i32, position: int) -> WasiModel {
    match opened(wasi, fd) {
        Some(DescriptorModel::File(open)) => moved_to(wasi, fd, open, position as u64),
        _ => WasiModel { stdin_position: position as usize, ..wasi },
    }
}

/// Memory once bytes were scattered and counted.
pub open spec fn delivered(memory: Seq<u8>, list: Seq<(i32, i32)>, bytes: Seq<u8>, out: i32) -> Seq<
    u8,
> {
    splice(
        scattered(memory, list, bytes, list.len() as int),
        effective(out, 0),
        i32_bytes((bytes.len() as usize) as i32),
    )
}

/// Copies what a read takes.
pub(crate) fn take_from(source: &Vec<u8>, position: u64, wanted: u128) -> (bytes: Vec<u8>)
    ensures
        bytes@ == taken(source@, position as nat, wanted as nat),
{
    let len: usize = source.len();
    let start: usize = if position <= len as u64 {
        position as usize
    } else {
        len
    };
    let end: usize = if wanted <= (len - start) as u128 {
        start + wanted as usize
    } else {
        len
    };
    copy_bytes(vstd::slice::slice_subrange(source.as_slice(), start, end))
}

// ---- seeking ----

/// Where a seek is measured from, in a file.
pub open spec fn measured_from(open: OpenModel, contents: Seq<u8>, whence: i32) -> Option<i64> {
    if whence == WHENCE_SET {
        Some(0i64)
    } else if whence == WHENCE_CUR {
        Some(open.position as i64)
    } else if whence == WHENCE_END {
        Some(contents.len() as i64)
    } else {
        None
    }
}

/// Where a seek lands, or why it does not.
pub open spec fn sought(wasi: WasiModel, fd: i32, offset: i64, whence: i32) -> Result<i64, i32> {
    match opened(wasi, fd) {
        Some(DescriptorModel::File(open)) => if wasi.files.contains_key(open.path) {
            match measured_from(open, wasi.files[open.path], whence) {
                Some(base) => if 0 <= base + offset <= i64::MAX {
                    Ok((base + offset) as i64)
                } else {
                    Err(errno::INVAL)
                },
                None => Err(errno::INVAL),
            }
        } else {
            Err(errno::NOENT)
        },
        Some(_) => Err(errno::SPIPE),
        None => Err(errno::BADF),
    }
}

impl Wasi {
    /// `fd_write`: gathers the iovecs and appends them where the descriptor
    /// points.
    pub fn fd_write<M: Access>(
        &mut self,
        caller: &mut Caller<'_, M>,
        fd: i32,
        iovs: i32,
        count: i32,
        written: i32,
    ) -> (errno: i32)
        requires
            old(self).wf(),
            vectors_fit(old(caller).contents().len(), iovs, count),
            buffers_fit(
                old(caller).contents().len(),
                vectors(old(caller).contents(), iovs, count),
            ),
            ({
                let bytes = gathered(
                    old(caller).contents(),
                    vectors(old(caller).contents(), iovs, count),
                );
                &&& holdable(old(self)@, fd, bytes)
                &&& written_to(old(self)@, fd, bytes) is Ok ==> old(caller).reaches(written, 4)
            }),
        ensures
            final(self).wf(),
            ({
                let memory = old(caller).contents();
                let bytes = gathered(memory, vectors(memory, iovs, count));
                match written_to(old(self)@, fd, bytes) {
                    Ok(after) => {
                        &&& errno == errno::SUCCESS
                        &&& final(self)@ == after
                        &&& final(caller).contents() == splice(
                            memory,
                            effective(written, 0),
                            i32_bytes((bytes.len() as i64) as i32),
                        )
                    },
                    Err(why) => {
                        &&& errno == why
                        &&& final(self)@ == old(self)@
                        &&& final(caller).contents() == memory
                    },
                }
            }),
            final(caller).same_limits(old(caller)),
            *final(final(caller).memory) == *final(old(caller).memory),
    {
        let list: Vec<(i32, i32)> = iovecs(caller, iovs, count);
        let bytes: Vec<u8> = gather(caller, &list);
        let ghost before = self@;
        let total: i64 = bytes.len() as i64;
        let target: Option<(usize, String, u64)> = match self.open.get(&fd) {
            Some(Descriptor::Standard(Standard::Out)) => {
                append_bytes(&mut self.stdout, bytes.as_slice());
                None
            },
            Some(Descriptor::Standard(Standard::Error)) => {
                append_bytes(&mut self.stderr, bytes.as_slice());
                None
            },
            Some(Descriptor::Standard(Standard::In)) | Some(Descriptor::Directory(_)) => {
                return errno::INVAL;
            },
            Some(Descriptor::File(open)) => {
                match self.files.get(open.path.as_str()) {
                    Some(contents) => {
                        assert(before.files[open.path@] == contents@);
                        let at: usize = if open.append {
                            contents.len()
                        } else {
                            open.position as usize
                        };
                        Some((at, open.path.clone(), (at + bytes.len()) as u64))
                    },
                    None => {
                        return errno::NOENT;
                    },
                }
            },
            None => {
                return errno::BADF;
            },
        };
        match target {
            Some((at, path, position)) => {
                match self.files.remove(path.as_str()) {
                    Some(contents) => {
                        let mut contents: Vec<u8> = contents;
                        let ghost had = contents@;
                        overwrite(&mut contents, at, &bytes);
                        let ghost now = contents@;
                        self.files.insert(path, contents);
                        assert(self@.files =~= before.files.insert(path@, now));
                        self.move_to(fd, position);
                    },
                    None => {
                        assert(false);
                    },
                }
            },
            None => {},
        }
        caller.write_i32(written, total as i32);
        errno::SUCCESS
    }

    /// `fd_read`: scatters into the iovecs, stopping at the end of the source.
    pub fn fd_read<M: Access>(
        &mut self,
        caller: &mut Caller<'_, M>,
        fd: i32,
        iovs: i32,
        count: i32,
        read: i32,
    ) -> (errno: i32)
        requires
            old(self).wf(),
            vectors_fit(old(caller).contents().len(), iovs, count),
            ({
                let memory = old(caller).contents();
                let list = vectors(memory, iovs, count);
                match source_of(old(self)@, fd) {
                    Ok((source, position)) => {
                        &&& shares_fit(
                            memory.len(),
                            list,
                            taken(source, position, room(list)),
                        )
                        &&& old(caller).reaches(read, 4)
                    },
                    Err(_) => true,
                }
            }),
        ensures
            final(self).wf(),
            ({
                let memory = old(caller).contents();
                let list = vectors(memory, iovs, count);
                match source_of(old(self)@, fd) {
                    Ok((source, position)) => {
                        let bytes = taken(source, position, room(list));
                        &&& errno == errno::SUCCESS
                        &&& final(self)@ == read_from(
                            old(self)@,
                            fd,
                            after_read(source, position, room(list)),
                        )
                        &&& final(caller).contents() == delivered(memory, list, bytes, read)
                    },
                    Err(why) => {
                        &&& errno == why
                        &&& final(self)@ == old(self)@
                        &&& final(caller).contents() == memory
                    },
                }
            }),
            final(caller).same_limits(old(caller)),
            *final(final(caller).memory) == *final(old(caller).memory),
    {
        let list: Vec<(i32, i32)> = iovecs(caller, iovs, count);
        let wanted: u128 = room_of(&list);
        let (bytes, from, file): (Vec<u8>, usize, bool) = match self.open.get(&fd) {
            Some(Descriptor::Standard(Standard::In)) => {
                let position: usize = self.stdin_position;
                let from: usize = if position <= self.stdin.len() {
                    position
                } else {
                    self.stdin.len()
                };
                (take_from(&self.stdin, position as u64, wanted), from, false)
            },
            Some(Descriptor::File(open)) => {
                match self.files.get(open.path.as_str()) {
                    Some(contents) => {
                        assert(self@.files[open.path@] == contents@);
                        let from: usize = if open.position <= contents.len() as u64 {
                            open.position as usize
                        } else {
                            contents.len()
                        };
                        (take_from(contents, open.position, wanted), from, true)
                    },
                    None => {
                        return errno::NOENT;
                    },
                }
            },
            Some(_) => {
                return errno::INVAL;
            },
            None => {
                return errno::BADF;
            },
        };
        scatter(caller, &list, &bytes);
        let position: usize = from + bytes.len();
        if file {
            self.move_to(fd, position as u64);
        } else {
            self.stdin_position = position;
        }
        caller.write_i32(read, bytes.len() as i32);
        errno::SUCCESS
    }

    /// `fd_pread`: a read at an explicit offset, which does not move the position.
    pub fn fd_pread<M: Access>(
        &mut self,
        caller: &mut Caller<'_, M>,
        fd: i32,
        iovs: i32,
        count: i32,
        offset: i64,
        read: i32,
    ) -> (errno: i32)
        requires
            old(self).wf(),
            ({
                let memory = old(caller).contents();
                let list = vectors(memory, iovs, count);
                match opened(old(self)@, fd) {
                    Some(DescriptorModel::File(open)) => {
                        &&& vectors_fit(memory.len(), iovs, count)
                        &&& old(self)@.files.contains_key(open.path) ==> shares_fit(
                            memory.len(),
                            list,
                            taken(
                                old(self)@.files[open.path],
                                (offset as u64) as nat,
                                room(list),
                            ),
                        ) && old(caller).reaches(read, 4)
                    },
                    _ => true,
                }
            }),
        ensures
            final(self).wf(),
            final(self)@ == old(self)@,
            ({
                let memory = old(caller).contents();
                let list = vectors(memory, iovs, count);
                match opened(old(self)@, fd) {
                    Some(DescriptorModel::File(open)) => if old(self)@.files.contains_key(
                        open.path,
                    ) {
                        let bytes = taken(
                            old(self)@.files[open.path],
                            (offset as u64) as nat,
                            room(list),
                        );
                        &&& errno == errno::SUCCESS
                        &&& final(caller).contents() == delivered(memory, list, bytes, read)
                    } else {
                        &&& errno == errno::NOENT
                        &&& final(caller).contents() == memory
                    },
                    Some(_) => {
                        &&& errno == errno::SPIPE
                        &&& final(caller).contents() == memory
                    },
                    None => {
                        &&& errno == errno::BADF
                        &&& final(caller).contents() == memory
                    },
                }
            }),
            final(caller).same_limits(old(caller)),
            *final(final(caller).memory) == *final(old(caller).memory),
    {
        let ghost before = self@;
        let saved: u64 = match self.open.get(&fd) {
            Some(Descriptor::File(open)) => open.position,
            Some(_) => {
                return errno::SPIPE;
            },
            None => {
                return errno::BADF;
            },
        };
        self.move_to(fd, offset as u64);
        let result: i32 = self.fd_read(caller, fd, iovs, count, read);
        self.move_to(fd, saved);
        assert(self@.open =~= before.open);
        result
    }

    /// Where a seek lands, or why it does not.
    pub(crate) fn seek(&self, fd: i32, offset: i64, whence: i32) -> (position: Result<i64, i32>)
        requires
            self.wf(),
        ensures
            position == sought(self@, fd, offset, whence),
    {
        let (current, end): (i64, i64) = match self.open.get(&fd) {
            Some(Descriptor::File(open)) => match self.files.get(open.path.as_str()) {
                Some(contents) => (open.position as i64, contents.len() as i64),
                None => {
                    return Err(errno::NOENT);
                },
            },
            Some(_) => {
                return Err(errno::SPIPE);
            },
            None => {
                return Err(errno::BADF);
            },
        };
        let base: i64 = if whence == WHENCE_SET {
            0
        } else if whence == WHENCE_CUR {
            current
        } else if whence == WHENCE_END {
            end
        } else {
            return Err(errno::INVAL);
        };
        let position: i64 = match base.checked_add(offset) {
            Some(position) => position,
            None => {
                return Err(errno::INVAL);
            },
        };
        if position < 0 {
            return Err(errno::INVAL);
        }
        Ok(position)
    }

    /// `fd_seek`. Reports where it landed through `out`.
    ///
    /// Seeking a stream is not an error a caller can recover from by trying a
    /// different offset, so it gets its own errno.
    pub fn fd_seek<M: Access>(
        &mut self,
        caller: &mut Caller<'_, M>,
        fd: i32,
        offset: i64,
        whence: i32,
        out: i32,
    ) -> (errno: i32)
        requires
            old(self).wf(),
            sought(old(self)@, fd, offset, whence) is Ok ==> old(caller).reaches(out, 8),
        ensures
            final(self).wf(),
            match sought(old(self)@, fd, offset, whence) {
                Ok(position) => {
                    &&& errno == errno::SUCCESS
                    &&& final(self)@ == moved_to(
                        old(self)@,
                        fd,
                        opened(old(self)@, fd)->0->File_0,
                        position as u64,
                    )
                    &&& final(caller).contents() == splice(
                        old(caller).contents(),
                        effective(out, 0),
                        i64_bytes(position),
                    )
                },
                Err(why) => {
                    &&& errno == why
                    &&& final(self)@ == old(self)@
                    &&& final(caller).contents() == old(caller).contents()
                },
            },
            final(caller).same_limits(old(caller)),
            *final(final(caller).memory) == *final(old(caller).memory),
    {
        let position: i64 = match self.seek(fd, offset, whence) {
            Ok(position) => position,
            Err(why) => {
                return why;
            },
        };
        self.move_to(fd, position as u64);
        caller.write_i64(out, position);
        errno::SUCCESS
    }
}

} // verus!
