//! Whether what a call reads and writes lies inside the memory.
//!
//! A guest that hands over an address outside its memory traps. The functions here
//! answer beforehand whether a call would, so whoever drives the guest can raise
//! the trap.

use vstd::prelude::*;
use crate::hostlib::env::{c_bytes, layout_fits, pointer_place, text_place};
use crate::hostlib::io::{
    buffers_fit, entries, entry_at, gather, gathered, holdable, iovecs, least, room, room_of,
    share, shares_fit, sought, source_of, take_from, taken, vectors, vectors_fit, written_to,
};
use crate::hostlib::errno;
use crate::hostlib::wasi::{opened, with_opened, Descriptor, DescriptorModel, Standard, Wasi};
use crate::rt::words::splice;
use crate::hostlib::stat::{path_at, stat_of_fd, stat_of_path};
use crate::rt::access::{effective, fits, Access};
use crate::rt::caller::{terminated, Caller};
use crate::text::pieces::{from_utf8_lossy, texts};

verus! {

/// Whether an iovec array lies inside the memory.
pub fn vectors_in_bounds<M: Access>(caller: &Caller<'_, M>, iovs: i32, count: i32) -> (yes: bool)
    ensures
        yes == vectors_fit(caller.contents().len(), iovs, count),
{
    let mut at: i32 = 0;
    while at < count
        invariant
            0 <= at,
            at <= count || (at == 0 && count < 0),
            forall|i: int|
                0 <= i < at ==> fits(
                    caller.contents().len(),
                    #[trigger] entry_at(iovs, i),
                    0,
                    4,
                ) && fits(caller.contents().len(), entry_at(iovs, i).wrapping_add(4), 0, 4),
        decreases count - at,
    {
        let entry: i32 = iovs.wrapping_add(at.wrapping_mul(8));
        assert(entry == entry_at(iovs, at as int));
        if !(caller.in_bounds(entry, 4) && caller.in_bounds(entry.wrapping_add(4), 4)) {
            assert(at < entries(count));
            return false;
        }
        at = at + 1;
    }
    true
}

/// Whether every buffer of an iovec array lies inside the memory.
fn buffers_in_bounds<M: Access>(caller: &Caller<'_, M>, list: &Vec<(i32, i32)>) -> (yes: bool)
    ensures
        yes == buffers_fit(caller.contents().len(), list@),
{
    let mut i: usize = 0;
    while i < list.len()
        invariant
            i <= list@.len(),
            forall|j: int|
                0 <= j < i ==> fits(
                    caller.contents().len(),
                    (#[trigger] list@[j]).0,
                    0,
                    (list@[j].1 as u32) as int,
                ),
        decreases list@.len() - i,
    {
        let (address, length) = list[i];
        if !caller.in_bounds(address, (length as u32) as u64) {
            assert(!fits(caller.contents().len(), list@[i as int].0, 0, (length as u32) as int));
            return false;
        }
        i = i + 1;
    }
    true
}

/// Whether what goes to each buffer lies inside the memory.
fn shares_in_bounds<M: Access>(
    caller: &Caller<'_, M>,
    list: &Vec<(i32, i32)>,
    bytes: &Vec<u8>,
) -> (yes: bool)
    ensures
        yes == shares_fit(caller.contents().len(), list@, bytes@),
{
    let total: usize = bytes.len();
    let mut at: usize = 0;
    let mut i: usize = 0;
    assert(list@.take(0) =~= Seq::empty());
    while i < list.len()
        invariant
            i <= list@.len(),
            total == bytes@.len(),
            at == least(room(list@.take(i as int)) as int, total as int),
            forall|j: int|
                0 <= j < i && (#[trigger] share(list@, bytes@, j)).len() > 0 ==> fits(
                    caller.contents().len(),
                    list@[j].0,
                    0,
                    share(list@, bytes@, j).len() as int,
                ),
        decreases list@.len() - i,
    {
        let (address, length) = list[i];
        let size: u64 = (length as u32) as u64;
        let left: usize = total - at;
        let end: usize = if size <= left as u64 {
            at + size as usize
        } else {
            total
        };
        proof {
            crate::hostlib::io::lemma_share(list@, bytes@, i as int, at as int, end as int);
            assert(list@[i as int].0 == address);
        }
        if end > at && !caller.in_bounds(address, (end - at) as u64) {
            assert(share(list@, bytes@, i as int).len() == end - at);
            return false;
        }
        at = end;
        i = i + 1;
    }
    true
}

/// Whether texts and the pointers to them lie inside the memory.
fn layout_in_bounds<M: Access>(
    caller: &Caller<'_, M>,
    list: &Vec<String>,
    pointers: i32,
    buffer: i32,
) -> (yes: bool)
    ensures
        yes == layout_fits(caller.contents().len(), texts(list@), pointers, buffer),
{
    let ghost all = texts(list@);
    let ghost len = caller.contents().len();
    let total: usize = caller.memory.byte_len();
    let mut at: i32 = buffer;
    let mut i: usize = 0;
    while i < list.len()
        invariant
            i <= list@.len(),
            all == texts(list@),
            len == caller.contents().len(),
            total == len,
            at == text_place(all, buffer, i as int),
            forall|n: int|
                0 <= n < i ==> fits(len, #[trigger] pointer_place(pointers, n), 0, 4) && fits(
                    len,
                    text_place(all, buffer, n),
                    0,
                    c_bytes(all[n]).len() as int,
                ),
        decreases list@.len() - i,
    {
        assert(all[i as int] == list@[i as int]@);
        let pointer: i32 = pointers.wrapping_add((i as i32).wrapping_mul(4));
        assert(pointer == pointer_place(pointers, i as int));
        let bytes: &[u8] = list[i].as_str().as_bytes();
        assert(c_bytes(all[i as int]).len() == bytes@.len() + 1);
        if bytes.len() >= total || !caller.in_bounds(pointer, 4) || !caller.in_bounds(
            at,
            (bytes.len() + 1) as u64,
        ) {
            assert(!(fits(len, pointer_place(pointers, i as int), 0, 4) && fits(
                len,
                text_place(all, buffer, i as int),
                0,
                c_bytes(all[i as int]).len() as int,
            )));
            return false;
        }
        at = at.wrapping_add((bytes.len() + 1) as i32);
        i = i + 1;
    }
    true
}

impl Wasi {
    /// Whether everything [`Self::fd_write`] reads and writes lies inside the memory,
    /// and what it would leave is no longer than a file can be.
    pub fn fd_write_fits<M: Access>(
        &self,
        caller: &Caller<'_, M>,
        fd: i32,
        iovs: i32,
        count: i32,
        written: i32,
    ) -> (yes: bool)
        requires
            self.wf(),
        ensures
            yes == ({
                let memory = caller.contents();
                let list = vectors(memory, iovs, count);
                let bytes = gathered(memory, list);
                &&& vectors_fit(memory.len(), iovs, count)
                &&& buffers_fit(memory.len(), list)
                &&& holdable(self@, fd, bytes)
                &&& written_to(self@, fd, bytes) is Ok ==> caller.reaches(written, 4)
            }),
    {
        if !vectors_in_bounds(caller, iovs, count) {
            return false;
        }
        let list: Vec<(i32, i32)> = iovecs(caller, iovs, count);
        if !buffers_in_bounds(caller, &list) {
            return false;
        }
        let bytes: Vec<u8> = gather(caller, &list);
        let reports: bool = match self.open.get(&fd) {
            Some(Descriptor::Standard(Standard::Out)) | Some(
                Descriptor::Standard(Standard::Error),
            ) => true,
            Some(Descriptor::File(open)) => match self.files.get(open.path.as_str()) {
                Some(contents) => {
                    assert(self@.files[open.path@] == contents@);
                    let at: u64 = if open.append {
                        contents.len() as u64
                    } else {
                        open.position
                    };
                    if at as u128 + bytes.len() as u128 > isize::MAX as u128 {
                        return false;
                    }
                    true
                },
                None => false,
            },
            _ => false,
        };
        !reports || caller.in_bounds(written, 4)
    }

    /// Whether everything [`Self::fd_read`] reads and writes lies inside the memory.
    pub fn fd_read_fits<M: Access>(
        &self,
        caller: &Caller<'_, M>,
        fd: i32,
        iovs: i32,
        count: i32,
        read: i32,
    ) -> (yes: bool)
        requires
            self.wf(),
        ensures
            yes == ({
                let memory = caller.contents();
                let list = vectors(memory, iovs, count);
                &&& vectors_fit(memory.len(), iovs, count)
                &&& match source_of(self@, fd) {
                    Ok((source, position)) => {
                        &&& shares_fit(memory.len(), list, taken(source, position, room(list)))
                        &&& caller.reaches(read, 4)
                    },
                    Err(_) => true,
                }
            }),
    {
        if !vectors_in_bounds(caller, iovs, count) {
            return false;
        }
        let list: Vec<(i32, i32)> = iovecs(caller, iovs, count);
        let wanted: u128 = room_of(&list);
        let bytes: Vec<u8> = match self.open.get(&fd) {
            Some(Descriptor::Standard(Standard::In)) => take_from(
                &self.stdin,
                self.stdin_position as u64,
                wanted,
            ),
            Some(Descriptor::File(open)) => match self.files.get(open.path.as_str()) {
                Some(contents) => {
                    assert(self@.files[open.path@] == contents@);
                    take_from(contents, open.position, wanted)
                },
                None => {
                    return true;
                },
            },
            _ => {
                return true;
            },
        };
        shares_in_bounds(caller, &list, &bytes) && caller.in_bounds(read, 4)
    }

    /// Whether everything [`Self::fd_pread`] reads and writes lies inside the memory.
    pub fn fd_pread_fits<M: Access>(
        &self,
        caller: &Caller<'_, M>,
        fd: i32,
        iovs: i32,
        count: i32,
        offset: i64,
        read: i32,
    ) -> (yes: bool)
        requires
            self.wf(),
        ensures
            yes == ({
                let memory = caller.contents();
                let list = vectors(memory, iovs, count);
                match opened(self@, fd) {
                    Some(DescriptorModel::File(open)) => {
                        &&& vectors_fit(memory.len(), iovs, count)
                        &&& self@.files.contains_key(open.path) ==> shares_fit(
                            memory.len(),
                            list,
                            taken(self@.files[open.path], (offset as u64) as nat, room(list)),
                        ) && caller.reaches(read, 4)
                    },
                    _ => true,
                }
            }),
    {
        match self.open.get(&fd) {
            Some(Descriptor::File(open)) => {
                if !vectors_in_bounds(caller, iovs, count) {
                    return false;
                }
                let list: Vec<(i32, i32)> = iovecs(caller, iovs, count);
                match self.files.get(open.path.as_str()) {
                    Some(contents) => {
                        assert(self@.files[open.path@] == contents@);
                        let bytes: Vec<u8> = take_from(contents, offset as u64, room_of(&list));
                        shares_in_bounds(caller, &list, &bytes) && caller.in_bounds(read, 4)
                    },
                    None => true,
                }
            },
            _ => true,
        }
    }

    /// Whether the environment and the pointers to it lie inside the memory.
    pub fn environ_fits<M: Access>(
        &self,
        caller: &Caller<'_, M>,
        pointers: i32,
        buffer: i32,
    ) -> (yes: bool)
        ensures
            yes == layout_fits(caller.contents().len(), self@.environment, pointers, buffer),
    {
        layout_in_bounds(caller, &self.environment, pointers, buffer)
    }

    /// Whether the arguments and the pointers to them lie inside the memory.
    pub fn args_fit<M: Access>(
        &self,
        caller: &Caller<'_, M>,
        pointers: i32,
        buffer: i32,
    ) -> (yes: bool)
        ensures
            yes == layout_fits(caller.contents().len(), self@.arguments, pointers, buffer),
    {
        layout_in_bounds(caller, &self.arguments, pointers, buffer)
    }

    /// Whether everything [`Self::fd_seek`] writes lies inside the memory. A seek that
    /// is refused writes nothing.
    pub fn fd_seek_fits<M: Access>(
        &self,
        caller: &Caller<'_, M>,
        fd: i32,
        offset: i64,
        whence: i32,
        out: i32,
    ) -> (yes: bool)
        requires
            self.wf(),
        ensures
            yes == (sought(self@, fd, offset, whence) is Ok ==> caller.reaches(out, 8)),
    {
        self.seek(fd, offset, whence).is_err() || caller.in_bounds(out, 8)
    }

    /// Whether everything [`Self::stat_path`] reads and writes lies inside the memory.
    pub fn stat_path_fits<M: Access>(&self, caller: &Caller<'_, M>, path: i32, buf: i32) -> (yes:
        bool)
        requires
            self.wf(),
        ensures
            yes == (terminated(caller.contents(), effective(path, 0)) && (stat_of_path(
                self@,
                path_at(caller.contents(), path),
            ) is Some ==> caller.reaches(buf, 96))),
    {
        if !caller.has_cstring(path) {
            return false;
        }
        let bytes: Vec<u8> = caller.cstring(path);
        let name: String = from_utf8_lossy(bytes.as_slice());
        !(self.files.contains_key(name.as_str()) || self.is_directory(name.as_str()))
            || caller.in_bounds(buf, 96)
    }

    /// Whether everything [`Self::stat_fd`] writes lies inside the memory.
    pub fn stat_fd_fits<M: Access>(&self, caller: &Caller<'_, M>, fd: i32, buf: i32) -> (yes: bool)
        requires
            self.wf(),
        ensures
            yes == (stat_of_fd(self@, fd) is Ok ==> caller.reaches(buf, 96)),
    {
        let there: bool = match self.open.get(&fd) {
            Some(Descriptor::File(open)) => self.files.contains_key(open.path.as_str()),
            Some(_) => true,
            None => false,
        };
        !there || caller.in_bounds(buf, 96)
    }

    /// [`Self::stat_path`], where everything it reads and writes lies inside the
    /// memory. `None`, with nothing written, where it does not.
    pub fn try_stat_path<M: Access>(&self, caller: &mut Caller<'_, M>, path: i32, buf: i32) -> (errno:
        Option<i32>)
        requires
            self.wf(),
        ensures
            ({
                let memory = old(caller).contents();
                let named = terminated(memory, effective(path, 0));
                match stat_of_path(self@, path_at(memory, path)) {
                    Some(bytes) => if named && old(caller).reaches(buf, 96) {
                        &&& errno == Some(errno::SUCCESS)
                        &&& final(caller).contents() == splice(memory, effective(buf, 0), bytes)
                    } else {
                        &&& errno is None
                        &&& final(caller).contents() == memory
                    },
                    None => {
                        &&& errno == if named {
                            Some(-errno::NOENT as i32)
                        } else {
                            None
                        }
                        &&& final(caller).contents() == memory
                    },
                }
            }),
            final(caller).same_limits(old(caller)),
            *final(final(caller).memory) == *final(old(caller).memory),
    {
        if self.stat_path_fits(caller, path, buf) {
            Some(self.stat_path(caller, path, buf))
        } else {
            None
        }
    }

    /// [`Self::openat_at`], where the path lies inside the memory and there is a
    /// descriptor left to give. `None`, with nothing changed, where not.
    pub fn try_openat_at<M: Access>(&mut self, caller: &Caller<'_, M>, path: i32, flags: i32) -> (fd:
        Option<i32>)
        requires
            old(self).wf(),
        ensures
            final(self).wf(),
            ({
                let before = old(self)@;
                let name = path_at(caller.contents(), path);
                let opens = before.files.contains_key(name) || flags & 0o100 != 0;
                if !terminated(caller.contents(), effective(path, 0)) || (opens && before.next_fd
                    == i32::MAX) {
                    &&& fd is None
                    &&& final(self)@ == before
                } else if opens {
                    &&& fd == Some(before.next_fd)
                    &&& final(self)@ == with_opened(before, name, flags & 0o2000 != 0)
                } else {
                    &&& fd == Some(-errno::NOENT as i32)
                    &&& final(self)@ == before
                }
            }),
    {
        if !caller.has_cstring(path) {
            return None;
        }
        if self.next_fd == i32::MAX {
            let bytes: Vec<u8> = caller.cstring(path);
            let name: String = from_utf8_lossy(bytes.as_slice());
            if self.files.contains_key(name.as_str()) || flags & 0o100 != 0 {
                return None;
            }
        }
        Some(self.openat_at(caller, path, flags))
    }
}

} // verus!
