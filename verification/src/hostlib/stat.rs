//! What a path or a descriptor is.

use vstd::prelude::*;
use crate::hostlib::errno;
use crate::hostlib::wasi::{append_bytes, opened, Descriptor, DescriptorModel, Wasi, WasiModel};
use crate::rt::access::{effective, Access};
use crate::rt::caller::{
    bytes_of_i32, bytes_of_i64, c_text, i32_bytes, i64_bytes, terminated, Caller,
};
use crate::rt::words::splice;
use crate::text::pieces::{begins_with, from_utf8_lossy, lossy_text, same_text, text_begins};
use crate::text::pieces::chars_of;
use crate::text::table::{lemma_ordered, ordered};

verus! {

/// The mode of a directory: `S_IFDIR | rwxr-xr-x`.
pub const MODE_DIRECTORY: i32 = 0o040_755;

/// The mode of a file: `S_IFREG | rw-r--r--`.
pub const MODE_FILE: i32 = 0o100_644;

/// The mode of a stream: `S_IFCHR | rw--w----`.
pub const MODE_STREAM: i32 = 0o020_620;

/// So many zero bytes.
pub open spec fn zeros(n: nat) -> Seq<u8> {
    Seq::new(n, |i: int| 0u8)
}

/// How many blocks of 512 bytes something takes.
pub open spec fn blocks(size: usize) -> usize {
    ((size + 511) / 512) as usize
}

/// A `struct stat` of 96 bytes: `st_dev`, `st_mode` at 4, `st_nlink` at 8,
/// `st_size` at 24, `st_blksize` at 32, `st_blocks` at 36 and `st_ino` at 88. All
/// else is zero, the times too: a filesystem that lives in a struct has no history.
pub open spec fn stat_bytes(mode: i32, size: usize, inode: i64) -> Seq<u8> {
    i32_bytes(1) + i32_bytes(mode) + i32_bytes(1) + zeros(12) + i64_bytes(size as i64) + i32_bytes(
        4096,
    ) + i32_bytes(blocks(size) as i32) + zeros(48) + i64_bytes(inode)
}

/// The text of the C string at an address.
pub open spec fn path_at(memory: Seq<u8>, address: i32) -> Seq<char> {
    lossy_text(c_text(memory, effective(address, 0)))
}

/// A path as the beginning of what lives under it.
pub open spec fn prefix_of(path: Seq<char>) -> Seq<char> {
    if path.len() > 0 && path.last() == '/' {
        path
    } else {
        path.push('/')
    }
}

/// Whether anything in the filesystem lives under a path.
pub open spec fn has_under(wasi: WasiModel, path: Seq<char>) -> bool {
    path == "/"@ || exists|name: Seq<char>| #[trigger]
        wasi.files.contains_key(name) && begins_with(name, prefix_of(path))
}

/// The inode of a path: its place in the order of paths, and two more.
pub open spec fn inode_at(wasi: WasiModel, path: Seq<char>) -> i64 {
    if wasi.files.contains_key(path) {
        (ordered(wasi.files.dom()).index_of(path) + 2) as i64
    } else {
        0
    }
}

/// What is said of a path, if anything is there. A directory exists if anything
/// lives under it.
pub open spec fn stat_of_path(wasi: WasiModel, path: Seq<char>) -> Option<Seq<u8>> {
    if wasi.files.contains_key(path) {
        Some(
            stat_bytes(
                MODE_FILE,
                wasi.files[path].len() as usize,
                inode_at(wasi, path),
            ),
        )
    } else if has_under(wasi, path) {
        Some(stat_bytes(MODE_DIRECTORY, 0, 1))
    } else {
        None
    }
}

/// What is said of a descriptor, or why nothing is.
pub open spec fn stat_of_fd(wasi: WasiModel, fd: i32) -> Result<Seq<u8>, i32> {
    match opened(wasi, fd) {
        Some(DescriptorModel::File(open)) => if wasi.files.contains_key(open.path) {
            Ok(
                stat_bytes(
                    MODE_FILE,
                    wasi.files[open.path].len() as usize,
                    inode_at(wasi, open.path),
                ),
            )
        } else {
            Err(errno::NOENT)
        },
        Some(DescriptorModel::Directory(_)) => Ok(stat_bytes(MODE_DIRECTORY, 0, 1)),
        Some(DescriptorModel::Standard(_)) => Ok(stat_bytes(MODE_STREAM, 0, 0)),
        None => Err(errno::BADF),
    }
}

/// Appends zeros.
pub(crate) fn append_zeros(bytes: &mut Vec<u8>, n: usize)
    ensures
        final(bytes)@ == old(bytes)@ + zeros(n as nat),
{
    let ghost before = bytes@;
    let mut i: usize = 0;
    assert(before + zeros(0) =~= before);
    while i < n
        invariant
            i <= n,
            bytes@ == before + zeros(i as nat),
        decreases n - i,
    {
        bytes.push(0);
        i = i + 1;
        assert(bytes@ =~= before + zeros(i as nat));
    }
}

/// Appends an i32 as the guest stores it.
pub(crate) fn append_i32(bytes: &mut Vec<u8>, value: i32)
    ensures
        final(bytes)@ == old(bytes)@ + i32_bytes(value),
        final(bytes)@.len() == old(bytes)@.len() + 4,
{
    let four: Vec<u8> = bytes_of_i32(value);
    append_bytes(bytes, four.as_slice());
}

/// Appends an i64 as the guest stores it.
fn append_i64(bytes: &mut Vec<u8>, value: i64)
    ensures
        final(bytes)@ == old(bytes)@ + i64_bytes(value),
        final(bytes)@.len() == old(bytes)@.len() + 8,
{
    let eight: Vec<u8> = bytes_of_i64(value);
    append_bytes(bytes, eight.as_slice());
}

/// Writes a `struct stat`.
fn write_record<M: Access>(
    caller: &mut Caller<'_, M>,
    buf: i32,
    mode: i32,
    size: usize,
    inode: i64,
)
    requires
        old(caller).reaches(buf, 96),
    ensures
        final(caller).contents() == splice(
            old(caller).contents(),
            effective(buf, 0),
            stat_bytes(mode, size, inode),
        ),
        stat_bytes(mode, size, inode).len() == 96,
        final(caller).same_limits(old(caller)),
        *final(final(caller).memory) == *final(old(caller).memory),
{
    let count: usize = if size % 512 == 0 {
        size / 512
    } else {
        size / 512 + 1
    };
    assert(count == blocks(size));
    let mut bytes: Vec<u8> = Vec::new();
    append_i32(&mut bytes, 1);
    append_i32(&mut bytes, mode);
    append_i32(&mut bytes, 1);
    append_zeros(&mut bytes, 12);
    append_i64(&mut bytes, size as i64);
    append_i32(&mut bytes, 4096);
    append_i32(&mut bytes, count as i32);
    append_zeros(&mut bytes, 48);
    append_i64(&mut bytes, inode);
    assert(bytes@ =~= stat_bytes(mode, size, inode));
    caller.write(buf, bytes.as_slice());
}

impl Wasi {
    /// `__syscall_openat(dirfd, path, flags, mode)`, which is how Emscripten spells
    /// `open`: musl's `O_CREAT` is `0o100` and its `O_APPEND` `0o2000`.
    ///
    /// The directory descriptor is ignored: every path in this filesystem is
    /// absolute.
    pub fn openat_at<M: Access>(&mut self, caller: &Caller<'_, M>, path: i32, flags: i32) -> (fd: i32)
        requires
            old(self).wf(),
            terminated(caller.contents(), effective(path, 0)),
            old(self)@.files.contains_key(path_at(caller.contents(), path)) || flags & 0o100 != 0
                ==> old(self)@.next_fd < i32::MAX,
        ensures
            final(self).wf(),
            ({
                let before = old(self)@;
                let name = path_at(caller.contents(), path);
                if before.files.contains_key(name) || flags & 0o100 != 0 {
                    &&& fd == before.next_fd
                    &&& final(self)@ == crate::hostlib::wasi::with_opened(
                        before,
                        name,
                        flags & 0o2000 != 0,
                    )
                } else {
                    &&& fd == -errno::NOENT
                    &&& final(self)@ == before
                }
            }),
    {
        let bytes: Vec<u8> = caller.cstring(path);
        let name: String = from_utf8_lossy(bytes.as_slice());
        self.openat(name.as_str(), flags & 0o100 != 0, flags & 0o2000 != 0)
    }

    /// `__syscall_unlinkat`. Returns 0, or the negative errno a syscall does.
    pub fn unlinkat<M: Access>(&mut self, caller: &Caller<'_, M>, path: i32) -> (errno: i32)
        requires
            old(self).wf(),
            terminated(caller.contents(), effective(path, 0)),
        ensures
            final(self).wf(),
            ({
                let before = old(self)@;
                let name = path_at(caller.contents(), path);
                &&& final(self)@ == (WasiModel { files: before.files.remove(name), ..before })
                &&& errno == if before.files.contains_key(name) {
                    0i32
                } else {
                    -errno::NOENT as i32
                }
            }),
    {
        let bytes: Vec<u8> = caller.cstring(path);
        let name: String = from_utf8_lossy(bytes.as_slice());
        self.unlink(name.as_str())
    }

    /// Takes a file out of the filesystem. Returns 0, or the negative errno a syscall
    /// does.
    pub fn unlink(&mut self, name: &str) -> (errno: i32)
        requires
            old(self).wf(),
        ensures
            final(self).wf(),
            final(self)@ == (WasiModel {
                files: old(self)@.files.remove(name@),
                ..old(self)@
            }),
            errno == if old(self)@.files.contains_key(name@) {
                0i32
            } else {
                -errno::NOENT as i32
            },
    {
        let gone: Option<Vec<u8>> = self.files.remove(name);
        assert(self@.files =~= old(self)@.files.remove(name@));
        match gone {
            Some(_) => 0,
            None => -errno::NOENT,
        }
    }

    /// Writes a `struct stat` at `buf` for something of `size` bytes.
    ///
    /// The offsets are Emscripten's own: the 96-byte layout with `st_size` at 24 as
    /// an i64 and `st_ino` at 88. This depends on a layout rather than on something
    /// the wasm itself says, and it is toolchain-specific.
    pub fn write_stat<M: Access>(
        &self,
        caller: &mut Caller<'_, M>,
        buf: i32,
        size: usize,
        directory: bool,
        inode: i64,
    ) -> (errno: i32)
        requires
            old(caller).reaches(buf, 96),
        ensures
            errno == errno::SUCCESS,
            final(caller).contents() == splice(
                old(caller).contents(),
                effective(buf, 0),
                stat_bytes(
                    if directory {
                        MODE_DIRECTORY
                    } else {
                        MODE_FILE
                    },
                    size,
                    inode,
                ),
            ),
            final(caller).same_limits(old(caller)),
            *final(final(caller).memory) == *final(old(caller).memory),
    {
        let mode: i32 = if directory {
            MODE_DIRECTORY
        } else {
            MODE_FILE
        };
        write_record(caller, buf, mode, size, inode);
        errno::SUCCESS
    }

    /// `__syscall_stat64` and `__syscall_lstat64`: no symbolic links live in this
    /// filesystem, so the two are the same answer.
    ///
    /// Returns 0, or the negative errno a Linux syscall returns.
    pub fn stat_path<M: Access>(&self, caller: &mut Caller<'_, M>, path: i32, buf: i32) -> (errno:
        i32)
        requires
            self.wf(),
            terminated(old(caller).contents(), effective(path, 0)),
            stat_of_path(self@, path_at(old(caller).contents(), path)) is Some ==> old(
                caller,
            ).reaches(buf, 96),
        ensures
            match stat_of_path(self@, path_at(old(caller).contents(), path)) {
                Some(bytes) => {
                    &&& errno == errno::SUCCESS
                    &&& final(caller).contents() == splice(
                        old(caller).contents(),
                        effective(buf, 0),
                        bytes,
                    )
                },
                None => {
                    &&& errno == -errno::NOENT
                    &&& final(caller).contents() == old(caller).contents()
                },
            },
            final(caller).same_limits(old(caller)),
            *final(final(caller).memory) == *final(old(caller).memory),
    {
        let bytes: Vec<u8> = caller.cstring(path);
        let name: String = from_utf8_lossy(bytes.as_slice());
        self.stat_name(caller, name.as_str(), buf)
    }

    /// Writes what is said of a path, if anything is there.
    ///
    /// Returns 0, or the negative errno a Linux syscall returns.
    pub fn stat_name<M: Access>(&self, caller: &mut Caller<'_, M>, name: &str, buf: i32) -> (errno:
        i32)
        requires
            self.wf(),
            stat_of_path(self@, name@) is Some ==> old(caller).reaches(buf, 96),
        ensures
            match stat_of_path(self@, name@) {
                Some(bytes) => {
                    &&& errno == errno::SUCCESS
                    &&& final(caller).contents() == splice(
                        old(caller).contents(),
                        effective(buf, 0),
                        bytes,
                    )
                },
                None => {
                    &&& errno == -errno::NOENT
                    &&& final(caller).contents() == old(caller).contents()
                },
            },
            final(caller).same_limits(old(caller)),
            *final(final(caller).memory) == *final(old(caller).memory),
    {
        match self.files.get(name) {
            Some(contents) => {
                assert(self@.files[name@] == contents@);
                let inode: i64 = self.inode_of(name);
                self.write_stat(caller, buf, contents.len(), false, inode)
            },
            None => if self.is_directory(name) {
                self.write_stat(caller, buf, 0, true, 1)
            } else {
                -errno::NOENT
            },
        }
    }

    /// `__syscall_fstat64`, for something already open.
    ///
    /// A standard stream is a character device: reporting it as a regular file of
    /// length zero is what makes an `isatty` answer wrong.
    pub fn stat_fd<M: Access>(&self, caller: &mut Caller<'_, M>, fd: i32, buf: i32) -> (errno: i32)
        requires
            self.wf(),
            stat_of_fd(self@, fd) is Ok ==> old(caller).reaches(buf, 96),
        ensures
            match stat_of_fd(self@, fd) {
                Ok(bytes) => {
                    &&& errno == errno::SUCCESS
                    &&& final(caller).contents() == splice(
                        old(caller).contents(),
                        effective(buf, 0),
                        bytes,
                    )
                },
                Err(why) => {
                    &&& errno == -why
                    &&& final(caller).contents() == old(caller).contents()
                },
            },
            final(caller).same_limits(old(caller)),
            *final(final(caller).memory) == *final(old(caller).memory),
    {
        match self.open.get(&fd) {
            Some(Descriptor::File(open)) => match self.files.get(open.path.as_str()) {
                Some(contents) => {
                    assert(self@.files[open.path@] == contents@);
                    let inode: i64 = self.inode_of(open.path.as_str());
                    self.write_stat(caller, buf, contents.len(), false, inode)
                },
                None => -errno::NOENT,
            },
            Some(Descriptor::Directory(_)) => self.write_stat(caller, buf, 0, true, 1),
            Some(Descriptor::Standard(_)) => {
                write_record(caller, buf, MODE_STREAM, 0, 0);
                errno::SUCCESS
            },
            None => -errno::BADF,
        }
    }

    /// Whether anything in the filesystem lives under `path`.
    pub fn is_directory(&self, path: &str) -> (yes: bool)
        requires
            self.wf(),
        ensures
            yes == has_under(self@, path@),
    {
        if same_text(path, "/") {
            return true;
        }
        let chars: Vec<char> = chars_of(path);
        let mut prefix: String = path.to_owned();
        if !(chars.len() > 0 && chars[chars.len() - 1] == '/') {
            prefix.push('/');
        }
        let ghost keys = self.files.keys();
        proof {
            self.files.lemma_shape();
        }
        let mut i: usize = 0;
        while i < self.files.len()
            invariant
                self.wf(),
                keys == self.files.keys(),
                i <= keys.len(),
                prefix@ == prefix_of(path@),
                forall|key: Seq<char>| #[trigger]
                    self.files@.contains_key(key) == keys.contains(key),
                forall|j: int| 0 <= j < i ==> !begins_with(#[trigger] keys[j], prefix_of(path@)),
            decreases keys.len() - i,
        {
            let name: &String = self.files.key_at(i);
            if text_begins(name.as_str(), prefix.as_str()) {
                proof {
                    assert(keys.contains(keys[i as int]));
                    assert(self@.files.contains_key(name@));
                }
                return true;
            }
            i = i + 1;
        }
        proof {
            if has_under(self@, path@) {
                let name = choose|name: Seq<char>| #[trigger]
                    self@.files.contains_key(name) && begins_with(name, prefix_of(path@));
                assert(self.files@.contains_key(name));
                let j = choose|j: int| 0 <= j < keys.len() && keys[j] == name;
                assert(!begins_with(keys[j], prefix_of(path@)));
            }
        }
        false
    }

    /// A stable inode for a path: its position in the map.
    ///
    /// Stable within a run, which is what a program comparing two `stat` results
    /// needs, and not stable across runs, which nothing needs.
    fn inode_of(&self, path: &str) -> (inode: i64)
        requires
            self.wf(),
        ensures
            inode == inode_at(self@, path@),
    {
        proof {
            self.files.lemma_shape();
            assert forall|key: Seq<char>| #[trigger]
                self.files.keys().contains(key) == self@.files.dom().contains(key) by {
                assert(self.files@.contains_key(key) == self.files.keys().contains(key));
            }
            lemma_ordered(self.files.keys(), self@.files.dom());
        }
        match self.files.position(path) {
            Some(at) => {
                proof {
                    let keys = self.files.keys();
                    assert(keys.contains(path@));
                    let other = keys.index_of(path@);
                    assert(keys[other] == keys[at as int]);
                }
                (at as i128 + 2) as i64
            },
            None => 0,
        }
    }
}

} // verus!
