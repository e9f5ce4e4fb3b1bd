//! A host for the WASI imports, over a filesystem that lives in a struct.

use vstd::prelude::*;
use std::collections::BTreeMap;
use crate::hostlib::errno;
use crate::text::pieces::{from_utf8_lossy, lossy_text, texts};
use crate::text::table::TextMap;

verus! {

/// A guest exit, as `proc_exit` and `exit` raise it.
///
/// Whoever drives the guest raises it, because there is nothing to return to: the
/// module has said it is finished.
#[derive(Debug, Clone, Copy, PartialEq, Eq, Structural)]
pub struct Exit {
    /// The status the guest asked for.
    pub code: i32,
}

/// An open file descriptor.
#[derive(Debug, Clone, PartialEq, Eq)]
pub struct Open {
    /// The path it was opened under, and the key into [`Wasi::files`].
    pub path: String,
    /// Where the next read or write lands.
    pub position: u64,
    /// Whether writes go to the end regardless of the position.
    pub append: bool,
}

/// A stream that is not a file: the three the C runtime assumes exist.
#[derive(Debug, Clone, Copy, PartialEq, Eq, Structural)]
pub enum Standard {
    /// `stdin`, read from [`Wasi::stdin`].
    In,
    /// `stdout`, collected into [`Wasi::stdout`].
    Out,
    /// `stderr`, collected into [`Wasi::stderr`].
    Error,
}

/// What a descriptor number refers to.
#[derive(Debug, Clone, PartialEq, Eq)]
pub enum Descriptor {
    /// One of the three standard streams.
    Standard(Standard),
    /// A file in [`Wasi::files`].
    File(Open),
    /// A directory, which `openat` resolves paths against.
    Directory(String),
}

/// A host for the WASI imports, over a filesystem that lives in this struct.
///
/// Descriptors 0, 1 and 2 are open before the module starts, because a C runtime
/// assumes they are; 3 is the preopened root directory, which is what
/// `__syscall_openat` resolves a relative path against.
#[derive(Debug, Clone, PartialEq)]
pub struct Wasi {
    /// The filesystem: a path to its contents. Nothing outside it exists.
    pub files: TextMap<Vec<u8>>,
    /// Open descriptors by number.
    pub open: BTreeMap<i32, Descriptor>,
    /// What the next `openat` will be given.
    pub next_fd: i32,
    /// What the guest has written to `stdout`.
    pub stdout: Vec<u8>,
    /// What the guest has written to `stderr`.
    pub stderr: Vec<u8>,
    /// What a read of `stdin` will produce, and how far it has got.
    pub stdin: Vec<u8>,
    /// The read position in `stdin`.
    pub stdin_position: usize,
    /// The environment, as `NAME=value`.
    pub environment: Vec<String>,
    /// `argv`.
    pub arguments: Vec<String>,
    /// The seed the next `random_get` continues from.
    pub random: u64,
    /// Nanoseconds since the epoch, as the clock imports report it. It does not
    /// advance by itself: a host that wants a moving clock moves it.
    pub now_nanoseconds: i64,
}

/// An open file, as plain values.
pub struct OpenModel {
    /// The path.
    pub path: Seq<char>,
    /// Where the next read or write lands.
    pub position: u64,
    /// Whether writes go to the end.
    pub append: bool,
}

/// A descriptor, as plain values.
pub enum DescriptorModel {
    /// One of the three standard streams.
    Standard(Standard),
    /// A file.
    File(OpenModel),
    /// A directory.
    Directory(Seq<char>),
}

/// A host, as plain values.
pub struct WasiModel {
    /// The filesystem.
    pub files: Map<Seq<char>, Seq<u8>>,
    /// Open descriptors by number.
    pub open: Map<i32, DescriptorModel>,
    /// The next descriptor.
    pub next_fd: i32,
    /// What was written to `stdout`.
    pub stdout: Seq<u8>,
    /// What was written to `stderr`.
    pub stderr: Seq<u8>,
    /// What `stdin` produces.
    pub stdin: Seq<u8>,
    /// How far it has got.
    pub stdin_position: usize,
    /// The environment.
    pub environment: Seq<Seq<char>>,
    /// The arguments.
    pub arguments: Seq<Seq<char>>,
    /// The seed.
    pub random: u64,
    /// The clock.
    pub now_nanoseconds: i64,
}

impl View for Open {
    type V = OpenModel;

    open spec fn view(&self) -> OpenModel {
        OpenModel { path: self.path@, position: self.position, append: self.append }
    }
}

impl View for Descriptor {
    type V = DescriptorModel;

    open spec fn view(&self) -> DescriptorModel {
        match *self {
            Descriptor::Standard(stream) => DescriptorModel::Standard(stream),
            Descriptor::File(open) => DescriptorModel::File(open@),
            Descriptor::Directory(path) => DescriptorModel::Directory(path@),
        }
    }
}

/// Files, as plain values.
pub open spec fn file_models(files: Map<Seq<char>, Vec<u8>>) -> Map<Seq<char>, Seq<u8>> {
    files.map_values(|contents: Vec<u8>| contents@)
}

/// Descriptors, as plain values.
pub open spec fn open_models(open: Map<i32, Descriptor>) -> Map<i32, DescriptorModel> {
    open.map_values(|descriptor: Descriptor| descriptor@)
}

impl View for Wasi {
    type V = WasiModel;

    open spec fn view(&self) -> WasiModel {
        WasiModel {
            files: file_models(self.files@),
            open: open_models(self.open@),
            next_fd: self.next_fd,
            stdout: self.stdout@,
            stderr: self.stderr@,
            stdin: self.stdin@,
            stdin_position: self.stdin_position,
            environment: texts(self.environment@),
            arguments: texts(self.arguments@),
            random: self.random,
            now_nanoseconds: self.now_nanoseconds,
        }
    }
}

/// A host before the module starts.
pub open spec fn fresh() -> WasiModel {
    WasiModel {
        files: Map::empty(),
        open: Map::empty().insert(0i32, DescriptorModel::Standard(Standard::In)).insert(
            1i32,
            DescriptorModel::Standard(Standard::Out),
        ).insert(2i32, DescriptorModel::Standard(Standard::Error)).insert(
            3i32,
            DescriptorModel::Directory("/"@),
        ),
        next_fd: 4,
        stdout: Seq::empty(),
        stderr: Seq::empty(),
        stdin: Seq::empty(),
        stdin_position: 0,
        environment: Seq::empty(),
        arguments: seq!["module.wasm"@],
        random: 0x2545_F491_4F6C_DD1D,
        now_nanoseconds: 0,
    }
}

impl Default for Wasi {
    fn default() -> (wasi: Self)
        ensures
            wasi.wf(),
            wasi@ == fresh(),
    {
        let mut open: BTreeMap<i32, Descriptor> = BTreeMap::new();
        open.insert(0, Descriptor::Standard(Standard::In));
        open.insert(1, Descriptor::Standard(Standard::Out));
        open.insert(2, Descriptor::Standard(Standard::Error));
        open.insert(3, Descriptor::Directory("/".to_owned()));
        let mut arguments: Vec<String> = Vec::new();
        arguments.push("module.wasm".to_owned());
        let wasi: Wasi = Wasi {
            files: TextMap::new(),
            open,
            next_fd: 4,
            stdout: Vec::new(),
            stderr: Vec::new(),
            stdin: Vec::new(),
            stdin_position: 0,
            environment: Vec::new(),
            arguments,
            // Any non-zero seed does, since the generator is xorshift and zero is
            // its fixed point.
            random: 0x2545_F491_4F6C_DD1D,
            now_nanoseconds: 0,
        };
        proof {
            assert(wasi@.files =~= fresh().files);
            assert(wasi@.open =~= fresh().open);
            assert(wasi@.environment =~= fresh().environment);
            assert(wasi@.arguments =~= fresh().arguments);
        }
        wasi
    }
}

/// The same bytes.
pub fn copy_bytes(bytes: &[u8]) -> (copy: Vec<u8>)
    ensures
        copy@ == bytes@,
{
    let mut copy: Vec<u8> = Vec::new();
    let mut i: usize = 0;
    while i < bytes.len()
        invariant
            i <= bytes@.len(),
            copy@ == bytes@.take(i as int),
        decreases bytes@.len() - i,
    {
        copy.push(bytes[i]);
        i = i + 1;
        assert(copy@ =~= bytes@.take(i as int));
    }
    assert(bytes@.take(i as int) =~= bytes@);
    copy
}

/// Appends bytes.
pub fn append_bytes(to: &mut Vec<u8>, bytes: &[u8])
    ensures
        final(to)@ == old(to)@ + bytes@,
{
    let ghost before = to@;
    let mut i: usize = 0;
    assert(before + bytes@.take(0) =~= before);
    while i < bytes.len()
        invariant
            i <= bytes@.len(),
            to@ == before + bytes@.take(i as int),
        decreases bytes@.len() - i,
    {
        to.push(bytes[i]);
        i = i + 1;
        assert(to@ =~= before + bytes@.take(i as int));
    }
    assert(bytes@.take(i as int) =~= bytes@);
}

/// Whether a descriptor is open, and what it refers to.
pub open spec fn opened(wasi: WasiModel, fd: i32) -> Option<DescriptorModel> {
    if wasi.open.contains_key(fd) {
        Some(wasi.open[fd])
    } else {
        None
    }
}

/// A host with a file's contents replaced and its descriptor moved.
pub open spec fn moved_to(wasi: WasiModel, fd: i32, open: OpenModel, position: u64) -> WasiModel {
    WasiModel {
        open: wasi.open.insert(
            fd,
            DescriptorModel::File(OpenModel { position, ..open }),
        ),
        ..wasi
    }
}

impl Wasi {
    /// The paths stand in order, each once.
    pub open spec fn wf(&self) -> bool {
        self.files.wf()
    }

    /// Puts a file in the filesystem, replacing whatever was there.
    pub fn add_file(&mut self, path: &str, contents: &[u8])
        requires
            old(self).wf(),
        ensures
            final(self).wf(),
            final(self)@ == (WasiModel {
                files: old(self)@.files.insert(path@, contents@),
                ..old(self)@
            }),
    {
        let bytes: Vec<u8> = copy_bytes(contents);
        self.files.insert(path.to_owned(), bytes);
        assert(self@.files =~= old(self)@.files.insert(path@, contents@));
    }

    /// What the guest wrote to `stdout`, as text, with anything that is not UTF-8
    /// replaced rather than refused.
    pub fn stdout_text(&self) -> (text: String)
        ensures
            text@ == lossy_text(self@.stdout),
    {
        from_utf8_lossy(self.stdout.as_slice())
    }

    /// What the guest wrote to `stderr`.
    pub fn stderr_text(&self) -> (text: String)
        ensures
            text@ == lossy_text(self@.stderr),
    {
        from_utf8_lossy(self.stderr.as_slice())
    }

    /// Moves a file's descriptor.
    pub(crate) fn move_to(&mut self, fd: i32, position: u64)
        requires
            opened(old(self)@, fd) is Some,
            opened(old(self)@, fd)->0 is File,
        ensures
            final(self).files == old(self).files,
            final(self)@ == moved_to(old(self)@, fd, opened(old(self)@, fd)->0->File_0, position),
    {
        let ghost before = self@;
        match self.open.remove(&fd) {
            Some(Descriptor::File(open)) => {
                let moved: Open = Open { path: open.path, position, append: open.append };
                self.open.insert(fd, Descriptor::File(moved));
                assert(self@.open =~= moved_to(
                    before,
                    fd,
                    opened(before, fd)->0->File_0,
                    position,
                ).open);
            },
            _ => {
                assert(false);
            },
        }
    }

    /// `fd_close`. Closing a standard stream is allowed and keeps what was written:
    /// the run is over before anyone reads it.
    pub fn fd_close(&mut self, fd: i32) -> (errno: i32)
        ensures
            final(self).files == old(self).files,
            final(self)@ == (WasiModel { open: old(self)@.open.remove(fd), ..old(self)@ }),
            errno == if opened(old(self)@, fd) is Some {
                errno::SUCCESS
            } else {
                errno::BADF
            },
    {
        let closed: Option<Descriptor> = self.open.remove(&fd);
        assert(self@.open =~= old(self)@.open.remove(fd));
        match closed {
            Some(_) => errno::SUCCESS,
            None => errno::BADF,
        }
    }

    /// `__syscall_openat`. Only the path matters here, since every path in this
    /// filesystem is absolute.
    ///
    /// Returns a descriptor, or the negative errno a Linux syscall returns, which
    /// is what Emscripten's `__syscall_*` shims expect, and is not what WASI
    /// returns.
    pub fn openat(&mut self, path: &str, create: bool, append: bool) -> (fd: i32)
        requires
            old(self).wf(),
            old(self)@.files.contains_key(path@) || create ==> old(self)@.next_fd < i32::MAX,
        ensures
            final(self).wf(),
            ({
                let before = old(self)@;
                if before.files.contains_key(path@) || create {
                    &&& fd == before.next_fd
                    &&& final(self)@ == with_opened(before, path@, append)
                } else {
                    &&& fd == -errno::NOENT
                    &&& final(self)@ == before
                }
            }),
    {
        let ghost before = self@;
        if !self.files.contains_key(path) {
            if !create {
                return -errno::NOENT;
            }
            self.files.insert(path.to_owned(), Vec::new());
            assert(self@.files =~= before.files.insert(path@, Seq::empty()));
        }
        let fd: i32 = self.next_fd;
        self.next_fd = self.next_fd + 1;
        let open: Open = Open { path: path.to_owned(), position: 0, append };
        self.open.insert(fd, Descriptor::File(open));
        proof {
            assert(self@.open =~= with_opened(before, path@, append).open);
            assert(self@.files =~= with_opened(before, path@, append).files);
        }
        fd
    }

    /// The size of what a descriptor refers to, for `fstat`.
    pub fn size_of(&self, fd: i32) -> (size: Option<usize>)
        requires
            self.wf(),
        ensures
            match opened(self@, fd) {
                Some(DescriptorModel::File(open)) => if self@.files.contains_key(open.path) {
                    size == Some(self@.files[open.path].len() as usize)
                } else {
                    size is None
                },
                Some(_) => size == Some(0usize),
                None => size is None,
            },
    {
        match self.open.get(&fd) {
            Some(Descriptor::File(open)) => match self.files.get(open.path.as_str()) {
                Some(contents) => Some(contents.len()),
                None => None,
            },
            Some(_) => Some(0),
            None => None,
        }
    }
}

/// A host with a path opened, and made where it was not there.
pub open spec fn with_opened(wasi: WasiModel, path: Seq<char>, append: bool) -> WasiModel {
    WasiModel {
        files: if wasi.files.contains_key(path) {
            wasi.files
        } else {
            wasi.files.insert(path, Seq::empty())
        },
        open: wasi.open.insert(
            wasi.next_fd,
            DescriptorModel::File(OpenModel { path, position: 0, append }),
        ),
        next_fd: (wasi.next_fd + 1) as i32,
        ..wasi
    }
}

} // verus!
