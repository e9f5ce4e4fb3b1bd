//! The parts of Emscripten's own runtime that are not JavaScript.

use vstd::prelude::*;
use crate::hostlib::wasi::{append_bytes, Wasi, WasiModel};
use crate::rt::access::{effective, grown, pages_of, Access, PAGE_SIZE};
use crate::rt::caller::{c_text, terminated, Caller};

verus! {

/// The parts of Emscripten's JavaScript runtime that are not JavaScript.
///
/// `emscripten_asm_const_*` is not here and cannot be: it runs a string of
/// JavaScript the module carries, and there is no honest mechanical answer.
#[derive(Debug, Clone, PartialEq)]
pub struct Emscripten {
    /// How many times the runtime was asked to stay alive.
    pub keepalive: i32,
    /// Callbacks `emscripten_async_call` was given: `(function, argument,
    /// milliseconds)`. Recorded rather than run.
    pub scheduled: Vec<(i32, i32, i32)>,
    /// Whether the module asked to exit while keeping the runtime alive.
    pub exited_with_live_runtime: bool,
    /// How many logical cores to report.
    pub cores: i32,
}

impl Default for Emscripten {
    fn default() -> (runtime: Self)
        ensures
            runtime.keepalive == 0,
            runtime.scheduled@ == Seq::<(i32, i32, i32)>::empty(),
            !runtime.exited_with_live_runtime,
            runtime.cores == 0,
    {
        Emscripten {
            keepalive: 0,
            scheduled: Vec::new(),
            exited_with_live_runtime: false,
            cores: 0,
        }
    }
}

/// How many pages it takes for so many bytes.
pub open spec fn pages_for(bytes: int) -> int {
    (bytes + 65535) / 65536
}

impl Emscripten {
    /// `emscripten_resize_heap(bytes)`: grow linear memory to at least that.
    ///
    /// Returns 1 on success and 0 on refusal, which is the opposite of
    /// `memory.grow`'s convention and is what the module checks.
    pub fn resize_heap<M: Access>(caller: &mut Caller<'_, M>, bytes: i32) -> (done: i32)
        requires
            old(caller).page_limit() <= i32::MAX,
            pages_for((bytes as u32) as int) <= old(caller).page_limit() ==> pages_for(
                (bytes as u32) as int,
            ) * 65536 <= usize::MAX,
        ensures
            ({
                let memory = old(caller).contents();
                let wanted = (bytes as u32) as int;
                if wanted <= memory.len() {
                    &&& done == 1
                    &&& final(caller).contents() == memory
                } else if pages_for(wanted) <= old(caller).page_limit() {
                    &&& done == 1
                    &&& final(caller).contents() == grown(memory, pages_for(wanted) as nat)
                } else {
                    &&& done == 0
                    &&& final(caller).contents() == memory
                }
            }),
            final(caller).same_limits(old(caller)),
            *final(final(caller).memory) == *final(old(caller).memory),
    {
        let wanted: u64 = (bytes as u32) as u64;
        let have: u64 = caller.memory.byte_len() as u64;
        if wanted <= have {
            return 1;
        }
        let page: u64 = PAGE_SIZE as u64;
        let needed: u64 = (wanted + page - 1) / page;
        let pages: u64 = needed - have / page;
        assert(pages_of(old(caller).contents()) == have / page);
        if caller.memory.grow_pages(pages as u32) >= 0 {
            1
        } else {
            0
        }
    }

    /// `emscripten_get_heap_max`: the ceiling the memory type declared, or the one a
    /// 32-bit memory has regardless.
    ///
    /// A memory with no declared maximum can reach 4 GiB, which does not fit in the
    /// i32 this returns. The answer is a page short of it, because the module
    /// divides it by the page size.
    pub fn heap_max<M: Access>(caller: &Caller<'_, M>) -> (bytes: i32)
        ensures
            ({
                let pages = match caller.declared_max() {
                    Some(pages) => pages as int,
                    None => 65536,
                };
                bytes == if pages * 65536 <= 0xFFFF_0000 {
                    ((pages * 65536) as u32) as i32
                } else {
                    0xFFFF_0000u32 as i32
                }
            }),
    {
        let pages: u64 = match caller.memory.declared_max_pages() {
            Some(pages) => pages as u64,
            None => 65536,
        };
        let bytes: u64 = pages * PAGE_SIZE as u64;
        let ceiling: u64 = if bytes <= 0xFFFF_0000 {
            bytes
        } else {
            0xFFFF_0000
        };
        (ceiling as u32) as i32
    }

    /// `emscripten_console_error`: a string, straight to `stderr`.
    pub fn console_error<M: Access>(&self, caller: &Caller<'_, M>, wasi: &mut Wasi, text: i32)
        requires
            terminated(caller.contents(), effective(text, 0)),
        ensures
            final(wasi).files == old(wasi).files,
            final(wasi)@ == (WasiModel {
                stderr: old(wasi)@.stderr + c_text(caller.contents(), effective(text, 0)).push(
                    0x0a,
                ),
                ..old(wasi)@
            }),
    {
        let bytes: Vec<u8> = caller.cstring(text);
        append_bytes(&mut wasi.stderr, bytes.as_slice());
        wasi.stderr.push(0x0a);
        assert(wasi.stderr@ =~= old(wasi)@.stderr + bytes@.push(0x0a));
    }
}

} // verus!
