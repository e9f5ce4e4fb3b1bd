//! The host's half: files, streams, exceptions, registrations and the clock.

use unwasm_core::hostlib::io::{WHENCE_CUR, WHENCE_END, WHENCE_SET};
use unwasm_core::hostlib::{
    errno, tzset, write_tm, Call, Cxx, Descriptor, Embind, Emscripten, Registration, Standard,
    Unanswered, Wasi,
};
use unwasm_core::rt::{Caller, GuestException, Memory};

/// A memory with the iovec array at 0 and room to write into.
fn memory() -> Memory {
    Memory::new(1, None)
}

/// Lays out `count` iovecs at address 0 pointing at consecutive buffers.
fn iovecs(memory: &mut Memory, pieces: &[&[u8]]) -> i32 {
    let mut at = 1024;
    for (index, piece) in pieces.iter().enumerate() {
        memory.store32(index as i32 * 8, 0, i64::from(at));
        memory.store32(index as i32 * 8 + 4, 0, piece.len() as i64);
        for (offset, byte) in piece.iter().enumerate() {
            memory.store8(at + offset as i32, 0, i64::from(*byte));
        }
        at += piece.len() as i32;
    }
    0
}

#[test]
fn the_three_standard_streams_are_open_before_the_module_starts() {
    let wasi = Wasi::default();
    assert!(matches!(wasi.open[&0], Descriptor::Standard(Standard::In)));
    assert!(matches!(wasi.open[&1], Descriptor::Standard(Standard::Out)));
    assert!(matches!(
        wasi.open[&2],
        Descriptor::Standard(Standard::Error)
    ));
    assert!(matches!(wasi.open[&3], Descriptor::Directory(_)));
}

#[test]
fn writing_to_stdout_and_stderr_collects_what_was_written() {
    let mut wasi = Wasi::default();
    let mut memory = memory();
    let iovs = iovecs(&mut memory, &[b"hel", b"lo\n"]);
    let mut caller = Caller {
        memory: &mut memory,
    };
    assert_eq!(wasi.fd_write(&mut caller, 1, iovs, 2, 512), errno::SUCCESS);
    assert_eq!(wasi.fd_write(&mut caller, 2, iovs, 1, 512), errno::SUCCESS);
    assert_eq!(wasi.stdout_text(), "hello\n");
    assert_eq!(wasi.stderr_text(), "hel");
    // The count goes back where the guest asked for it.
    assert_eq!(caller.memory.load32(512, 0), 3);
}

#[test]
fn writing_to_a_descriptor_that_is_not_open_is_ebadf() {
    let mut wasi = Wasi::default();
    let mut memory = memory();
    let iovs = iovecs(&mut memory, &[b"x"]);
    let mut caller = Caller {
        memory: &mut memory,
    };
    assert_eq!(wasi.fd_write(&mut caller, 99, iovs, 1, 512), errno::BADF);
    // Nothing was written, so the count must not have been touched either.
    assert_eq!(caller.memory.load32(512, 0), 0);
    assert_eq!(wasi.fd_write(&mut caller, 0, iovs, 1, 512), errno::INVAL);
    assert_eq!(wasi.fd_write(&mut caller, 3, iovs, 1, 512), errno::INVAL);
}

#[test]
fn a_file_round_trips_through_write_seek_and_read() {
    let mut wasi = Wasi::default();
    let fd = wasi.openat("/tmp/notes", true, false);
    assert_eq!(fd, 4, "the first descriptor after the preopened ones");

    let mut memory = memory();
    let iovs = iovecs(&mut memory, &[b"abcdef"]);
    let mut caller = Caller {
        memory: &mut memory,
    };
    assert_eq!(wasi.fd_write(&mut caller, fd, iovs, 1, 512), errno::SUCCESS);
    assert_eq!(*wasi.files.get("/tmp/notes").unwrap(), b"abcdef");

    assert_eq!(
        wasi.fd_seek(&mut caller, fd, 2, WHENCE_SET, 520),
        errno::SUCCESS
    );
    assert_eq!(caller.memory.load64(520, 0), 2);

    // One iovec of three bytes, to read back what was just written.
    caller.memory.store32(0, 0, 2048);
    caller.memory.store32(4, 0, 3);
    assert_eq!(wasi.fd_read(&mut caller, fd, 0, 1, 528), errno::SUCCESS);
    assert_eq!(caller.memory.load32(528, 0), 3);
    assert_eq!(caller.bytes(2048, 3), b"cde");
}

#[test]
fn seeking_measures_from_where_it_was_told_to() {
    let mut wasi = Wasi::default();
    wasi.add_file("/f", b"0123456789");
    let fd = wasi.openat("/f", false, false);
    let mut memory = memory();
    let mut caller = Caller {
        memory: &mut memory,
    };
    assert_eq!(
        wasi.fd_seek(&mut caller, fd, 4, WHENCE_SET, 512),
        errno::SUCCESS
    );
    assert_eq!(caller.memory.load64(512, 0), 4);
    assert_eq!(
        wasi.fd_seek(&mut caller, fd, 3, WHENCE_CUR, 512),
        errno::SUCCESS
    );
    assert_eq!(caller.memory.load64(512, 0), 7);
    assert_eq!(
        wasi.fd_seek(&mut caller, fd, -2, WHENCE_END, 512),
        errno::SUCCESS
    );
    assert_eq!(caller.memory.load64(512, 0), 8);
    // Before the start, an unknown whence, and an offset that overflows.
    assert_eq!(
        wasi.fd_seek(&mut caller, fd, -1, WHENCE_SET, 512),
        errno::INVAL
    );
    assert_eq!(wasi.fd_seek(&mut caller, fd, 0, 9, 512), errno::INVAL);
    assert_eq!(
        wasi.fd_seek(&mut caller, fd, i64::MAX, WHENCE_END, 512),
        errno::INVAL
    );
    // A stream has no position, and a closed descriptor has no stream.
    assert_eq!(
        wasi.fd_seek(&mut caller, 1, 0, WHENCE_SET, 512),
        errno::SPIPE
    );
    assert_eq!(
        wasi.fd_seek(&mut caller, 99, 0, WHENCE_SET, 512),
        errno::BADF
    );
}

#[test]
fn seeking_or_reading_a_file_that_was_deleted_underneath_is_enoent() {
    let mut wasi = Wasi::default();
    wasi.add_file("/f", b"xyz");
    let fd = wasi.openat("/f", false, false);
    wasi.files.remove("/f");
    let mut memory = memory();
    let mut caller = Caller {
        memory: &mut memory,
    };
    assert_eq!(
        wasi.fd_seek(&mut caller, fd, 0, WHENCE_SET, 512),
        errno::NOENT
    );
    caller.memory.store32(0, 0, 2048);
    caller.memory.store32(4, 0, 1);
    assert_eq!(wasi.fd_read(&mut caller, fd, 0, 1, 512), errno::NOENT);
    let iovs = iovecs(caller.memory, &[b"x"]);
    assert_eq!(wasi.fd_write(&mut caller, fd, iovs, 1, 512), errno::NOENT);
}

#[test]
fn appending_ignores_the_position() {
    let mut wasi = Wasi::default();
    wasi.add_file("/log", b"first ");
    let fd = wasi.openat("/log", false, true);
    let mut memory = memory();
    let iovs = iovecs(&mut memory, &[b"second"]);
    let mut caller = Caller {
        memory: &mut memory,
    };
    assert_eq!(wasi.fd_write(&mut caller, fd, iovs, 1, 512), errno::SUCCESS);
    assert_eq!(*wasi.files.get("/log").unwrap(), b"first second");
}

#[test]
fn writing_past_the_end_of_a_file_zero_fills_the_gap() {
    let mut wasi = Wasi::default();
    wasi.add_file("/sparse", b"ab");
    let fd = wasi.openat("/sparse", false, false);
    let mut memory = memory();
    let iovs = iovecs(&mut memory, &[b"z"]);
    let mut caller = Caller {
        memory: &mut memory,
    };
    assert_eq!(
        wasi.fd_seek(&mut caller, fd, 5, WHENCE_SET, 512),
        errno::SUCCESS
    );
    assert_eq!(wasi.fd_write(&mut caller, fd, iovs, 1, 512), errno::SUCCESS);
    assert_eq!(*wasi.files.get("/sparse").unwrap(), b"ab\0\0\0z");
}

#[test]
fn reading_stdin_stops_where_it_ran_out() {
    let mut wasi = Wasi {
        stdin: b"line".to_vec(),
        ..Wasi::default()
    };
    let mut memory = memory();
    let mut caller = Caller {
        memory: &mut memory,
    };
    // Two iovecs of three bytes each, and only four bytes to give.
    caller.memory.store32(0, 0, 2048);
    caller.memory.store32(4, 0, 3);
    caller.memory.store32(8, 0, 3072);
    caller.memory.store32(12, 0, 3);
    assert_eq!(wasi.fd_read(&mut caller, 0, 0, 2, 512), errno::SUCCESS);
    assert_eq!(caller.memory.load32(512, 0), 4);
    assert_eq!(caller.bytes(2048, 3), b"lin");
    assert_eq!(caller.bytes(3072, 1), b"e");
    // A second read is at the end and returns nothing, not an error.
    assert_eq!(wasi.fd_read(&mut caller, 0, 0, 2, 512), errno::SUCCESS);
    assert_eq!(caller.memory.load32(512, 0), 0);
}

#[test]
fn reading_something_that_cannot_be_read_says_which_way_it_cannot() {
    let mut wasi = Wasi::default();
    let mut memory = memory();
    let mut caller = Caller {
        memory: &mut memory,
    };
    caller.memory.store32(0, 0, 2048);
    caller.memory.store32(4, 0, 1);
    assert_eq!(wasi.fd_read(&mut caller, 1, 0, 1, 512), errno::INVAL);
    assert_eq!(wasi.fd_read(&mut caller, 99, 0, 1, 512), errno::BADF);
}

#[test]
fn a_positional_read_does_not_move_the_position() {
    let mut wasi = Wasi::default();
    wasi.add_file("/f", b"0123456789");
    let fd = wasi.openat("/f", false, false);
    let mut memory = memory();
    let mut caller = Caller {
        memory: &mut memory,
    };
    caller.memory.store32(0, 0, 2048);
    caller.memory.store32(4, 0, 2);
    assert_eq!(wasi.fd_pread(&mut caller, fd, 0, 1, 6, 512), errno::SUCCESS);
    assert_eq!(caller.bytes(2048, 2), b"67");
    // The ordinary read still starts at the beginning.
    assert_eq!(wasi.fd_read(&mut caller, fd, 0, 1, 512), errno::SUCCESS);
    assert_eq!(caller.bytes(2048, 2), b"01");
    // And a stream cannot be read positionally at all.
    assert_eq!(wasi.fd_pread(&mut caller, 1, 0, 1, 0, 512), errno::SPIPE);
    assert_eq!(wasi.fd_pread(&mut caller, 99, 0, 1, 0, 512), errno::BADF);
}

#[test]
fn closing_takes_the_descriptor_out_and_says_so_twice() {
    let mut wasi = Wasi::default();
    let fd = wasi.openat("/f", true, false);
    assert_eq!(wasi.fd_close(fd), errno::SUCCESS);
    assert_eq!(wasi.fd_close(fd), errno::BADF);
}

#[test]
fn opening_something_that_is_not_there_is_enoent_unless_asked_to_create() {
    let mut wasi = Wasi::default();
    assert_eq!(wasi.openat("/missing", false, false), -errno::NOENT);
    assert!(wasi.openat("/missing", true, false) > 0);
    assert_eq!(*wasi.files.get("/missing").unwrap(), b"");
}

#[test]
fn the_environment_and_the_arguments_go_across_as_pointers_then_bytes() {
    let wasi = Wasi {
        environment: vec!["A=1".to_string(), "LONGER=two".to_string()],
        arguments: vec!["prog".to_string()],
        ..Wasi::default()
    };
    let mut memory = memory();
    let mut caller = Caller {
        memory: &mut memory,
    };

    assert_eq!(
        wasi.environ_sizes_get(&mut caller, 512, 516),
        errno::SUCCESS
    );
    assert_eq!(caller.memory.load32(512, 0), 2);
    assert_eq!(caller.memory.load32(516, 0), 4 + 11);

    assert_eq!(wasi.environ_get(&mut caller, 1024, 2048), errno::SUCCESS);
    let first = caller.memory.load32(1024, 0);
    let second = caller.memory.load32(1028, 0);
    assert_eq!(caller.cstring(first), b"A=1");
    assert_eq!(caller.cstring(second), b"LONGER=two");
    assert_eq!(second - first, 4, "the strings are laid out end to end");

    assert_eq!(wasi.args_sizes_get(&mut caller, 512, 516), errno::SUCCESS);
    assert_eq!(caller.memory.load32(512, 0), 1);
    assert_eq!(caller.memory.load32(516, 0), 5);
    assert_eq!(wasi.args_get(&mut caller, 1024, 2048), errno::SUCCESS);
    assert_eq!(caller.cstring(caller.memory.load32(1024, 0)), b"prog");
}

#[test]
fn random_bytes_are_the_same_two_runs_running() {
    let mut first = Wasi::default();
    let mut second = Wasi::default();
    let mut memory = memory();
    let mut caller = Caller {
        memory: &mut memory,
    };
    assert_eq!(first.random_get(&mut caller, 512, 20), errno::SUCCESS);
    let one = caller.bytes(512, 20).to_vec();
    assert_eq!(second.random_get(&mut caller, 1024, 20), errno::SUCCESS);
    assert_eq!(caller.bytes(1024, 20), one.as_slice());
    assert!(one.iter().any(|byte| *byte != 0), "and not all zero");
    // A different seed gives different bytes, so the seed is what decides.
    let mut third = Wasi {
        random: 7,
        ..Wasi::default()
    };
    assert_eq!(third.random_get(&mut caller, 2048, 20), errno::SUCCESS);
    assert_ne!(caller.bytes(2048, 20), one.as_slice());
}

#[test]
fn the_clock_reports_what_it_was_set_to() {
    let wasi = Wasi {
        now_nanoseconds: (1_500.5 * 1_000_000.0) as i64,
        ..Wasi::default()
    };
    let mut memory = memory();
    let mut caller = Caller {
        memory: &mut memory,
    };
    assert_eq!(wasi.clock_time_get(&mut caller, 512), errno::SUCCESS);
    assert_eq!(caller.memory.load64(512, 0), 1_500_500_000);
}

#[test]
fn the_size_of_a_descriptor_is_the_size_of_what_it_holds() {
    let mut wasi = Wasi::default();
    wasi.add_file("/f", b"abcd");
    let fd = wasi.openat("/f", false, false);
    assert_eq!(wasi.size_of(fd), Some(4));
    assert_eq!(wasi.size_of(1), Some(0), "a stream has no size");
    assert_eq!(wasi.size_of(99), None);
    wasi.files.remove("/f");
    assert_eq!(wasi.size_of(fd), None, "and neither has a file that went");
}

// ---- the C++ runtime ----

#[test]
fn an_exception_is_thrown_caught_and_ended() {
    let mut cxx = Cxx::default();
    let mut throwing = Cxx::default();
    assert_eq!(
        throwing.throw(0x1000, 0x2000),
        GuestException {
            exception: 0x1000,
            info: 0x2000
        }
    );
    assert_eq!(throwing.uncaught(), 1);

    // The trampoline caught it; the module then asks for it by pointer.
    cxx.thrown.push(GuestException {
        exception: 0x1000,
        info: 0x2000,
    });
    assert_eq!(cxx.uncaught(), 1);
    assert_eq!(cxx.begin_catch(0x1000), 0x1000);
    assert_eq!(cxx.uncaught(), 0, "it is being caught, not in flight");
    assert_eq!(cxx.in_flight(), 0x1000);
    cxx.end_catch();
    assert_eq!(cxx.in_flight(), 0, "and nothing is left");
}

#[test]
fn beginning_a_catch_for_something_that_was_not_thrown_still_answers() {
    // The module hands back a pointer it got from the personality routine,
    // and a host that lost track must not lose the pointer with it.
    let mut cxx = Cxx::default();
    assert_eq!(cxx.begin_catch(0x40), 0x40);
    assert!(cxx.caught.is_empty());
}

#[test]
fn rethrowing_takes_the_one_being_caught_first() {
    let mut cxx = Cxx::default();
    cxx.thrown.push(GuestException {
        exception: 1,
        info: 0,
    });
    cxx.caught.push(GuestException {
        exception: 2,
        info: 0,
    });
    assert_eq!(cxx.rethrow().map(|exception| exception.exception), Some(2));
}

#[test]
fn a_rethrow_with_only_a_thrown_one_takes_that() {
    let mut cxx = Cxx::default();
    cxx.thrown.push(GuestException {
        exception: 9,
        info: 0,
    });
    let again = cxx.rethrow();
    assert_eq!(again.map(|exception| exception.exception), Some(9));
}

// ---- Emscripten's runtime ----

#[test]
fn resizing_the_heap_grows_it_and_reports_the_way_the_module_expects() {
    let mut memory = Memory::new(1, Some(4));
    let mut caller = Caller {
        memory: &mut memory,
    };
    // 1 on success, which is the opposite of `memory.grow`'s convention.
    assert_eq!(Emscripten::resize_heap(&mut caller, 3 * 65536), 1);
    assert_eq!(caller.memory.size(), 3);
    // Already big enough is success without growing.
    assert_eq!(Emscripten::resize_heap(&mut caller, 65536), 1);
    assert_eq!(caller.memory.size(), 3);
    // Past the declared maximum is a refusal, and nothing moves.
    assert_eq!(Emscripten::resize_heap(&mut caller, 9 * 65536), 0);
    assert_eq!(caller.memory.size(), 3);
}

#[test]
fn the_heap_maximum_is_what_the_memory_type_declared() {
    let mut memory = Memory::new(1, Some(4));
    let caller = Caller {
        memory: &mut memory,
    };
    assert_eq!(Emscripten::heap_max(&caller), 4 * 65536);

    // Undeclared means the ceiling a 32-bit memory has anyway, which does
    // not fit in an i32 and comes back as -65536 rather than as a wrap to
    // something small.
    let mut memory = Memory::new(1, None);
    let caller = Caller {
        memory: &mut memory,
    };
    assert_eq!(Emscripten::heap_max(&caller) as u32, 0xFFFF_0000);
}

#[test]
fn console_error_goes_to_stderr_with_a_newline() {
    let mut memory = memory();
    let mut wasi = Wasi::default();
    let emscripten = Emscripten::default();
    let mut caller = Caller {
        memory: &mut memory,
    };
    caller.write(64, b"something went wrong\0");
    emscripten.console_error(&caller, &mut wasi, 64);
    assert_eq!(wasi.stderr_text(), "something went wrong\n");
}

// ---- embind ----

#[test]
fn a_registration_is_recorded_with_the_name_it_carried() {
    let mut memory = memory();
    let mut embind = Embind::default();
    let mut caller = Caller {
        memory: &mut memory,
    };
    caller.write(64, b"Uint8List\0");
    embind.register(&caller, "class", 64, &[1, 2, 3]);
    embind.register_unnamed("void", &[9]);
    assert_eq!(
        embind.registrations,
        vec![
            Registration {
                kind: "class".to_string(),
                name: "Uint8List".to_string(),
                arguments: vec![1, 2, 3],
            },
            Registration {
                kind: "void".to_string(),
                name: String::new(),
                arguments: vec![9],
            },
        ]
    );
}

#[test]
fn a_time_becomes_the_struct_c_expects() {
    let mut memory = memory();
    let mut caller = Caller {
        memory: &mut memory,
    };
    // 2026-07-28 00:28:16 UTC, a Tuesday and the 209th day of the year.
    let seconds = 1_785_198_496;
    assert_eq!(write_tm(&mut caller, 256, seconds), 0);
    assert_eq!(caller.read_i32(256), 16, "tm_sec");
    assert_eq!(caller.read_i32(256 + 4), 28, "tm_min");
    assert_eq!(caller.read_i32(256 + 8), 0, "tm_hour");
    assert_eq!(caller.read_i32(256 + 12), 28, "tm_mday");
    assert_eq!(caller.read_i32(256 + 16), 6, "tm_mon is zero-based");
    assert_eq!(caller.read_i32(256 + 20), 126, "tm_year is since 1900");
    assert_eq!(caller.read_i32(256 + 24), 2, "tm_wday: Tuesday");
    assert_eq!(caller.read_i32(256 + 28), 208, "tm_yday, from zero");
    assert_eq!(caller.read_i32(256 + 32), 0, "UTC has no daylight saving");
    assert_eq!(caller.read_i32(256 + 36), 0, "and no offset");
}

#[test]
fn the_epoch_and_the_dates_around_it_are_right() {
    let mut memory = memory();
    let mut caller = Caller {
        memory: &mut memory,
    };
    // The epoch itself: a Thursday, which is what anchors every weekday.
    write_tm(&mut caller, 0, 0);
    assert_eq!(caller.read_i32(20), 70, "1970");
    assert_eq!(caller.read_i32(12), 1, "the first");
    assert_eq!(caller.read_i32(24), 4, "a Thursday");
    assert_eq!(caller.read_i32(28), 0, "day zero of the year");

    // A second before it, which is where a naive division goes wrong.
    write_tm(&mut caller, 64, -1);
    assert_eq!(caller.read_i32(64 + 20), 69, "1969");
    assert_eq!(caller.read_i32(64 + 16), 11, "December");
    assert_eq!(caller.read_i32(64 + 12), 31);
    assert_eq!(caller.read_i32(64 + 8), 23, "23:59:59");
    assert_eq!(caller.read_i32(64 + 4), 59);
    assert_eq!(caller.read_i32(64), 59);

    // The 29th of February in a leap year, and the day after.
    write_tm(&mut caller, 128, 1_709_164_800);
    assert_eq!(caller.read_i32(128 + 12), 29);
    assert_eq!(caller.read_i32(128 + 16), 1, "February");
    assert_eq!(caller.read_i32(128 + 28), 59, "the 60th day");
    write_tm(&mut caller, 192, 1_709_164_800 + 86_400);
    assert_eq!(caller.read_i32(192 + 12), 1);
    assert_eq!(caller.read_i32(192 + 16), 2, "March");

    // And a century year that is not a leap year, which is the case a
    // simpler algorithm gets wrong: 2100-03-01.
    write_tm(&mut caller, 256, 4_107_542_400);
    assert_eq!(caller.read_i32(256 + 20), 200, "2100");
    assert_eq!(caller.read_i32(256 + 16), 2, "March");
    assert_eq!(caller.read_i32(256 + 12), 1);
}

#[test]
fn tzset_says_utc_rather_than_wherever_this_ran() {
    let mut memory = memory();
    let mut caller = Caller {
        memory: &mut memory,
    };
    caller.write(64, b"xxxx");
    caller.write(96, b"xxxx");
    tzset(&mut caller, 0, 4, 64, 96);
    assert_eq!(caller.read_i32(0), 0, "no offset from UTC");
    assert_eq!(caller.read_i32(4), 0, "and no daylight saving");
    assert_eq!(caller.cstring(64), b"UTC");
    assert_eq!(caller.cstring(96), b"UTC");
    // A build that passes no second name gets nothing written at 0.
    tzset(&mut caller, 0, 4, 64, 0);
    assert_eq!(caller.cstring(64), b"UTC");
}

#[test]
fn a_registration_says_what_it_takes_to_call_it() {
    // embind's own C signature decides which argument is which, and
    // getting it wrong means calling a table slot that is not an invoker.
    let mut memory = memory();
    let mut embind = Embind::default();
    let mut caller = Caller {
        memory: &mut memory,
    };
    caller.write(64, b"initVoipStack\0");
    // `_embind_register_function(name, argCount, argTypes, signature,
    //                            invoker, function, isAsync, isNonnull)`
    embind.register(&caller, "function", 64, &[1, 200, 300, 4173, 8000, 0, 0]);
    let registered = embind.function("initVoipStack").expect("registered");
    let call = registered.call().expect("a function is callable");
    assert_eq!(call.invoker, 4173);
    assert_eq!(call.context, 8000);
    assert_eq!(call.arity, 1, "embind counts the return type");

    // A method's invoker and context sit one further along, because the
    // class type comes first.
    caller.write(128, b"push_back\0");
    embind.register(
        &caller,
        "class_function",
        128,
        &[9, 2, 200, 300, 5000, 9000, 0, 0, 0],
    );
    let method = embind.method("push_back").expect("registered");
    assert_eq!(
        method.call(),
        Some(Call {
            invoker: 5000,
            context: 9000,
            arity: 9
        })
    );

    // A registration that is a *type* rather than something to call says
    // so rather than pointing at whatever happens to be in that position.
    embind.register(&caller, "integer", 64, &[1, 2, 3, 4]);
    assert!(
        embind
            .registrations
            .last()
            .expect("present")
            .call()
            .is_none()
    );
    assert!(embind.function("nothing").is_none());
    assert!(embind.method("nothing").is_none());
}

#[test]
fn an_emval_handle_is_counted_and_released() {
    let mut embind = Embind::default();
    let handle = embind.take_value();
    assert_eq!(handle, 1, "zero is null and is never handed out");
    assert_eq!(embind.handles[&handle], 1);
    embind.incref(handle);
    assert_eq!(embind.handles[&handle], 2);
    embind.decref(handle);
    embind.decref(handle);
    assert!(!embind.handles.contains_key(&handle), "released at zero");

    // Null is not a handle, in either direction.
    embind.incref(0);
    embind.decref(0);
    assert!(embind.handles.is_empty());
    // And decrementing something that is not held is not a panic.
    embind.decref(77);
    assert!(embind.handles.is_empty());
}

#[test]
fn handles_keep_going_up() {
    let mut embind = Embind::default();
    assert_eq!(embind.take_value(), 1);
    assert_eq!(embind.take_value(), 2);
    embind.decref(1);
    assert_eq!(embind.take_value(), 3, "a released number is not reused");
}

// ---- syscalls ----

#[test]
fn openat_reads_its_path_out_of_memory_and_honours_the_flags() {
    let mut memory = memory();
    let mut wasi = Wasi::default();
    let mut caller = Caller {
        memory: &mut memory,
    };
    caller.write(64, b"/notes.txt\0");
    // Without O_CREAT a missing file is a negative errno, not a descriptor.
    assert_eq!(wasi.openat_at(&caller, 64, 0), -errno::NOENT);
    let fd = wasi.openat_at(&caller, 64, 0o100);
    assert!(fd > 0, "O_CREAT makes it");
    assert!(wasi.files.contains_key("/notes.txt"));

    // O_APPEND reaches the descriptor.
    let appending = wasi.openat_at(&caller, 64, 0o2000);
    assert!(matches!(
        &wasi.open[&appending],
        Descriptor::File(open) if open.append
    ));

    assert_eq!(wasi.unlinkat(&caller, 64), 0);
    assert_eq!(wasi.unlinkat(&caller, 64), -errno::NOENT);
}

#[test]
fn a_stat_writes_the_layout_emscriptens_own_glue_writes() {
    let mut wasi = Wasi::default();
    wasi.add_file("/data/file", b"0123456789");
    let mut memory = memory();
    let mut caller = Caller {
        memory: &mut memory,
    };
    caller.write(64, b"/data/file\0");
    // Something recognisable in the buffer first, so a field left unset is
    // visible as a field left unset.
    caller.write(256, &[0xEE; 96]);

    assert_eq!(wasi.stat_path(&mut caller, 64, 256), errno::SUCCESS);
    assert_eq!(caller.read_i32(256 + 4), 0o100_644, "S_IFREG and its mode");
    assert_eq!(caller.read_i32(256 + 8), 1, "st_nlink");
    assert_eq!(caller.read_i32(256 + 24), 10, "st_size, low half");
    assert_eq!(caller.read_i32(256 + 28), 0, "and its high half");
    assert_eq!(caller.read_i32(256 + 32), 4096, "st_blksize");
    assert_eq!(caller.read_i32(256 + 36), 1, "st_blocks, rounded up");
    assert!(caller.read_i32(256 + 88) > 0, "st_ino");
    assert_eq!(caller.read_i32(256 + 40), 0, "and no invented timestamps");
    // Every one of the 96 bytes was written, so nothing of the guest's
    // remains: 0xEE anywhere would be a field this does not know about.
    let written = caller.bytes(256, 96);
    assert!(written.iter().all(|byte| *byte != 0xEE), "{written:02x?}");
}

#[test]
fn a_directory_is_anything_with_something_under_it() {
    let mut wasi = Wasi::default();
    wasi.add_file("/data/file", b"x");
    let mut memory = memory();
    let mut caller = Caller {
        memory: &mut memory,
    };
    caller.write(64, b"/data\0");
    assert_eq!(wasi.stat_path(&mut caller, 64, 256), errno::SUCCESS);
    assert_eq!(caller.read_i32(256 + 4), 0o040_755, "S_IFDIR");
    assert!(wasi.is_directory("/"));
    assert!(wasi.is_directory("/data/"));
    assert!(!wasi.is_directory("/dat"));

    caller.write(64, b"/missing\0");
    assert_eq!(wasi.stat_path(&mut caller, 64, 256), -errno::NOENT);
}

#[test]
fn stat_by_descriptor_answers_for_each_kind() {
    let mut wasi = Wasi::default();
    wasi.add_file("/f", b"abc");
    let fd = wasi.openat("/f", false, false);
    let mut memory = memory();
    let mut caller = Caller {
        memory: &mut memory,
    };

    assert_eq!(wasi.stat_fd(&mut caller, fd, 256), errno::SUCCESS);
    assert_eq!(caller.read_i32(256 + 24), 3);

    // A standard stream is a character device, and calling it a regular
    // file is what makes an `isatty` come back wrong.
    assert_eq!(wasi.stat_fd(&mut caller, 1, 256), errno::SUCCESS);
    assert_eq!(caller.read_i32(256 + 4), 0o020_620);

    assert_eq!(wasi.stat_fd(&mut caller, 3, 256), errno::SUCCESS);
    assert_eq!(caller.read_i32(256 + 4), 0o040_755, "the preopened root");

    assert_eq!(wasi.stat_fd(&mut caller, 99, 256), -errno::BADF);

    // A file that went away underneath an open descriptor.
    wasi.files.remove("/f");
    assert_eq!(wasi.stat_fd(&mut caller, fd, 256), -errno::NOENT);
}

#[test]
fn two_files_have_two_inodes_and_the_same_file_has_one() {
    let mut wasi = Wasi::default();
    wasi.add_file("/a", b"x");
    wasi.add_file("/b", b"y");
    let mut memory = memory();
    let mut caller = Caller {
        memory: &mut memory,
    };
    caller.write(64, b"/a\0");
    caller.write(96, b"/b\0");
    wasi.stat_path(&mut caller, 64, 256);
    let first = caller.read_i32(256 + 88);
    wasi.stat_path(&mut caller, 96, 256);
    let second = caller.read_i32(256 + 88);
    assert_ne!(first, second, "two files are not one file");
    wasi.stat_path(&mut caller, 64, 256);
    assert_eq!(caller.read_i32(256 + 88), first, "and one file is one file");
}

#[test]
fn a_default_is_counted_the_first_time_and_every_time() {
    let mut unanswered = Unanswered::default();
    assert!(unanswered.is_empty());
    assert_eq!(unanswered.report(), "nothing was answered with a default\n");

    unanswered.record("env::tell", &[7, 8]);
    unanswered.record("env::ask", &[3]);
    // The arguments kept are the *first* call's: the tenth is rarely the
    // one that explains anything.
    unanswered.record("env::tell", &[99, 99]);

    assert!(!unanswered.is_empty());
    assert_eq!(*unanswered.calls.get("env::tell").unwrap(), (2, vec![7, 8]));
    let report = unanswered.report();
    assert!(
        report.starts_with("2 imports were answered with a default"),
        "{report}"
    );
    // In the order they were reached, which is usually the story.
    let tell = report.find("env::tell").expect("present");
    let ask = report.find("env::ask").expect("present");
    assert!(tell < ask, "{report}");
    assert!(report.contains("env::tell  2x, first (7, 8)"), "{report}");
    assert!(report.contains("env::ask  1x, first (3)"), "{report}");
}
