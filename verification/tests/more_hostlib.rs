//! More of the host: buffers, seeds, dates and what a run rested on.

use unwasm_core::hostlib::clock::{civil_from_days, days_from_civil};
use unwasm_core::hostlib::io::{WHENCE_CUR, WHENCE_SET};
use unwasm_core::hostlib::{
    assert_fail, errno, write_tm, Cxx, Descriptor, Embind, Emscripten, Exit, Open, Unanswered, Wasi,
};
use unwasm_core::rt::{Caller, Memory, SharedMemory};

fn vectors(memory: &mut Memory, list: &[(i32, i32)]) {
    for (at, (address, length)) in list.iter().enumerate() {
        memory.store32(at as i32 * 8, 0, i64::from(*address));
        memory.store32(at as i32 * 8 + 4, 0, i64::from(*length));
    }
}

#[test]
fn what_is_scattered_is_what_is_gathered() {
    let mut wasi = Wasi::default();
    wasi.add_file("/f", b"abcdefghij");
    let fd = wasi.openat("/f", false, false);
    let mut memory = Memory::new(1, None);
    // An empty buffer takes nothing and stops nothing.
    vectors(&mut memory, &[(1000, 3), (1100, 0), (1200, 4), (1300, 9)]);
    let mut caller = Caller {
        memory: &mut memory,
    };
    assert_eq!(wasi.fd_read(&mut caller, fd, 0, 4, 512), errno::SUCCESS);
    assert_eq!(caller.read_i32(512), 10);
    assert_eq!(caller.bytes(1000, 3), b"abc");
    assert_eq!(caller.bytes(1200, 4), b"defg");
    assert_eq!(caller.bytes(1300, 4), b"hij\0");
    let out = wasi.openat("/g", true, false);
    assert_eq!(wasi.fd_write(&mut caller, out, 0, 3, 512), errno::SUCCESS);
    assert_eq!(*wasi.files.get("/g").unwrap(), b"abcdefg");
    assert_eq!(caller.read_i32(512), 7);
    assert_eq!(*wasi.files.get("/f").unwrap(), b"abcdefghij", "and the other file stays");
}

#[test]
fn a_write_in_the_middle_leaves_both_sides() {
    let mut wasi = Wasi::default();
    wasi.add_file("/f", b"0123456789");
    let fd = wasi.openat("/f", false, false);
    let mut memory = Memory::new(1, None);
    vectors(&mut memory, &[(1000, 2)]);
    memory.init(1000, b"XY", 0, 2);
    let mut caller = Caller {
        memory: &mut memory,
    };
    assert_eq!(wasi.fd_seek(&mut caller, fd, 4, WHENCE_SET, 512), 0);
    assert_eq!(wasi.fd_write(&mut caller, fd, 0, 1, 520), 0);
    assert_eq!(*wasi.files.get("/f").unwrap(), b"0123XY6789");
    assert_eq!(wasi.fd_seek(&mut caller, fd, 0, WHENCE_CUR, 512), 0);
    assert_eq!(caller.memory.load64(512, 0), 6, "it stands after what it wrote");
}

#[test]
fn randomness_goes_on_where_it_stopped() {
    let mut memory = Memory::new(1, None);
    let mut caller = Caller {
        memory: &mut memory,
    };
    let mut once = Wasi::default();
    assert_eq!(once.random_get(&mut caller, 0, 24), 0);
    let mut twice = Wasi::default();
    assert_eq!(twice.random_get(&mut caller, 100, 16), 0);
    assert_eq!(twice.random_get(&mut caller, 116, 8), 0);
    assert_eq!(caller.bytes(0, 24), caller.bytes(100, 24));
    assert_eq!(once.random, twice.random);
    // The first number of the default seed, by the generator's definition.
    let mut state: u64 = 0x2545_F491_4F6C_DD1D;
    state ^= state >> 12;
    state ^= state << 25;
    state ^= state >> 27;
    assert_eq!(
        caller.bytes(0, 8),
        state.wrapping_mul(0x2545_F491_4F6C_DD1D).to_le_bytes()
    );
    // A count that is not a multiple of eight drops the rest of a number.
    let mut short = Wasi::default();
    assert_eq!(short.random_get(&mut caller, 200, 3), 0);
    assert_eq!(caller.bytes(200, 4)[..3], caller.bytes(0, 3)[..]);
    assert_eq!(caller.bytes(203, 1), [0]);
}

#[test]
fn a_date_and_its_day_count_undo_each_other() {
    for days in [
        -800_000, -719_529, -719_468, -141_428, -1, 0, 58, 59, 60, 365, 10_957, 11_016, 18_321,
        47_540, 1_000_000,
    ] {
        let (year, month, day, yday) = civil_from_days(days);
        assert_eq!(
            days_from_civil(i64::from(year), i64::from(month), i64::from(day)),
            days
        );
        assert_eq!(
            days_from_civil(i64::from(year), 1, 1) + i64::from(yday),
            days
        );
    }
    assert_eq!(civil_from_days(0), (1970, 1, 1, 0));
    assert_eq!(civil_from_days(-719_468), (0, 3, 1, 60));
    assert_eq!(civil_from_days(11_016), (2000, 2, 29, 59));
    assert_eq!(civil_from_days(11_017), (2000, 3, 1, 60));
    assert_eq!(days_from_civil(1969, 12, 31), -1);
    // A whole era, day by day.
    let mut next = days_from_civil(1600, 1, 1);
    for year in 1600..2000i64 {
        let leap = year % 4 == 0 && (year % 100 != 0 || year % 400 == 0);
        for (month, length) in [31, if leap { 29 } else { 28 }, 31, 30, 31, 30, 31, 31, 30, 31, 30, 31]
            .into_iter()
            .enumerate()
        {
            for day in 1..=length {
                let (y, m, d, _) = civil_from_days(next);
                assert_eq!(
                    (i64::from(y), m as usize, i64::from(d)),
                    (year, month + 1, day)
                );
                next += 1;
            }
        }
    }
}

#[test]
fn a_time_at_the_ends_of_its_range_is_still_written() {
    let mut memory = Memory::new(1, None);
    let mut caller = Caller {
        memory: &mut memory,
    };
    assert_eq!(write_tm(&mut caller, 0, i64::MAX), 0);
    assert_eq!(caller.read_i32(8), 15, "15:30:07");
    assert_eq!(caller.read_i32(4), 30);
    assert_eq!(caller.read_i32(0), 7);
    assert_eq!(write_tm(&mut caller, 64, i64::MIN), 0);
    assert_eq!(caller.read_i32(64), 52);
}

#[test]
fn closing_and_opening_again_gives_a_new_number() {
    let mut wasi = Wasi::default();
    let one = wasi.openat("/a", true, false);
    assert_eq!(wasi.fd_close(one), errno::SUCCESS);
    assert_eq!(wasi.openat("/a", false, true), one + 1);
    assert_eq!(
        wasi.open[&(one + 1)],
        Descriptor::File(Open {
            path: "/a".to_string(),
            position: 0,
            append: true
        })
    );
    assert_eq!(Exit { code: 3 }.code, 3);
}

#[test]
fn text_that_is_not_utf8_is_replaced_rather_than_refused() {
    let wasi = Wasi {
        stdout: vec![b'a', 0xff, b'b'],
        stderr: "gr\u{fc}n".as_bytes().to_vec(),
        ..Wasi::default()
    };
    assert_eq!(wasi.stdout_text(), "a\u{fffd}b");
    assert_eq!(wasi.stderr_text(), "gr\u{fc}n");
}

#[test]
fn a_failed_assertion_says_all_four_of_its_strings() {
    let mut memory = Memory::new(1, None);
    let mut caller = Caller {
        memory: &mut memory,
    };
    caller.write(100, b"x != 0\0");
    caller.write(200, b"check.c\0");
    caller.write(300, b"verify\0");
    assert_eq!(
        assert_fail(&caller, 100, 200, 42, 300),
        "assertion failed: x != 0 at check.c:42 in verify"
    );
    assert_eq!(
        assert_fail(&caller, 100, 200, -1, 300),
        "assertion failed: x != 0 at check.c:-1 in verify"
    );
}

#[test]
fn rethrowing_nothing_gives_nothing() {
    let mut cxx = Cxx::default();
    assert_eq!(cxx.rethrow(), None);
    let thrown = cxx.throw(1, 2);
    cxx.throw(3, 4);
    assert_eq!(cxx.begin_catch(1), 1);
    assert_eq!(cxx.caught, vec![thrown]);
    assert_eq!(cxx.thrown.len(), 1);
    // Of two with one pointer the innermost is caught.
    cxx.throw(3, 5);
    cxx.begin_catch(3);
    assert_eq!(cxx.caught[1].info, 5);
}

#[test]
fn an_empty_report_and_a_full_one_are_spelled_out() {
    let mut unanswered = Unanswered::default();
    unanswered.record("env::ask", &[3, -4]);
    unanswered.record("env::say", &[]);
    assert_eq!(
        unanswered.report(),
        "2 imports were answered with a default rather than an answer:\n  env::ask  1x, first (3, -4)\n  env::say  1x, first ()\n"
    );
}

#[test]
fn a_handle_counted_up_and_down_is_as_it_was() {
    let mut embind = Embind::default();
    let handle = embind.take_value();
    let before = embind.handles.clone();
    embind.incref(handle);
    embind.decref(handle);
    assert_eq!(embind.handles, before);
    embind.incref(50);
    assert_eq!(embind.handles[&50], 1, "one that was not held is now");
}

#[test]
fn a_heap_grows_to_whole_pages_in_either_memory() {
    let mut shared = SharedMemory::new(1, Some(8), 4);
    let mut caller = Caller {
        memory: &mut shared,
    };
    assert_eq!(Emscripten::resize_heap(&mut caller, 65536 + 1), 1);
    assert_eq!(caller.memory.size(), 2);
    assert_eq!(Emscripten::resize_heap(&mut caller, -1), 0, "4 GiB is past it");
    assert_eq!(Emscripten::heap_max(&caller), 4 * 65536);
}

#[test]
fn a_stat_gives_back_the_size_it_was_made_with() {
    let wasi = Wasi::default();
    let mut memory = Memory::new(1, None);
    let mut caller = Caller {
        memory: &mut memory,
    };
    assert_eq!(wasi.write_stat(&mut caller, 8, 1025, false, 77), 0);
    assert_eq!(caller.memory.load64(8 + 24, 0), 1025);
    assert_eq!(caller.memory.load64(8 + 88, 0), 77);
    assert_eq!(caller.read_i32(8 + 36), 3, "blocks of 512");
    assert_eq!(caller.read_i32(8), 1);
    assert_eq!(caller.read_i32(8 + 4), 0o100_644);
}

#[test]
fn a_call_says_beforehand_whether_it_stays_inside_the_memory() {
    let mut wasi = Wasi::default();
    wasi.add_file("/f", b"abc");
    let fd = wasi.openat("/f", false, false);
    let mut memory = Memory::new(1, None);
    vectors(&mut memory, &[(65534, 2), (65535, 2)]);
    let caller = Caller {
        memory: &mut memory,
    };
    assert!(wasi.fd_write_fits(&caller, 1, 0, 1, 512));
    assert!(!wasi.fd_write_fits(&caller, 1, 0, 2, 512), "a buffer runs off the end");
    assert!(!wasi.fd_write_fits(&caller, 1, 65532, 1, 512), "and so does the array");
    assert!(!wasi.fd_write_fits(&caller, 1, 0, 1, 65533), "and the count");
    assert!(wasi.fd_write_fits(&caller, 99, 0, 1, 65533), "which is not written on an error");
    // Three bytes: two for the first buffer and one for the second.
    assert!(wasi.fd_read_fits(&caller, fd, 0, 2, 512));
    assert!(!wasi.fd_read_fits(&caller, fd, 0, 2, -1));
    assert!(wasi.fd_read_fits(&caller, 1, 0, 2, -1));
    assert!(wasi.fd_pread_fits(&caller, fd, 0, 2, 1, 512));
    assert!(wasi.fd_pread_fits(&caller, 1, -1, 2, 1, 512), "a stream is refused first");
    wasi.add_file("/f", b"abcd");
    assert!(!wasi.fd_read_fits(&caller, fd, 0, 2, 512));
    assert!(!wasi.fd_pread_fits(&caller, fd, 0, 2, 0, 512));
    assert!(wasi.fd_seek_fits(&caller, fd, 1, WHENCE_SET, 65528));
    assert!(!wasi.fd_seek_fits(&caller, fd, 1, WHENCE_SET, 65529));
    assert!(wasi.fd_seek_fits(&caller, fd, -1, WHENCE_SET, 65529));
    assert!(wasi.stat_fd_fits(&caller, 1, 65440));
    assert!(!wasi.stat_fd_fits(&caller, 1, 65441));
    assert!(wasi.stat_fd_fits(&caller, 99, 65441));
    assert!(wasi.args_fit(&caller, 0, 65524), "module.wasm and its NUL");
    assert!(!wasi.args_fit(&caller, 0, 65525));
    assert!(wasi.environ_fits(&caller, -1, -1), "nothing is written");
}

#[test]
fn a_call_that_does_not_stay_inside_is_not_made() {
    let mut wasi = Wasi::default();
    wasi.add_file("/f", b"abc");
    let mut memory = Memory::new(1, None);
    memory.init(64, b"/f\0", 0, 3);
    memory.init(96, b"/g\0", 0, 3);
    let mut caller = Caller {
        memory: &mut memory,
    };
    assert_eq!(wasi.try_stat_path(&mut caller, 64, 65441), None);
    assert_eq!(wasi.try_stat_path(&mut caller, 96, 65441), Some(-errno::NOENT));
    assert_eq!(wasi.try_stat_path(&mut caller, 64, 65440), Some(errno::SUCCESS));
    assert_eq!(wasi.stat_name(&mut caller, "/f", 1024), errno::SUCCESS);
    assert_eq!(caller.bytes(1024, 96), caller.bytes(65440, 96));
    wasi.next_fd = i32::MAX;
    assert_eq!(wasi.try_openat_at(&caller, 64, 0), None);
    assert_eq!(wasi.try_openat_at(&caller, 96, 0), Some(-errno::NOENT));
    wasi.next_fd = 9;
    assert_eq!(wasi.try_openat_at(&caller, 64, 0), Some(9));
    assert_eq!(wasi.unlink("/f"), 0);
    assert_eq!(wasi.unlink("/f"), -errno::NOENT);
}

#[test]
fn every_default_is_accounted_for() {
    let mut unanswered = Unanswered::default();
    unanswered.record("env::b", &[1]);
    unanswered.record("env::a", &[2]);
    unanswered.record("env::b", &[3]);
    unanswered.record("env::c", &[]);
    unanswered.record("env::b", &[4]);
    assert_eq!(unanswered.order, vec!["env::b", "env::a", "env::c"]);
    assert_eq!(unanswered.calls.get("env::b"), Some(&(3, vec![1])));
    assert_eq!(unanswered.calls.get("env::a"), Some(&(1, vec![2])));
    assert_eq!(unanswered.calls.get("env::c"), Some(&(1, Vec::new())));
}

#[test]
fn no_handle_is_given_out_twice() {
    let mut embind = Embind::default();
    let mut given = Vec::new();
    for round in 0..5 {
        let handle = embind.take_value();
        embind.incref(handle);
        embind.decref(handle);
        if round % 2 == 0 {
            embind.decref(handle);
        }
        given.push(handle);
    }
    assert_eq!(given, vec![1, 2, 3, 4, 5]);
    assert_eq!(embind.handles.keys().copied().collect::<Vec<i32>>(), vec![2, 4]);
}

#[test]
fn an_inode_stays_while_the_files_do() {
    let mut memory = Memory::new(1, None);
    let mut caller = Caller {
        memory: &mut memory,
    };
    let mut wasi = Wasi::default();
    wasi.add_file("/a", b"one");
    wasi.add_file("/b", b"two");
    caller.write(64, b"/b\0");
    assert_eq!(wasi.stat_path(&mut caller, 64, 256), 0);
    let before = caller.bytes(256 + 88, 8);
    wasi.add_file("/b", b"longer than before");
    assert_eq!(wasi.stat_path(&mut caller, 64, 256), 0);
    assert_eq!(caller.bytes(256 + 88, 8), before);
    assert_eq!(before, vec![3, 0, 0, 0, 0, 0, 0, 0]);
}
