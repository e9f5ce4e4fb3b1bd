//! Waiting and waking, and what every access asks for first.

use unwasm_core::rt::{Access, Caller, Memory, Rmw, SharedMemory, Wait, WriteKind, PAGE_SIZE};

fn parked(memory: &mut SharedMemory, addr: i32) -> u64 {
    match memory.begin_wait(addr, 0, 4, 0, -1, false) {
        Wait::Parked(ticket) => ticket,
        other => panic!("{other:?}"),
    }
}

#[test]
fn a_notify_wakes_the_oldest_first_and_no_more_than_asked() {
    let mut memory = SharedMemory::new(1, None, 1);
    let first = parked(&mut memory, 0);
    let second = parked(&mut memory, 0);
    let third = parked(&mut memory, 0);
    let elsewhere = parked(&mut memory, 64);
    assert_eq!(memory.atomic_notify_count(0, 0, 1), 1);
    assert_eq!(memory.go_on_waiting(0, 0, first, false), Some(0));
    assert_eq!(memory.go_on_waiting(0, 0, second, false), None);
    assert_eq!(memory.atomic_notify_count(0, 0, 0), 0);
    assert_eq!(memory.go_on_waiting(0, 0, second, false), None);
    // A negative count is everybody, on this address.
    assert_eq!(memory.atomic_notify_count(0, 0, -1), 2);
    assert_eq!(memory.go_on_waiting(0, 0, second, false), Some(0));
    assert_eq!(memory.go_on_waiting(0, 0, third, false), Some(0));
    assert_eq!(memory.go_on_waiting(64, 0, elsewhere, false), None);
    assert_eq!(memory.atomic_notify(0, 0), 0, "nobody is left");
    assert_eq!(memory.atomic_notify(64, 0), 1);
}

#[test]
fn a_wait_that_ran_out_of_time_is_no_longer_there_to_wake() {
    let mut memory = SharedMemory::new(1, None, 1);
    let ticket = match memory.begin_wait(8, 0, 4, 0, 500, true) {
        Wait::Parked(ticket) => ticket,
        other => panic!("{other:?}"),
    };
    // Traffic elsewhere does not end it.
    assert_eq!(memory.atomic_notify(64, 0), 0);
    assert_eq!(memory.go_on_waiting(8, 0, ticket, false), None);
    assert_eq!(memory.go_on_waiting(8, 0, ticket, true), Some(2));
    assert_eq!(memory.atomic_notify(8, 0), 0);
}

#[test]
fn a_wake_that_came_in_time_counts_though_the_time_is_up() {
    let mut memory = SharedMemory::new(1, None, 1);
    let ticket = parked(&mut memory, 8);
    assert_eq!(memory.atomic_notify(8, 0), 1);
    assert_eq!(memory.go_on_waiting(8, 0, ticket, true), Some(0));
}

#[test]
fn a_wait_nobody_can_answer_is_said_to_be_one() {
    let mut memory = SharedMemory::new(1, None, 1);
    assert_eq!(memory.begin_wait(0, 0, 4, 0, -1, true), Wait::Unanswerable);
    assert_eq!(memory.begin_wait(0, 0, 4, 1, -1, true), Wait::Answered(1));
    assert_eq!(memory.begin_wait(0, 0, 4, 0, 0, true), Wait::Answered(2));
}

#[test]
fn what_an_access_needs_can_be_asked_first() {
    let mut memory = Memory::new(1, None);
    assert!(memory.in_bounds(65532, 0, 4));
    assert!(!memory.in_bounds(65532, 1, 4));
    assert!(!memory.in_bounds(-4, 0, 4), "an address is unsigned");
    assert!(!memory.in_bounds(-1, u64::from(u32::MAX), 4), "and does not wrap");
    assert!(memory.in_bounds(PAGE_SIZE as i32, 0, 0));
    assert!(!memory.in_bounds(PAGE_SIZE as i32 + 1, 0, 0));
    assert!(Memory::is_aligned(8, 4, 4));
    assert!(!Memory::is_aligned(8, 2, 4), "the offset counts");
    assert!(Memory::is_aligned(7, 0, 1));
    memory.fill(0, i32::from(b'x'), PAGE_SIZE as i32);
    let mut caller = Caller {
        memory: &mut memory,
    };
    assert!(!caller.has_cstring(0), "no NUL before the end");
    caller.write(5, b"\0");
    assert!(caller.has_cstring(0));
    assert!(!caller.has_cstring(6));
    assert!(!caller.has_cstring(PAGE_SIZE as i32));
    assert!(caller.in_bounds(65535, 1));
    assert!(!caller.in_bounds(65535, 2));
    assert_eq!(caller.cstring(3), b"xx");
}

#[test]
fn a_write_is_read_back_and_leaves_the_rest() {
    let mut memory = Memory::new(1, None);
    memory.fill(0, 0x5a, 64);
    memory.store64(8, 0, -2);
    assert_eq!(memory.load64(8, 0), -2);
    assert_eq!(memory.load32_u_i64(4, 0), 0x5a5a_5a5a);
    assert_eq!(memory.load32_u_i64(16, 0), 0x5a5a_5a5a);
    let mut caller = Caller {
        memory: &mut memory,
    };
    caller.write_i32(32, i32::MIN);
    assert_eq!(caller.read_i32(32), i32::MIN);
    caller.write_i64(40, i64::MIN + 1);
    assert_eq!(caller.memory.load64(40, 0), i64::MIN + 1);
    assert_eq!(caller.bytes(36, 4), vec![0x5a; 4]);
}

#[test]
fn growing_keeps_what_was_there_and_adds_zeros() {
    let mut memory = Memory::new(1, None);
    memory.store8(65535, 0, 7);
    assert_eq!(memory.grow(1), 1);
    assert_eq!(memory.byte_at(65535), 7);
    assert_eq!(memory.byte_at(65536), 0);
    assert_eq!(memory.byte_len(), 2 * PAGE_SIZE);
}

#[test]
fn a_watchpoint_says_whether_a_write_would_hit_it() {
    let mut memory = Memory::new(1, None);
    memory.watch(0x100, 4);
    assert!(memory.watch.watches(0x100, 0, 1));
    assert!(memory.watch.watches(0xfd, 0, 4));
    assert!(!memory.watch.watches(0xfc, 0, 4));
    assert!(!memory.watch.watches(0x104, 0, 8));
    memory.store32_at(3, 30, 0x102, 0, 1);
    assert_eq!(memory.hits().len(), 1);
    assert_eq!(memory.hits()[0].site, 3);
    assert_eq!(memory.hits()[0].at, 30);
    assert_eq!(memory.hits()[0].kind, WriteKind::Store);
}

#[test]
fn a_shared_memory_reports_what_was_written_where_it_is_watched() {
    let mut memory = SharedMemory::new(1, None, 1);
    memory.watch(256, 4);
    memory.store32_at(1, 14, 256, 0, 1);
    memory.fill_at(7, 74, 256, 0, 4);
    memory.copy_at(8, 84, 256, 0, 4);
    memory.init_at(9, 94, 256, b"abcd", 0, 4);
    memory.atomic_store_at(10, 104, 256, 0, 4, 1);
    memory.atomic_rmw_at(11, 114, 256, 0, 4, Rmw::Add, 1);
    memory.atomic_cmpxchg_at(12, 124, 256, 0, 4, 9, 1);
    memory.store32_at(13, 134, 1024, 0, 1);
    let sites: Vec<u32> = memory.hits().iter().map(|hit| hit.site).collect();
    assert_eq!(
        sites,
        vec![1, 7, 8, 9, 10, 11, 12],
        "an exchange is reported whether or not it took"
    );
}

#[test]
fn a_write_of_no_bytes_is_no_hit() {
    let mut memory = Memory::new(1, None);
    memory.watch(0x100, 4);
    memory.fill_at(7, 74, 0x102, 0, 0);
    memory.copy_at(8, 84, 0x102, 0, 0);
    memory.init_at(9, 94, 0x102, b"abcd", 0, 0);
    assert!(memory.hits().is_empty());
    assert!(!memory.watch.watches(0x102, 0, 0));
    memory.watch.stop = true;
    memory.fill_at(7, 74, 0x102, 0, 0);
    memory.watch.stop = false;
    memory.fill_at(7, 74, 0x102, 0, 1);
    assert_eq!(memory.hits().len(), 1);
    assert_eq!(memory.hits()[0].bytes, 1);

    let mut shared = SharedMemory::new(1, None, 1);
    shared.watch(0x100, 4);
    shared.fill_at(7, 74, 0x102, 0, 0);
    shared.copy_at(8, 84, 0x102, 0, 0);
    shared.init_at(9, 94, 0x102, b"abcd", 0, 0);
    assert!(shared.hits().is_empty());
}

#[test]
fn a_range_of_no_bytes_is_never_hit() {
    let mut memory = Memory::new(1, None);
    memory.watch(0x102, 0);
    memory.store32_at(3, 30, 0x100, 0, 1);
    memory.fill_at(4, 40, 0x100, 0, 16);
    assert!(memory.hits().is_empty());
}
