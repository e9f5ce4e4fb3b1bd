//! Memories, plain and shared, and the arithmetic wasm defines.

use unwasm_core::rt::{
    fence, i32_div_s, i32_div_u, i32_rem_s, i32_rem_u, i64_div_s, i64_div_u, i64_rem_s, i64_rem_u,
    Access, Caller, Memory, Rmw, SharedMemory, Wait, WriteKind, PAGE_SIZE,
};

#[test]
fn a_caller_reads_and_writes_what_the_guest_can() {
    let mut memory = Memory::new(1, None);
    let mut caller = Caller {
        memory: &mut memory,
    };
    caller.write(16, b"hello\0world");
    assert_eq!(caller.bytes(16, 5), b"hello");
    assert_eq!(caller.cstring(16), b"hello");
    // An empty string is a NUL at the address, not an absent one.
    caller.write(16, b"\0");
    assert_eq!(caller.cstring(16), b"");
    assert_eq!(caller.bytes(0, 0), b"");
}

// ---- a memory several threads share ----

#[test]
fn a_shared_memory_starts_at_its_declared_size_inside_its_reservation() {
    let memory = SharedMemory::new(2, Some(8), 4);
    assert_eq!(memory.size(), 2);
    assert_eq!(memory.reserved_pages(), 4);
    assert_eq!(memory.snapshot().len(), 2 * PAGE_SIZE);
    assert!(memory.snapshot().iter().all(|byte| *byte == 0));
}

#[test]
fn growing_publishes_reserved_pages_and_stops_at_the_reservation() {
    let mut memory = SharedMemory::new(1, Some(8), 3);
    assert_eq!(memory.grow(1), 1);
    assert_eq!(memory.size(), 2);
    // Past the reservation is a refusal, not a reallocation: another
    // thread is holding this memory and it cannot move.
    assert_eq!(memory.grow(2), -1);
    assert_eq!(memory.size(), 2);
    // And past the declared maximum, even inside the reservation.
    let mut small = SharedMemory::new(1, Some(2), 8);
    assert_eq!(small.grow(1), 1);
    assert_eq!(small.grow(1), -1);
}

#[test]
fn a_shared_memory_reads_and_writes_what_a_plain_one_does() {
    let mut memory = SharedMemory::new(1, None, 1);
    memory.store8(0, 0, 0xFF);
    memory.store16(0, 8, 0xBEEF);
    memory.store32(0, 16, 0x1234_5678);
    memory.store64(0, 24, 0x0102_0304_0506_0708);
    memory.store32(0, 40, i64::from(1.5f32.to_bits()));
    memory.store64(0, 48, (-2.25f64).to_bits() as i64);
    assert_eq!(memory.load8_u(0, 0), 255);
    assert_eq!(memory.load8_s(0, 0), -1);
    assert_eq!(memory.load16_u(0, 8), 0xBEEF);
    assert_eq!(memory.load16_s(0, 8), 0xBEEF_u16 as i16 as i32);
    assert_eq!(memory.load32(0, 16), 0x1234_5678);
    assert_eq!(memory.load64(0, 24), 0x0102_0304_0506_0708);
    assert_eq!(f32::from_bits(memory.load32(0, 40) as u32), 1.5);
    assert_eq!(f64::from_bits(memory.load64(0, 48) as u64), -2.25);
    assert_eq!(memory.load8_s_i64(0, 0), -1);
    assert_eq!(memory.load8_u_i64(0, 0), 255);
    assert_eq!(memory.load16_s_i64(0, 8), 0xBEEF_u16 as i16 as i64);
    assert_eq!(memory.load16_u_i64(0, 8), 0xBEEF);
    assert_eq!(memory.load32_s_i64(0, 16), 0x1234_5678);
    assert_eq!(memory.load32_u_i64(0, 16), 0x1234_5678);

    memory.fill(64, 7, 4);
    memory.copy(72, 64, 4);
    memory.init(80, b"abcd", 1, 2);
    assert_eq!(memory.load32(64, 0), 0x0707_0707);
    assert_eq!(memory.load32(72, 0), 0x0707_0707);
    assert_eq!(
        memory.load16_u(80, 0),
        u32::from(u16::from_le_bytes(*b"bc")) as i32
    );
}

#[test]
fn a_shared_copy_that_overlaps_moves_the_bytes_it_started_with() {
    let mut memory = SharedMemory::new(1, None, 1);
    memory.init(0, b"12345678", 0, 8);
    memory.copy(2, 0, 6);
    assert_eq!(&memory.snapshot()[0..8], b"12123456");
}

#[test]
fn waiting_for_a_value_that_already_changed_returns_immediately() {
    let mut memory = SharedMemory::new(1, None, 1);
    memory.atomic_store(0, 0, 4, 7);
    assert_eq!(memory.atomic_wait(0, 0, 4, 0, -1), 1);
    // A zero timeout expires immediately whoever else is running.
    assert_eq!(memory.atomic_wait(0, 0, 4, 7, 0), 2);
    // And a real timeout expires when nobody notifies.
    let ticket = match memory.begin_wait(0, 0, 4, 7, 1_000_000, true) {
        Wait::Parked(ticket) => ticket,
        other => panic!("{other:?}"),
    };
    assert_eq!(memory.go_on_waiting(0, 0, ticket, false), None);
    assert_eq!(memory.go_on_waiting(0, 0, ticket, true), Some(2));
}

#[test]
fn a_grow_the_host_refused_is_not_a_grow_the_module_refused() {
    // The guest sees one -1 either way. A host that reserved too little
    // has to be able to tell, or a run whose `malloc` failed for that
    // reason reads as a run that found something out.
    let mut memory = SharedMemory::new(1, Some(64), 4);
    assert_eq!(memory.grow(2), 1);
    assert_eq!(memory.grows_refused_by_the_reservation(), 0);

    // Past the reservation, inside what the module declared: the host's
    // limit, and counted.
    assert_eq!(memory.grow(8), -1);
    assert_eq!(memory.grows_refused_by_the_reservation(), 1);

    // Past what the module declared: the module's own limit, and not.
    let mut small = SharedMemory::new(1, Some(2), 64);
    assert_eq!(small.grow(8), -1);
    assert_eq!(small.grows_refused_by_the_reservation(), 0);

    // The count is shared, like everything else about this memory: a
    // thread that hit the ceiling tells the thread that reads it.
    let other = &mut memory;
    assert_eq!(other.grow(8), -1);
    assert_eq!(memory.grows_refused_by_the_reservation(), 2);
}

#[test]
fn a_fence_is_emitted_rather_than_assumed_away() {
    // Nothing to assert about its effect from one thread; what matters is
    // that it exists and is callable, since the output lowers a guest
    // `atomic.fence` to it.
    fence();
}

#[test]
fn notifying_an_address_nobody_waits_on_wakes_nothing() {
    let mut memory = SharedMemory::new(1, None, 1);
    assert_eq!(memory.atomic_notify(0, 0), 0);
    assert_eq!(memory.atomic_notify_count(0, 0, 0), 0);
    // A negative count is "everybody", which is how `-1` reaches here from
    // a guest that spelled the count as `i32.const -1`.
    assert_eq!(memory.atomic_notify_count(0, 0, -1), 0);
}

#[test]
fn an_eight_byte_exchange_that_takes_is_reported() {
    let mut memory = Memory::new(1, None);
    memory.watch(0x100, 8);
    memory.atomic_store(0x100, 0, 8, -1);
    assert_eq!(memory.atomic_cmpxchg_at(1, 10, 0x100, 0, 8, -1, 7), -1);
    assert_eq!(memory.load64(0x100, 0), 7);
    assert_eq!(memory.hits().len(), 1, "the whole 64-bit value matched");
}

#[test]
fn a_shared_cmpxchg_exchanges_only_on_a_match() {
    let mut memory = SharedMemory::new(1, None, 1);
    memory.atomic_store(0, 0, 4, 5);
    assert_eq!(memory.atomic_cmpxchg(0, 0, 4, 4, 9), 5);
    assert_eq!(memory.atomic_load(0, 0, 4), 5, "no match, no write");
    assert_eq!(memory.atomic_cmpxchg(0, 0, 4, 5, 9), 5);
    assert_eq!(memory.atomic_load(0, 0, 4), 9);
    // The comparison is at the access width, so the high bits of what the
    // module passes do not decide it.
    memory.atomic_store(0, 0, 1, 3);
    assert_eq!(memory.atomic_cmpxchg(0, 0, 1, 0x103, 4), 3);
    assert_eq!(memory.atomic_load(0, 0, 1), 4);
}

#[test]
fn a_shared_rmw_covers_every_operation() {
    let mut memory = SharedMemory::new(1, None, 1);
    memory.atomic_store(0, 0, 4, 0b1100);
    assert_eq!(memory.atomic_rmw(0, 0, 4, Rmw::Or, 0b0011), 0b1100);
    assert_eq!(memory.atomic_rmw(0, 0, 4, Rmw::And, 0b1010), 0b1111);
    assert_eq!(memory.atomic_rmw(0, 0, 4, Rmw::Xor, 0b0110), 0b1010);
    assert_eq!(memory.atomic_rmw(0, 0, 4, Rmw::Sub, 1), 0b1100);
    assert_eq!(memory.atomic_rmw(0, 0, 4, Rmw::Xchg, 42), 0b1011);
    assert_eq!(memory.atomic_load(0, 0, 4), 42);
}

#[test]
fn two_shared_memories_holding_the_same_bytes_compare_equal() {
    let mut one = SharedMemory::new(1, None, 1);
    let mut two = SharedMemory::new(1, None, 2);
    assert_eq!(one, two, "the reservation is not the memory");
    one.store32(0, 0, 1);
    assert_ne!(one, two);
    two.store32(0, 0, 1);
    assert_eq!(one, two);
}

#[test]
fn growing_through_the_trait_answers_for_either_memory() {
    // What a host calls to answer `emscripten_resize_heap`, without
    // knowing which memory the module declared.
    let mut plain = Memory::new(1, Some(4));
    assert_eq!(plain.grow_pages(1), 1);
    assert_eq!(plain.declared_max_pages(), Some(4));

    let mut shared = SharedMemory::new(1, Some(8), 3);
    assert_eq!(shared.grow_pages(1), 1);
    // The reservation is a ceiling as real as the declared maximum, so the
    // smaller of the two is what a host is told.
    assert_eq!(shared.declared_max_pages(), Some(3));
    let undeclared = SharedMemory::new(1, None, 2);
    assert_eq!(undeclared.declared_max_pages(), Some(2));
}

#[test]
fn a_snapshot_is_the_bytes_either_kind_of_memory_holds() {
    let mut plain = Memory::new(1, None);
    plain.store32(0, 0, 7);
    assert_eq!(plain.snapshot().len(), PAGE_SIZE);
    assert_eq!(plain.snapshot()[0], 7);

    let mut shared = SharedMemory::new(1, None, 2);
    shared.store32(0, 0, 7);
    assert_eq!(shared.snapshot(), plain.snapshot());
}

#[test]
fn a_caller_over_a_shared_memory_reads_and_writes_the_same_way() {
    // The host code is generic over which memory it got, and this is the
    // implementation that makes the shared one usable from one.
    let mut memory = SharedMemory::new(1, None, 1);
    let mut caller = Caller {
        memory: &mut memory,
    };
    caller.write(32, b"shared\0");
    assert_eq!(caller.cstring(32), b"shared");
    assert_eq!(caller.bytes(32, 6), b"shared");
    caller.write_i32(64, -2);
    assert_eq!(caller.read_i32(64), -2);
}

#[test]
fn a_shared_cmpxchg_at_eight_bytes_compares_the_whole_value() {
    let mut memory = SharedMemory::new(1, None, 1);
    memory.atomic_store(0, 0, 8, -1);
    assert_eq!(memory.atomic_cmpxchg(0, 0, 8, -1, 5), -1);
    assert_eq!(memory.atomic_load(0, 0, 8), 5);
}

#[test]
fn a_shared_write_reports_nothing_when_nothing_is_watched() {
    let mut memory = SharedMemory::new(1, None, 1);
    memory.store32_at(1, 14, 0, 0, 1);
    assert!(memory.hits().is_empty());
}

#[test]
fn a_shared_watchpoint_ignores_a_write_beside_the_range() {
    let mut memory = SharedMemory::new(1, None, 1);
    memory.watch(0x100, 4);
    memory.store32_at(1, 14, 0x0FC, 0, 1);
    memory.store32_at(2, 24, 0x104, 0, 1);
    assert!(memory.hits().is_empty());
}

#[test]
fn nothing_is_watched_until_a_host_asks() {
    let mut memory = Memory::new(1, None);
    memory.store32_at(7, 74, 0, 0, 1);
    memory.fill_at(7, 74, 0, 0, 4);
    assert!(memory.hits().is_empty());
}

#[test]
fn a_watched_write_records_who_did_it_and_what_kind_it_was() {
    let mut memory = Memory::new(1, None);
    memory.watch(0x100, 4);
    memory.store32_at(11, 114, 0x100, 0, 42);
    memory.store8_at(12, 124, 0x102, 0, 1);
    memory.store16_at(13, 134, 0x102, 0, 1);
    memory.store64_at(14, 144, 0x0FC, 0, 1);
    memory.store32_at(15, 154, 0x100, 0, i64::from(1.0f32.to_bits()));
    memory.store64_at(16, 164, 0x100, 0, 1.0f64.to_bits() as i64);
    memory.fill_at(17, 174, 0x100, 0, 4);
    memory.copy_at(18, 184, 0x100, 0, 4);
    memory.init_at(19, 194, 0x100, b"abcd", 0, 4);
    assert_eq!(
        memory
            .hits()
            .iter()
            .map(|hit| (hit.site, hit.kind))
            .collect::<Vec<_>>(),
        vec![
            (11, WriteKind::Store),
            (12, WriteKind::Store),
            (13, WriteKind::Store),
            (14, WriteKind::Store),
            (15, WriteKind::Store),
            (16, WriteKind::Store),
            (17, WriteKind::Fill),
            (18, WriteKind::Copy),
            (19, WriteKind::Init),
        ]
    );
    assert_eq!(memory.hits()[0].address, 0x100);
    assert_eq!(memory.hits()[0].bytes, 4);
    // The i64 store starts below the range and runs into it, which is the
    // case a check comparing only the start address misses. A store that
    // *ends* exactly at 0x100 is not a hit, which is why this one is at
    // 0xFC rather than 0xF8.
    assert_eq!(memory.hits()[3].address, 0x0FC);
}

#[test]
fn a_write_beside_the_range_is_not_a_hit() {
    let mut memory = Memory::new(1, None);
    memory.watch(0x100, 4);
    memory.store32_at(1, 14, 0x0FC, 0, 1);
    memory.store32_at(2, 24, 0x104, 0, 1);
    // The static offset counts towards the address, or an instrumented
    // `store offset=4` would be attributed to the wrong place.
    memory.store32_at(3, 34, 0x0FC, 4, 1);
    assert_eq!(
        memory.hits().iter().map(|hit| hit.site).collect::<Vec<_>>(),
        vec![3]
    );
    assert_eq!(memory.hits()[0].address, 0x100);
}

#[test]
fn an_atomic_write_is_reported_and_says_it_was_atomic() {
    let mut memory = Memory::new(1, None);
    memory.watch(0x200, 4);
    memory.atomic_store_at(1, 14, 0x200, 0, 4, 7);
    assert_eq!(memory.atomic_rmw_at(2, 24, 0x200, 0, 4, Rmw::Add, 1), 7);
    // A comparison that fails wrote nothing, and reporting it would answer
    // "who wrote this address" with a function that did not.
    assert_eq!(memory.atomic_cmpxchg_at(3, 34, 0x200, 0, 4, 99, 1), 8);
    assert_eq!(memory.load32(0x200, 0), 8);
    assert_eq!(memory.hits().len(), 2);
    // One that succeeds is a write, and is reported.
    assert_eq!(memory.atomic_cmpxchg_at(4, 44, 0x200, 0, 4, 8, 12), 8);
    assert_eq!(memory.load32(0x200, 0), 12);
    assert_eq!(memory.hits().len(), 3);
    assert_eq!(memory.hits()[2].site, 4);
    assert!(
        memory
            .hits()
            .iter()
            .all(|hit| hit.kind == WriteKind::Atomic)
    );
}

#[test]
fn memory_starts_zeroed_and_sized_in_pages() {
    let memory = Memory::new(2, None);
    assert_eq!(memory.size(), 2);
    assert_eq!(memory.data.len(), 2 * PAGE_SIZE);
    assert!(memory.data.iter().all(|&byte| byte == 0));
}

#[test]
fn grow_reports_old_size_and_refuses_past_the_maximum() {
    let mut memory = Memory::new(1, Some(2));
    assert_eq!(memory.grow(1), 1);
    assert_eq!(memory.size(), 2);
    assert_eq!(memory.grow(1), -1);
    assert_eq!(memory.size(), 2);
    // Refusal must not have resized anything.
    assert_eq!(memory.data.len(), 2 * PAGE_SIZE);
}

#[test]
fn grow_refuses_beyond_the_four_gigabyte_ceiling() {
    let mut memory = Memory::new(1, None);
    assert_eq!(memory.grow(65536), -1);
}

#[test]
fn loads_and_stores_round_trip_at_every_width() {
    let mut memory = Memory::new(1, None);
    memory.store8(0, 0, 0xFF);
    memory.store16(0, 8, 0xBEEF);
    memory.store32(0, 16, 0x1234_5678);
    memory.store64(0, 24, 0x0102_0304_0506_0708);
    memory.store32(0, 40, i64::from(1.5f32.to_bits()));
    memory.store64(0, 48, (-2.25f64).to_bits() as i64);

    assert_eq!(memory.load8_u(0, 0), 255);
    assert_eq!(memory.load8_s(0, 0), -1);
    assert_eq!(memory.load16_u(0, 8), 0xBEEF);
    assert_eq!(memory.load16_s(0, 8), 0xBEEF_u16 as i16 as i32);
    assert_eq!(memory.load32(0, 16), 0x1234_5678);
    assert_eq!(memory.load64(0, 24), 0x0102_0304_0506_0708);
    assert_eq!(f32::from_bits(memory.load32(0, 40) as u32), 1.5);
    assert_eq!(f64::from_bits(memory.load64(0, 48) as u64), -2.25);
}

#[test]
fn the_narrow_i64_loads_extend_by_their_sign() {
    let mut memory = Memory::new(1, None);
    memory.store8(0, 0, -1);
    memory.store16(0, 2, -2);
    memory.store32(0, 4, -3);
    assert_eq!(memory.load8_s_i64(0, 0), -1);
    assert_eq!(memory.load8_u_i64(0, 0), 255);
    assert_eq!(memory.load16_s_i64(0, 2), -2);
    assert_eq!(memory.load16_u_i64(0, 2), 65534);
    assert_eq!(memory.load32_s_i64(0, 4), -3);
    assert_eq!(memory.load32_u_i64(0, 4), 4294967293);
}

#[test]
fn fill_and_copy_move_bytes_the_way_memmove_does() {
    let mut memory = Memory::new(1, None);
    memory.fill(0, 0xAB, 4);
    assert_eq!(memory.data[..5], [0xAB, 0xAB, 0xAB, 0xAB, 0x00]);
    // Overlapping forward copy: a naive byte loop would smear the source.
    memory.fill(0, 0, 16);
    memory.store32(0, 0, 0x0403_0201);
    memory.copy(2, 0, 4);
    assert_eq!(memory.data[..8], [1, 2, 1, 2, 3, 4, 0, 0]);
}

#[test]
fn a_zero_length_fill_at_the_very_end_is_legal() {
    let mut memory = Memory::new(1, None);
    memory.fill(PAGE_SIZE as i32, 0, 0);
}

#[test]
fn init_copies_a_slice_of_a_segment() {
    let mut memory = Memory::new(1, None);
    memory.init(4, b"hello", 1, 3);
    assert_eq!(&memory.data[4..7], b"ell");
}

#[test]
fn signed_division_traps_where_wasm_says_it_must() {
    assert_eq!(i32_div_s(7, 2), 3);
    assert_eq!(i32_div_s(-7, 2), -3);
    assert_eq!(i32_div_u(-1, 2), 0x7FFF_FFFF);
    assert_eq!(i64_div_s(-7, 2), -3);
    assert_eq!(i64_div_u(-1, 2), 0x7FFF_FFFF_FFFF_FFFF);
}

#[test]
fn remainder_of_the_minimum_by_minus_one_is_zero_not_a_panic() {
    // The one case where Rust's `%` panics and wasm defines a result.
    assert_eq!(i32_rem_s(i32::MIN, -1), 0);
    assert_eq!(i64_rem_s(i64::MIN, -1), 0);
    assert_eq!(i32_rem_s(-7, 2), -1);
    assert_eq!(i32_rem_u(-1, 3), 0);
    assert_eq!(i64_rem_s(-7, 2), -1);
    assert_eq!(i64_rem_u(-1, 3), 0);
}

#[test]
fn atomic_loads_and_stores_move_the_same_bytes_as_plain_ones() {
    let mut memory = Memory::new(1, None);
    memory.atomic_store(0, 0, 4, 0x1234_5678);
    assert_eq!(memory.load32(0, 0), 0x1234_5678);
    assert_eq!(memory.atomic_load(0, 0, 4), 0x1234_5678);
    // Narrow accesses are zero-extended, never sign-extended: there is no
    // signed atomic load in wasm.
    memory.atomic_store(8, 0, 1, -1);
    assert_eq!(memory.atomic_load(8, 0, 1), 255);
    memory.atomic_store(16, 0, 2, -1);
    assert_eq!(memory.atomic_load(16, 0, 2), 65535);
    memory.atomic_store(24, 0, 8, -1);
    assert_eq!(memory.atomic_load(24, 0, 8), -1);
}

#[test]
fn a_single_byte_atomic_is_aligned_anywhere() {
    let mut memory = Memory::new(1, None);
    memory.atomic_store(7, 0, 1, 3);
    assert_eq!(memory.atomic_load(7, 0, 1), 3);
}

#[test]
fn read_modify_write_returns_the_old_value_and_stores_the_new_one() {
    let mut memory = Memory::new(1, None);
    memory.atomic_store(0, 0, 4, 10);
    assert_eq!(memory.atomic_rmw(0, 0, 4, Rmw::Add, 5), 10);
    assert_eq!(memory.atomic_load(0, 0, 4), 15);
    assert_eq!(memory.atomic_rmw(0, 0, 4, Rmw::Sub, 20), 15);
    // The result is read back zero-extended, as every atomic load is; the
    // generated code casts it to i32, where it is -5.
    assert_eq!(memory.atomic_load(0, 0, 4), 0xFFFF_FFFB);
    assert_eq!(memory.atomic_load(0, 0, 4) as i32, -5);
    assert_eq!(memory.atomic_rmw(0, 0, 4, Rmw::And, 0xFF), 0xFFFF_FFFB);
    assert_eq!(memory.atomic_load(0, 0, 4), 0xFB);
    assert_eq!(memory.atomic_rmw(0, 0, 4, Rmw::Or, 0x100), 0xFB);
    assert_eq!(memory.atomic_load(0, 0, 4), 0x1FB);
    assert_eq!(memory.atomic_rmw(0, 0, 4, Rmw::Xor, 0xFF), 0x1FB);
    assert_eq!(memory.atomic_load(0, 0, 4), 0x104);
    assert_eq!(memory.atomic_rmw(0, 0, 4, Rmw::Xchg, 42), 0x104);
    assert_eq!(memory.atomic_load(0, 0, 4), 42);
}

#[test]
fn a_narrow_read_modify_write_wraps_at_its_own_width() {
    // `i32.atomic.rmw8.add_u` on 250 + 10 is 4, not 260: the arithmetic
    // happens at the access width, not at the value's.
    let mut memory = Memory::new(1, None);
    memory.atomic_store(0, 0, 1, 250);
    assert_eq!(memory.atomic_rmw(0, 0, 1, Rmw::Add, 10), 250);
    assert_eq!(memory.atomic_load(0, 0, 1), 4);
    // And the neighbouring byte is untouched.
    assert_eq!(memory.data[1], 0);
}

#[test]
fn compare_and_exchange_swaps_only_on_a_match() {
    let mut memory = Memory::new(1, None);
    memory.atomic_store(0, 0, 4, 7);
    assert_eq!(
        memory.atomic_cmpxchg(0, 0, 4, 7, 9),
        7,
        "returns the old value"
    );
    assert_eq!(memory.atomic_load(0, 0, 4), 9, "and swapped");
    assert_eq!(
        memory.atomic_cmpxchg(0, 0, 4, 7, 11),
        9,
        "still the old value"
    );
    assert_eq!(memory.atomic_load(0, 0, 4), 9, "and did not swap");
}

#[test]
fn a_full_width_compare_and_exchange_compares_every_bit() {
    // Eight bytes: there is no mask, because there is nothing to mask off.
    let mut memory = Memory::new(1, None);
    memory.atomic_store(0, 0, 8, -1);
    assert_eq!(
        memory.atomic_cmpxchg(0, 0, 8, 0, 5),
        -1,
        "no match, no swap"
    );
    assert_eq!(memory.atomic_load(0, 0, 8), -1);
    assert_eq!(memory.atomic_cmpxchg(0, 0, 8, -1, 5), -1);
    assert_eq!(memory.atomic_load(0, 0, 8), 5);
}

#[test]
fn a_narrow_compare_and_exchange_compares_at_its_own_width() {
    // The expected value arrives at the operand's width; only the low byte
    // can possibly match a one-byte access.
    let mut memory = Memory::new(1, None);
    memory.atomic_store(0, 0, 1, 0x42);
    assert_eq!(memory.atomic_cmpxchg(0, 0, 1, 0xFF42, 0x99), 0x42);
    assert_eq!(
        memory.atomic_load(0, 0, 1),
        0x99,
        "the high bits are not part of it"
    );
}

#[test]
fn notify_wakes_nobody_because_nobody_is_there() {
    assert_eq!(Memory::new(1, None).atomic_notify(0, 0), 0);
}

#[test]
fn waiting_on_a_value_that_already_changed_returns_not_equal() {
    let mut memory = Memory::new(1, None);
    memory.atomic_store(0, 0, 4, 5);
    // The uncontended case, and the common one: no thread is needed to
    // answer it.
    assert_eq!(memory.atomic_wait(0, 0, 4, 99, -1), 1);
}

#[test]
fn waiting_with_a_zero_timeout_times_out_immediately() {
    let mut memory = Memory::new(1, None);
    memory.atomic_store(0, 0, 4, 5);
    assert_eq!(memory.atomic_wait(0, 0, 4, 5, 0), 2);
}
