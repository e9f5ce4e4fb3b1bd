//! What each call of a host does with what it is given.

use vstd::prelude::*;
use crate::hostlib::clock::{
    date_of, day_number, every_day_has_a_date, falls_on, is_date, lemma_months, lemma_next_year,
    month_days, tm_bytes, year_start,
};
use crate::hostlib::emscripten::pages_for;
use crate::hostlib::env::{c_bytes, c_length, next_state, text_place};
use crate::hostlib::io::{buffer, entry_at, gathered, sought, taken, vectors, written_to};
use crate::hostlib::stat::{blocks, has_under};
use crate::hostlib::wasi::{opened, with_opened, DescriptorModel, Standard, WasiModel};
use crate::rt::caller::{i32_bytes, word32};
use crate::rt::words::{le_value, lemma_le_bytes_len, lemma_le_value_of_bytes, lemma_pow256_values};
use crate::text::pieces::begins_with;

verus! {

// ---- seeking ----

/// A seek lands so far from the start of a file, from where it is, or from its end, and
/// nowhere before the start.
pub proof fn a_seek_is_measured_from_where_it_says(wasi: WasiModel, fd: i32, offset: i64)
    requires
        opened(wasi, fd) is Some,
        opened(wasi, fd)->0 is File,
        wasi.files.contains_key((opened(wasi, fd)->0->File_0).path),
        (opened(wasi, fd)->0->File_0).position <= i64::MAX,
        wasi.files[(opened(wasi, fd)->0->File_0).path].len() <= i64::MAX,
    ensures
        ({
            let open = opened(wasi, fd)->0->File_0;
            let length = wasi.files[open.path].len() as int;
            let lands = |start: int, whence: i32|
                if 0 <= start + offset <= i64::MAX {
                    sought(wasi, fd, offset, whence) == Ok::<i64, i32>((start + offset) as i64)
                } else {
                    sought(wasi, fd, offset, whence) == Err::<i64, i32>(28)
                };
            &&& lands(0, 0)
            &&& lands(open.position as int, 1)
            &&& lands(length, 2)
            &&& forall|whence: i32|
                whence < 0 || whence > 2 ==> #[trigger] sought(wasi, fd, offset, whence) == Err::<
                    i64,
                    i32,
                >(28)
        }),
{
}

/// Nothing but a file can be sought in, and what is not open is no descriptor.
pub proof fn only_a_file_is_sought_in(wasi: WasiModel, fd: i32, offset: i64, whence: i32)
    ensures
        opened(wasi, fd) is None ==> sought(wasi, fd, offset, whence) == Err::<i64, i32>(8),
        opened(wasi, fd) is Some && !(opened(wasi, fd)->0 is File) ==> sought(
            wasi,
            fd,
            offset,
            whence,
        ) == Err::<i64, i32>(70),
{
}

// ---- streams ----

/// What is written to a standard stream is added to what it collected, and touches nothing
/// else; the standard input and a directory cannot be written to.
pub proof fn a_stream_collects_what_is_written(wasi: WasiModel, fd: i32, bytes: Seq<u8>)
    ensures
        opened(wasi, fd) == Some(DescriptorModel::Standard(Standard::Out)) ==> {
            &&& written_to(wasi, fd, bytes) is Ok
            &&& (written_to(wasi, fd, bytes)->Ok_0).stdout == wasi.stdout + bytes
            &&& (written_to(wasi, fd, bytes)->Ok_0).stderr == wasi.stderr
            &&& (written_to(wasi, fd, bytes)->Ok_0).files == wasi.files
            &&& (written_to(wasi, fd, bytes)->Ok_0).open == wasi.open
        },
        opened(wasi, fd) == Some(DescriptorModel::Standard(Standard::Error)) ==> {
            &&& written_to(wasi, fd, bytes) is Ok
            &&& (written_to(wasi, fd, bytes)->Ok_0).stderr == wasi.stderr + bytes
            &&& (written_to(wasi, fd, bytes)->Ok_0).stdout == wasi.stdout
            &&& (written_to(wasi, fd, bytes)->Ok_0).files == wasi.files
            &&& (written_to(wasi, fd, bytes)->Ok_0).open == wasi.open
        },
        opened(wasi, fd) == Some(DescriptorModel::Standard(Standard::In)) ==> written_to(
            wasi,
            fd,
            bytes,
        ) == Err::<WasiModel, i32>(28),
        opened(wasi, fd) is None ==> written_to(wasi, fd, bytes) == Err::<WasiModel, i32>(8),
{
}

/// A read takes the bytes from the position on, as many as were wanted or as there are.
pub proof fn a_read_takes_what_is_there(source: Seq<u8>, position: nat, wanted: nat)
    ensures
        position >= source.len() ==> taken(source, position, wanted).len() == 0,
        position < source.len() ==> taken(source, position, wanted).len() == if source.len()
            - position < wanted {
            source.len() - position
        } else {
            wanted as int
        },
        forall|i: int|
            0 <= i < taken(source, position, wanted).len() ==> #[trigger] taken(
                source,
                position,
                wanted,
            )[i] == source[position + i],
{
}

/// Two reads in a row take what one of both sizes would.
pub proof fn two_reads_are_one(source: Seq<u8>, position: nat, first: nat, second: nat)
    requires
        position + first <= source.len(),
    ensures
        taken(source, position, first) + taken(source, position + first, second) == taken(
            source,
            position,
            first + second,
        ),
{
    assert(taken(source, position, first) + taken(source, position + first, second) =~= taken(
        source,
        position,
        first + second,
    ));
}

// ---- buffers ----

/// Gathering is one buffer after the other.
pub proof fn buffers_are_gathered_in_order(
    memory: Seq<u8>,
    some: Seq<(i32, i32)>,
    more: Seq<(i32, i32)>,
    one: (i32, i32),
)
    ensures
        gathered(memory, some + more) == gathered(memory, some) + gathered(memory, more),
        gathered(memory, seq![one]) == buffer(memory, one),
    decreases more.len(),
{
    assert(seq![one].drop_last() =~= Seq::empty());
    assert(gathered(memory, seq![one].drop_last()) =~= Seq::empty());
    assert(gathered(memory, seq![one]) =~= buffer(memory, one));
    if more.len() == 0 {
        assert(some + more =~= some);
        assert(gathered(memory, some) + gathered(memory, more) =~= gathered(memory, some));
    } else {
        assert((some + more).drop_last() =~= some + more.drop_last());
        assert((some + more).last() == more.last());
        buffers_are_gathered_in_order(memory, some, more.drop_last(), one);
        assert(gathered(memory, some + more) =~= gathered(memory, some) + gathered(memory, more));
    }
}

/// The entries of an array of buffers are eight bytes apart: an address, and four bytes on
/// a length.
pub proof fn entries_are_eight_bytes_apart(memory: Seq<u8>, iovs: i32, count: i32, i: int)
    requires
        0 <= i < count,
        0 <= iovs,
        iovs + 8 * count <= i32::MAX,
    ensures
        vectors(memory, iovs, count).len() == count,
        vectors(memory, iovs, count)[i] == (
            word32(memory, (iovs + 8 * i) as i32),
            word32(memory, (iovs + 8 * i + 4) as i32),
        ),
{
    assert(entry_at(iovs, i) == iovs + 8 * i);
}

// ---- files ----

/// Opening a path makes a descriptor of its own at the start of the file, which is there
/// from then on, as it was or empty; every other file and descriptor stays.
pub proof fn opening_leaves_the_rest(
    wasi: WasiModel,
    path: Seq<char>,
    append: bool,
    other: Seq<char>,
    fd: i32,
)
    requires
        wasi.next_fd < i32::MAX,
    ensures
        ({
            let after = with_opened(wasi, path, append);
            &&& opened(after, wasi.next_fd) is Some
            &&& opened(after, wasi.next_fd)->0 is File
            &&& (opened(after, wasi.next_fd)->0->File_0).path == path
            &&& (opened(after, wasi.next_fd)->0->File_0).position == 0
            &&& (opened(after, wasi.next_fd)->0->File_0).append == append
            &&& after.files.contains_key(path)
            &&& after.files[path] == if wasi.files.contains_key(path) {
                wasi.files[path]
            } else {
                Seq::empty()
            }
            &&& after.next_fd == wasi.next_fd + 1
            &&& other != path ==> after.files.contains_key(other) == wasi.files.contains_key(other)
                && after.files[other] == wasi.files[other]
            &&& fd != wasi.next_fd ==> opened(after, fd) == opened(wasi, fd)
            &&& after.stdout == wasi.stdout && after.stderr == wasi.stderr
        }),
{
}

/// A path is a directory where a file's path goes on after it with a slash, and the root
/// always is.
pub proof fn a_directory_is_what_files_live_under(
    wasi: WasiModel,
    path: Seq<char>,
    rest: Seq<char>,
)
    requires
        path.len() == 0 || path.last() != '/',
        wasi.files.contains_key(path + seq!['/'] + rest),
    ensures
        has_under(wasi, path),
        has_under(wasi, path.push('/')),
{
    let name = path + seq!['/'] + rest;
    let prefix = path.push('/');
    assert(name.subrange(0, prefix.len() as int) =~= prefix);
    assert(begins_with(name, prefix));
}

/// And only there.
pub proof fn a_directory_has_something_under_it(wasi: WasiModel, path: Seq<char>)
    requires
        has_under(wasi, path),
        path != "/"@,
    ensures
        exists|name: Seq<char>| #[trigger]
            wasi.files.contains_key(name) && name.len() >= path.len() && name.take(
                path.len() as int,
            ) == path && (path.len() > 0 && path.last() == '/' || name.len() > path.len()
                && name[path.len() as int] == '/'),
{
    let prefix = crate::hostlib::stat::prefix_of(path);
    let name = choose|name: Seq<char>| #[trigger]
        wasi.files.contains_key(name) && begins_with(name, prefix);
    assert(name.subrange(0, prefix.len() as int) == prefix);
    assert(name.take(path.len() as int) =~= path) by {
        assert forall|i: int| 0 <= i < path.len() implies name[i] == path[i] by {
            assert(name.subrange(0, prefix.len() as int)[i] == prefix[i]);
        }
    }
    if !(path.len() > 0 && path.last() == '/') {
        assert(name.subrange(0, prefix.len() as int)[path.len() as int] == prefix[path.len() as int]);
    }
}

/// The blocks of a file are the fewest of 512 bytes that hold it.
pub proof fn blocks_hold_the_file(size: usize)
    requires
        size <= usize::MAX - 511,
    ensures
        blocks(size) * 512 >= size,
        size > 0 ==> (blocks(size) - 1) * 512 < size,
        size == 0 ==> blocks(size) == 0,
{
}

// ---- strings ----

/// Strings are laid out end to end: each starts where the one before ends, with its NUL,
/// and together they take the size that is reported.
pub proof fn strings_are_laid_out_end_to_end(list: Seq<Seq<char>>, buffer: i32, n: int)
    requires
        0 <= n <= list.len(),
        buffer >= 0,
        buffer + c_length(list) <= i32::MAX,
    ensures
        text_place(list, buffer, n) == buffer + c_length(list.take(n)),
        n < list.len() ==> c_length(list.take(n + 1)) == c_length(list.take(n)) + c_bytes(
            list[n],
        ).len(),
    decreases n,
{
    if n < list.len() {
        assert(list.take(n + 1).drop_last() =~= list.take(n));
    }
    if n > 0 {
        strings_are_laid_out_end_to_end(list, buffer, n - 1);
        assert(list.take(n).drop_last() =~= list.take(n - 1));
        lemma_fewer(list, n);
    } else {
        assert(list.take(0) =~= Seq::empty());
    }
}

proof fn lemma_fewer(list: Seq<Seq<char>>, n: int)
    requires
        0 <= n <= list.len(),
    ensures
        c_length(list.take(n)) <= c_length(list),
    decreases list.len(),
{
    if n == list.len() {
        assert(list.take(n) =~= list);
    } else {
        lemma_fewer(list.drop_last(), n);
        assert(list.drop_last().take(n) =~= list.take(n));
    }
}

// ---- randomness and memory ----

/// The generator never gets stuck: from a state that is not zero comes another that is
/// not.
pub proof fn randomness_does_not_run_dry(state: u64)
    requires
        state != 0,
    ensures
        next_state(state) != 0,
{
    assert(({
        let a = state ^ (state >> 12);
        let b = a ^ (a << 25);
        b ^ (b >> 27)
    }) != 0) by (bit_vector)
        requires
            state != 0,
    ;
}

/// A heap of so many bytes takes the fewest pages that hold it.
pub proof fn pages_hold_the_heap(bytes: int)
    requires
        0 <= bytes,
    ensures
        pages_for(bytes) * 65536 >= bytes,
        (pages_for(bytes) - 1) * 65536 < bytes,
{
}

// ---- the calendar ----

/// The calendar is the Gregorian one: a year is 366 days long where it is divisible by
/// four and not by a hundred, or by four hundred, and else 365, and 1970 begins on day
/// zero.
pub proof fn years_are_as_long_as_the_calendar_says(year: int)
    ensures
        year_start(1970) == 0,
        year_start(year + 1) - year_start(year) == if year % 400 == 0 || year % 4 == 0 && year
            % 100 != 0 {
            366int
        } else {
            365
        },
{
    lemma_next_year(year);
    lemma_months(year);
}

/// The months are as long as they are: thirty days for April, June, September and
/// November, twenty-eight or in a leap year twenty-nine for February, and thirty-one for
/// the rest; and the day after the last of one is the first of the next.
pub proof fn months_are_as_long_as_the_calendar_says(year: int, month: int)
    requires
        1 <= month <= 12,
    ensures
        month_days(year, month) == if month == 2 {
            if year % 400 == 0 || year % 4 == 0 && year % 100 != 0 {
                29int
            } else {
                28
            }
        } else if month == 4 || month == 6 || month == 9 || month == 11 {
            30
        } else {
            31
        },
        month < 12 ==> day_number(year, month, month_days(year, month)) + 1 == day_number(
            year,
            month + 1,
            1,
        ),
        day_number(year, 12, 31) + 1 == day_number(year + 1, 1, 1),
{
    lemma_next_year(year);
    lemma_months(year);
    lemma_months(year + 1);
}

/// The number a field of four bytes holds.
proof fn lemma_field(value: i32)
    ensures
        i32_bytes(value).len() == 4,
        (le_value(i32_bytes(value)) as u32) as i32 == value,
{
    lemma_le_bytes_len((value as u32) as nat, 4);
    lemma_le_value_of_bytes((value as u32) as nat, 4);
    lemma_pow256_values();
    assert((value as u32) as i32 == value) by (bit_vector);
}

/// A `struct tm` says when it is: its seconds, minutes and hours are those of the day, the
/// day, the month and the year are those of the date, and the weekday goes on by one each
/// day from the Thursday that day zero was.
pub proof fn a_broken_down_time_says_when_it_is(seconds: i64)
    ensures
        ({
            let tm = tm_bytes(seconds);
            let days = seconds as int / 86_400;
            let (year, month, day) = date_of(days);
            let field = |k: int| word32(tm, (4 * k) as i32) as int;
            &&& tm.len() == 44
            &&& 0 <= field(0) < 60
            &&& 0 <= field(1) < 60
            &&& 0 <= field(2) < 24
            &&& field(0) + 60 * field(1) + 3600 * field(2) + 86_400 * days == seconds
            &&& is_date(year, month, day)
            &&& day_number(year, month, day) == days
            &&& field(3) == day
            &&& field(4) == month - 1
            &&& i32::MIN <= year - 1900 && year <= i32::MAX ==> field(5) == year - 1900
            &&& field(6) == (days + 4) % 7
            &&& field(7) == days - day_number(year, 1, 1)
            &&& field(8) == 0
            &&& field(9) == 0
        }),
{
    let tm = tm_bytes(seconds);
    let days = seconds as int / 86_400;
    let rest = seconds as int % 86_400;
    every_day_has_a_date(days);
    let (year, month, day) = date_of(days);
    assert(falls_on(date_of(days), days));
    lemma_months(year);
    let f0 = (rest % 60) as i32;
    let f1 = (rest / 60 % 60) as i32;
    let f2 = (rest / 3600) as i32;
    let f3 = day as i32;
    let f4 = (month - 1) as i32;
    let f5 = ((year as i64) as i32).wrapping_sub(1900);
    let f6 = ((days + 4) % 7) as i32;
    let f7 = (days - year_start(year)) as i32;
    lemma_field(f0);
    lemma_field(f1);
    lemma_field(f2);
    lemma_field(f3);
    lemma_field(f4);
    lemma_field(f5);
    lemma_field(f6);
    lemma_field(f7);
    lemma_field(0);
    assert(tm.subrange(0, 4) =~= i32_bytes(f0));
    assert(tm.subrange(4, 8) =~= i32_bytes(f1));
    assert(tm.subrange(8, 12) =~= i32_bytes(f2));
    assert(tm.subrange(12, 16) =~= i32_bytes(f3));
    assert(tm.subrange(16, 20) =~= i32_bytes(f4));
    assert(tm.subrange(20, 24) =~= i32_bytes(f5));
    assert(tm.subrange(24, 28) =~= i32_bytes(f6));
    assert(tm.subrange(28, 32) =~= i32_bytes(f7));
    assert(tm.subrange(32, 36) =~= i32_bytes(0));
    assert(tm.subrange(36, 40) =~= i32_bytes(0));
    assert(rest % 60 + 60 * (rest / 60 % 60) + 3600 * (rest / 3600) == rest);
    assert(86_400 * days + rest == seconds);
    assert(0 <= days - year_start(year) < 366);
}

} // verus!
