use axvfs::mm::{Backend, MapStep, UnmapStep, Unmapped, PAGE_SIZE_4K};
use axvfs::time::{
    epoch_nanos, extract_bits, init_early, init_primary, nanos_to_ticks, rtc_time,
    set_oneshot_timer, ticks_to_nanos, RtcTime,
};

#[test]
fn ticks_and_nanoseconds() {
    assert_eq!(ticks_to_nanos(10, 25), 250);
    assert_eq!(ticks_to_nanos(0, 25), 0);
    assert_eq!(ticks_to_nanos(u64::MAX, 1), u64::MAX);
    assert_eq!(nanos_to_ticks(1001, 10), 100);
    assert_eq!(nanos_to_ticks(9, 10), 0);
    assert_eq!(nanos_to_ticks(250, 25), 10);
    assert_eq!(init_primary(100_000_000), 10);
    assert_eq!(init_primary(1_000_000_000), 1);
    assert_eq!(init_primary(3), 333_333_333);
}

#[test]
fn one_shot_timer_counts_the_ticks_to_the_deadline() {
    assert_eq!(set_oneshot_timer(1000, 30, 10), 70);
    assert_eq!(set_oneshot_timer(1009, 100, 10), 0);
    assert_eq!(set_oneshot_timer(u64::MAX, 0, 1), u64::MAX);
}

#[test]
fn bits_of_a_register() {
    assert_eq!(extract_bits(0b1011_0000, 4, 8), 0b1011);
    assert_eq!(extract_bits(u32::MAX, 0, 4), 0xf);
    assert_eq!(extract_bits(u32::MAX, 26, 32), 0x3f);
    assert_eq!(extract_bits(0x8000_0000, 31, 32), 1);
    assert_eq!(extract_bits(0x1234_5678, 8, 16), 0x56);
    assert_eq!(extract_bits(0x1234_5678, 1, 32), 0x1234_5678 >> 1);
}

fn registers(month: u32, day: u32, hour: u32, min: u32, sec: u32, millis: u32) -> u32 {
    (month << 26) | (day << 21) | (hour << 16) | (min << 10) | (sec << 4) | millis
}

#[test]
fn time_of_the_real_time_clock() {
    let value = registers(2, 29, 12, 34, 56, 7);
    assert_eq!(
        rtc_time(value, 124),
        RtcTime { year: 2024, month: 2, day: 29, hour: 12, min: 34, sec: 56, millis: 7 }
    );
    assert_eq!(
        rtc_time(u32::MAX, 0),
        RtcTime { year: 1900, month: 63, day: 31, hour: 31, min: 63, sec: 63, millis: 15 }
    );
}

#[test]
fn nanoseconds_since_the_epoch() {
    assert_eq!(epoch_nanos(Some((1, 5))), Some(1_000_000_005));
    assert_eq!(epoch_nanos(Some((0, 0))), Some(0));
    assert_eq!(epoch_nanos(None), None);
    assert_eq!(epoch_nanos(Some((u64::MAX, 0))), None);
    assert_eq!(
        epoch_nanos(Some((18_446_744_073, 709_551_615))),
        Some(u64::MAX)
    );
    assert_eq!(epoch_nanos(Some((18_446_744_073, 709_551_616))), None);
    assert_eq!(epoch_nanos(Some((18_446_744_074, 0))), None);
}

#[test]
fn offset_of_the_wall_clock() {
    let value = registers(2, 29, 12, 34, 56, 7);
    let wall: u64 = 1_709_210_096 * 1_000_000_000 + 7_000_000;
    assert_eq!(init_early(value, 124, 1_000), Some(wall - 1_000));
    assert_eq!(init_early(value, 124, 0), Some(wall));
    assert_eq!(init_early(value, 124, wall), Some(0));
    // The monotonic clock cannot have run for longer than since the epoch.
    assert_eq!(init_early(value, 124, wall + 1), None);
    // A date that does not exist gives no offset, and one before 1970 neither.
    assert_eq!(init_early(registers(0, 29, 12, 34, 56, 7), 124, 0), None);
    assert_eq!(init_early(registers(2, 30, 12, 34, 56, 7), 124, 0), None);
    assert_eq!(init_early(value, 0, 0), None);
    assert_eq!(init_early(registers(1, 1, 0, 0, 0, 0), 70, 0), Some(0));
}

#[test]
fn shared_pages_are_mapped_one_after_the_other() {
    let frames = vec![0x8000_0000usize, 0x8000_5000, 0x8000_2000];
    let backend = Backend::new_shared(3, frames.clone());
    let Backend::Shared { pages } = backend;
    assert_eq!(pages, frames);
    let start = 0x1000_0000usize;
    assert_eq!(
        Backend::map_shared(start, &pages, 0, true),
        MapStep::MapPage { addr: start, frame: 0x8000_0000 }
    );
    assert_eq!(
        Backend::map_shared(start, &pages, 1, true),
        MapStep::MapPage { addr: start + PAGE_SIZE_4K, frame: 0x8000_5000 }
    );
    assert_eq!(
        Backend::map_shared(start, &pages, 2, true),
        MapStep::MapPage { addr: start + 0x2000, frame: 0x8000_2000 }
    );
    assert_eq!(Backend::map_shared(start, &pages, 3, true), MapStep::Finished(true));
    assert_eq!(Backend::map_shared(start, &pages, 1, false), MapStep::Finished(false));
    assert_eq!(Backend::map_shared(start, &pages, 3, false), MapStep::Finished(false));
    assert_eq!(Backend::map_shared(start, &Vec::new(), 0, true), MapStep::Finished(true));
    assert_eq!(PAGE_SIZE_4K, 4096);
}

#[test]
fn unmapping_shared_pages() {
    let page = Unmapped { frame: 0x8000_0000, huge: false };
    let huge = Unmapped { frame: 0x8000_0000, huge: true };
    assert_eq!(Backend::unmap_shared(true, None), UnmapStep::Skip);
    assert_eq!(Backend::unmap_shared(false, None), UnmapStep::Skip);
    assert_eq!(
        Backend::unmap_shared(true, Some(page)),
        UnmapStep::Flush { dealloc: Some(0x8000_0000) }
    );
    assert_eq!(
        Backend::unmap_shared(false, Some(page)),
        UnmapStep::Flush { dealloc: None }
    );
    assert_eq!(Backend::unmap_shared(true, Some(huge)), UnmapStep::Abort);
    assert_eq!(Backend::unmap_shared(false, Some(huge)), UnmapStep::Abort);
}

#[test]
fn addresses_to_unmap_follow_the_pages() {
    let start: usize = 0x4000_0000;
    assert_eq!(Backend::unmap_next(start, 3, 0), Some(start));
    assert_eq!(Backend::unmap_next(start, 3, 1), Some(start + PAGE_SIZE_4K));
    assert_eq!(Backend::unmap_next(start, 3, 2), Some(0x4000_2000));
    assert_eq!(Backend::unmap_next(start, 3, 3), None);
    assert_eq!(Backend::unmap_next(start, 3, 4), None);
    assert_eq!(Backend::unmap_next(start, 0, 0), None);
    assert_eq!(Backend::unmap_next(0, 1, 0), Some(0));
    // The last page may end at the top of the address space.
    let top = usize::MAX - 0xfff;
    assert_eq!(Backend::unmap_next(top - PAGE_SIZE_4K, 1, 0), Some(top - PAGE_SIZE_4K));
}
