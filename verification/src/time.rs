//! Timer arithmetic: hardware ticks and nanoseconds, the value that arms
//! the one-shot timer, and the wall-clock offset read from the real-time
//! clock.

use crate::fat::util::{chrono_since_epoch, utc_since_epoch};
use vstd::prelude::*;

verus! {

/// The nanoseconds in a second.
pub const NANOS_PER_SEC: u64 = 1_000_000_000;

/// Converts hardware ticks to nanoseconds, at `nanos_per_tick` nanoseconds
/// per tick.
pub fn ticks_to_nanos(ticks: u64, nanos_per_tick: u64) -> (nanos: u64)
    requires
        ticks * nanos_per_tick <= u64::MAX,
    ensures
        nanos == ticks * nanos_per_tick,
{
    ticks * nanos_per_tick
}

/// Converts nanoseconds to hardware ticks, at `nanos_per_tick` nanoseconds
/// per tick, rounding down.
pub fn nanos_to_ticks(nanos: u64, nanos_per_tick: u64) -> (ticks: u64)
    requires
        nanos_per_tick > 0,
    ensures
        ticks == nanos / nanos_per_tick,
{
    nanos / nanos_per_tick
}

/// Returns the nanoseconds per tick of a timer that runs at `frequency`
/// ticks per second, rounded down.
pub fn init_primary(frequency: u64) -> (nanos_per_tick: u64)
    requires
        frequency > 0,
    ensures
        nanos_per_tick == NANOS_PER_SEC / frequency,
{
    NANOS_PER_SEC / frequency
}

/// Returns the count to which the one-shot timer is set so that it fires
/// at `deadline_ns`: the ticks from now to the deadline. The deadline
/// must not lie in the past.
pub fn set_oneshot_timer(deadline_ns: u64, ticks_now: u64, nanos_per_tick: u64) -> (init_value: u64)
    requires
        nanos_per_tick > 0,
        deadline_ns / nanos_per_tick >= ticks_now,
    ensures
        init_value == deadline_ns / nanos_per_tick - ticks_now,
{
    let ticks_deadline = nanos_to_ticks(deadline_ns, nanos_per_tick);
    ticks_deadline - ticks_now
}

/// The bits of `value` from `start` up to, and without, `end`.
pub open spec fn spec_extract_bits(value: u32, start: u32, end: u32) -> u32 {
    (value >> start) & (((1u32 << ((end - start) as u32)) - 1) as u32)
}

/// Returns the bits of `value` from `start` up to, and without, `end`.
pub fn extract_bits(value: u32, start: u32, end: u32) -> (bits: u32)
    requires
        start < end <= 32,
        end - start < 32,
    ensures
        bits == spec_extract_bits(value, start, end),
{
    let width: u32 = end - start;
    assert((1u32 << width) >= 1) by (bit_vector)
        requires
            width < 32,
    ;
    (value >> start) & ((1u32 << width) - 1)
}

/// A date and time of day as the real-time clock shows it.
#[derive(Clone, Copy, Debug, PartialEq, Eq, Structural)]
pub struct RtcTime {
    pub year: u32,
    pub month: u32,
    pub day: u32,
    pub hour: u32,
    pub min: u32,
    pub sec: u32,
    pub millis: u32,
}

/// The date and time in the two registers of the clock: the years since
/// 1900 in one, and in the other, from the top bit down, six bits of
/// month, five of day, five of hour, six of minute, six of second and
/// four of milliseconds.
pub open spec fn spec_rtc_time(value: u32, year: u32) -> RtcTime {
    RtcTime {
        year: (1900 + year) as u32,
        month: spec_extract_bits(value, 26, 32),
        day: spec_extract_bits(value, 21, 26),
        hour: spec_extract_bits(value, 16, 21),
        min: spec_extract_bits(value, 10, 16),
        sec: spec_extract_bits(value, 4, 10),
        millis: spec_extract_bits(value, 0, 4),
    }
}

/// Reads the date and time out of the two registers of the clock.
pub fn rtc_time(value: u32, year: u32) -> (time: RtcTime)
    requires
        year <= u32::MAX - 1900,
    ensures
        time == spec_rtc_time(value, year),
{
    RtcTime {
        year: 1900 + year,
        month: extract_bits(value, 26, 32),
        day: extract_bits(value, 21, 26),
        hour: extract_bits(value, 16, 21),
        min: extract_bits(value, 10, 16),
        sec: extract_bits(value, 4, 10),
        millis: extract_bits(value, 0, 4),
    }
}

/// The nanoseconds that a time since the epoch comes to, where they fit.
pub open spec fn spec_epoch_nanos(since: Option<(u64, u32)>) -> Option<u64> {
    match since {
        Some((secs, nanos)) => if secs * NANOS_PER_SEC + nanos <= u64::MAX {
            Some((secs * NANOS_PER_SEC + nanos) as u64)
        } else {
            None
        },
        None => None,
    }
}

/// Returns the nanoseconds that a time since the epoch comes to, where
/// they fit.
pub fn epoch_nanos(since: Option<(u64, u32)>) -> (nanos: Option<u64>)
    ensures
        nanos == spec_epoch_nanos(since),
{
    match since {
        Some((secs, nanos)) => {
            if secs > u64::MAX / NANOS_PER_SEC {
                assert(secs * NANOS_PER_SEC > u64::MAX) by (nonlinear_arith)
                    requires
                        secs > u64::MAX / NANOS_PER_SEC,
                        NANOS_PER_SEC == 1_000_000_000,
                ;
                return None;
            }
            assert(secs * NANOS_PER_SEC <= u64::MAX) by (nonlinear_arith)
                requires
                    secs <= u64::MAX / NANOS_PER_SEC,
                    NANOS_PER_SEC == 1_000_000_000,
            ;
            let whole: u64 = secs * NANOS_PER_SEC;
            if whole > u64::MAX - nanos as u64 {
                None
            } else {
                Some(whole + nanos as u64)
            }
        },
        None => None,
    }
}

/// The wall-clock time, in nanoseconds since the epoch, at which the
/// monotonic clock stood at zero, where the clock's date exists and does
/// not lie before that moment.
pub open spec fn spec_epochoffset_nanos(time: RtcTime, now_nanos: u64) -> Option<u64> {
    match spec_epoch_nanos(
        utc_since_epoch(
            time.year as int,
            time.month as int,
            time.day as int,
            time.hour as int,
            time.min as int,
            time.sec as int,
            time.millis as int,
        ),
    ) {
        Some(wall) => if wall >= now_nanos {
            Some((wall - now_nanos) as u64)
        } else {
            None
        },
        None => None,
    }
}

/// Works out the offset of the wall clock from the monotonic clock: the
/// time that the real-time clock shows, less the `now_nanos` for which
/// the monotonic clock has run.
pub fn init_early(value: u32, year: u32, now_nanos: u64) -> (offset: Option<u64>)
    requires
        year <= i32::MAX - 1900,
    ensures
        offset == spec_epochoffset_nanos(spec_rtc_time(value, year), now_nanos),
{
    let time = rtc_time(value, year);
    let since = chrono_since_epoch(
        time.year as i32,
        time.month,
        time.day,
        time.hour,
        time.min,
        time.sec,
        time.millis,
    );
    match epoch_nanos(since) {
        Some(wall) => if wall >= now_nanos {
            Some(wall - now_nanos)
        } else {
            None
        },
        None => None,
    }
}

} // verus!
