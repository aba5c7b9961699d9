//! Points in time as milliseconds and seconds since the Unix epoch.

use vstd::prelude::*;

verus! {

/// A span of time after the Unix epoch: whole seconds and the nanoseconds
/// beyond them.
#[derive(Debug, Clone, Copy, PartialEq, Eq, Structural)]
pub struct SinceEpoch {
    pub secs: u64,
    pub nanos: u32,
}

impl SinceEpoch {
    /// Whether the nanoseconds stay below one second.
    pub open spec fn valid(self) -> bool {
        self.nanos < 1_000_000_000
    }

    /// The whole milliseconds.
    pub open spec fn millis(self) -> int {
        self.secs * 1000 + self.nanos as int / 1_000_000
    }
}

/// The milliseconds of a point in time, in the low 64 bits. A time before the
/// epoch counts as the epoch.
pub fn system_time_to_unix_ms(time: Option<SinceEpoch>) -> (r: u64)
    requires
        time matches Some(t) ==> t.valid(),
    ensures
        r as int == (match time {
            Some(t) => t.millis() % 0x1_0000_0000_0000_0000,
            None => 0,
        }),
{
    match time {
        Some(t) => {
            let millis: u128 = t.secs as u128 * 1000 + (t.nanos / 1_000_000) as u128;
            (millis % 0x1_0000_0000_0000_0000) as u64
        },
        None => 0,
    }
}

/// The point in time of a number of milliseconds.
pub fn unix_ms_to_system_time(timestamp_ms: u64) -> (r: SinceEpoch)
    ensures
        r.valid(),
        r.secs == timestamp_ms / 1000,
        r.nanos == (timestamp_ms % 1000) * 1_000_000,
{
    SinceEpoch { secs: timestamp_ms / 1000, nanos: (timestamp_ms % 1000) as u32 * 1_000_000 }
}

/// Milliseconds survive the way to a point in time and back.
pub proof fn unix_ms_round_trip(timestamp_ms: u64, time: SinceEpoch)
    requires
        time.secs == timestamp_ms / 1000,
        time.nanos == (timestamp_ms % 1000) * 1_000_000,
    ensures
        time.valid(),
        time.millis() == timestamp_ms,
{
}

/// The seconds of a point in time, as a signed number. A time before the epoch
/// counts as the epoch.
pub fn current_unix_secs(now: Option<SinceEpoch>) -> (r: i64)
    ensures
        match now {
            Some(t) => r as int == (if t.secs <= i64::MAX {
                t.secs as int
            } else {
                t.secs - 0x1_0000_0000_0000_0000
            }),
            None => r == 0,
        },
{
    match now {
        Some(t) => if t.secs <= i64::MAX as u64 {
            t.secs as i64
        } else {
            let below: u64 = u64::MAX - t.secs;
            -(below as i64) - 1
        },
        None => 0,
    }
}

/// The milliseconds of a point in time are those that have passed whole: they do
/// not exceed it, and one more would.
pub proof fn milliseconds_are_the_whole_ones(time: SinceEpoch)
    requires
        time.valid(),
    ensures
        time.millis() * 1_000_000 <= time.secs * 1_000_000_000 + time.nanos,
        time.secs * 1_000_000_000 + time.nanos < (time.millis() + 1) * 1_000_000,
{
}

} // verus!
