//! Timestamped outcome records.

use std::time::Duration;
use std::time::SystemTime;
use std::time::SystemTimeError;
use vstd::prelude::*;

verus! {

/// Milliseconds in a second.
pub const MILLIS_PER_SEC: u64 = 1000;

/// Nanoseconds in a millisecond.
pub const NANOS_PER_MILLI: u32 = 1_000_000;

/// `std::time::SystemTime`: a reading of the wall clock, of which nothing is
/// known here.
#[verifier::external_type_specification]
#[verifier::external_body]
pub struct ExSystemTime(SystemTime);

/// `std::time::SystemTimeError`: the error of a clock that stands before the
/// time it is measured from.
#[verifier::external_type_specification]
#[verifier::external_body]
pub struct ExSystemTimeError(SystemTimeError);

/// `SystemTime::now` reads the wall clock. Nothing is claimed of the reading.
pub assume_specification[ SystemTime::now ]() -> (now: SystemTime);

/// `SystemTime::duration_since`, measured from `UNIX_EPOCH`: the time elapsed
/// since the epoch, or an error where `now` lies before it. Nothing is claimed
/// of which.
#[verifier::external_body]
fn since_unix_epoch(now: &SystemTime) -> (elapsed: Result<Duration, SystemTimeError>) {
    now.duration_since(std::time::UNIX_EPOCH)
}

/// `Duration::as_secs` gives the whole seconds of a duration.
pub assume_specification[ Duration::as_secs ](d: &Duration) -> (secs: u64);

/// `Duration::subsec_nanos` gives the part of a duration below one second, in
/// nanoseconds.
pub assume_specification[ Duration::subsec_nanos ](d: &Duration) -> (nanos: u32);

/// Milliseconds that `secs` whole seconds and `subsec_nanos` further
/// nanoseconds amount to, as a mathematical integer.
pub open spec fn millis_of(secs: u64, subsec_nanos: u32) -> int {
    secs * 1000 + subsec_nanos / 1_000_000
}

/// The timestamp that stands for a reading of the clock. The reading is the
/// time elapsed since the Unix epoch, in whole seconds and further
/// nanoseconds, or `None` where the clock is set before the epoch. Such a
/// clock reads as `0`, and one too far ahead to count reads as `u64::MAX`.
pub open spec fn stamp_of(reading: Option<(u64, u32)>) -> u64 {
    match reading {
        None => 0,
        Some((secs, subsec_nanos)) => if millis_of(secs, subsec_nanos) <= u64::MAX {
            millis_of(secs, subsec_nanos) as u64
        } else {
            u64::MAX
        },
    }
}

/// Converts a split duration to whole milliseconds, stopping at `u64::MAX`
/// where the exact count does not fit.
pub fn to_millis(secs: u64, subsec_nanos: u32) -> (ms: u64)
    ensures
        ms == stamp_of(Some((secs, subsec_nanos))),
{
    let part: u32 = subsec_nanos / NANOS_PER_MILLI;
    match secs.checked_mul(MILLIS_PER_SEC) {
        Some(whole) => whole.saturating_add(part as u64),
        None => u64::MAX,
    }
}

/// The timestamp that stands for `reading`.
pub fn to_timestamp(reading: Option<(u64, u32)>) -> (ms: u64)
    ensures
        ms == stamp_of(reading),
{
    match reading {
        Some((secs, subsec_nanos)) => to_millis(secs, subsec_nanos),
        None => 0,
    }
}

/// The wall clock in milliseconds since the Unix epoch, as [`stamp_of`] reads
/// it.
pub fn now_millis() -> u64 {
    let now = SystemTime::now();
    let reading = match since_unix_epoch(&now) {
        Ok(elapsed) => Some((elapsed.as_secs(), elapsed.subsec_nanos())),
        Err(_) => None,
    };
    to_timestamp(reading)
}

/// What an [`Event`] is, as plain mathematical values.
pub struct EventView {
    /// Milliseconds since the Unix epoch.
    pub timestamp: u64,
    /// The text of the record.
    pub data: Seq<char>,
}

/// An outcome record: a text stamped with the time at which it was made.
/// Neither part changes once the event exists.
#[derive(Debug)]
pub struct Event {
    timestamp: u64,
    data: String,
}

impl View for Event {
    type V = EventView;

    closed spec fn view(&self) -> EventView {
        EventView { timestamp: self.timestamp, data: self.data@ }
    }
}

impl DeepView for Event {
    type V = EventView;

    open spec fn deep_view(&self) -> EventView {
        self@
    }
}

impl Clone for Event {
    fn clone(&self) -> (copy: Self)
        ensures
            copy == *self,
    {
        Event { timestamp: self.timestamp, data: self.data.clone() }
    }
}

impl Event {
    /// An event that carries `data`, stamped with the wall clock's reading at
    /// the moment of the call.
    pub fn new(data: String) -> (event: Event)
        ensures
            event@.data == data@,
    {
        Event { timestamp: now_millis(), data }
    }

    /// An event that carries `data`, stamped `timestamp`.
    pub fn with_timestamp(timestamp: u64, data: String) -> (event: Event)
        ensures
            event@ == (EventView { timestamp, data: data@ }),
    {
        Event { timestamp, data }
    }

    /// The time of the event, in milliseconds since the Unix epoch.
    pub fn timestamp(&self) -> (timestamp: u64)
        ensures
            timestamp == self@.timestamp,
    {
        self.timestamp
    }

    /// The text of the event.
    pub fn data(&self) -> (data: &str)
        ensures
            data@ == self@.data,
    {
        self.data.as_str()
    }
}

} // verus!
