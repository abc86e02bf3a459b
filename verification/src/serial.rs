//! Zone serials: dated, human readable, and never going back.
//!
//! A serial is written `YYYYMMDDnn`. When a zone changes on a new day its
//! serial becomes that day's `YYYYMMDD00`; when it changes again on the same
//! day the serial goes up by one.

use vstd::prelude::*;

verus! {

/// A day of the calendar.
#[derive(Debug, Clone, Copy, PartialEq, Eq, Structural)]
pub struct CalendarDate {
    pub year: i32,
    pub month: u8,
    pub day: u8,
}

impl CalendarDate {
    /// Whether month and day are in the range of the calendar.
    pub open spec fn in_range(self) -> bool {
        1 <= self.month <= 12 && 1 <= self.day <= 31
    }

    /// The first serial of the day: year, month and day as the decimal
    /// digits `YYYYMMDD`, then `00`.
    pub open spec fn serial(self) -> int {
        self.year * 1_000_000 + self.month * 10_000 + self.day * 100
    }
}

/// The serial that follows `last` when the zone has changed on `today`: the
/// first serial of the day, or one more than `last` if that is greater.
pub open spec fn bumped_serial(last: u32, today: CalendarDate) -> int {
    if today.serial() >= last + 1 {
        today.serial()
    } else {
        last + 1
    }
}

/// The serial of a zone after a reconcile: the last one where the hash has
/// not changed, else the bumped one, if 32 bits hold it.
pub open spec fn serial_after(hash_changed: bool, last: u32, today: CalendarDate) -> Option<u32> {
    if !hash_changed {
        Some(last)
    } else if bumped_serial(last, today) <= u32::MAX {
        Some(bumped_serial(last, today) as u32)
    } else {
        None
    }
}

/// Today's date in UTC.
///
/// Trusted: calls `OffsetDateTime::now_utc` of the `time` crate and reads
/// year, month and day off it. The month is one of the twelve, numbered from
/// 1, and the day is in `1..=31`, as the crate documents; nothing is said of
/// the year or of which day it is.
#[verifier::external_body]
fn utc_today() -> (today: CalendarDate)
    ensures
        today.in_range(),
{
    let now = time::OffsetDateTime::now_utc();
    CalendarDate { year: now.year(), month: u8::from(now.month()), day: now.day() }
}

/// Today's date in UTC, by the system's clock.
pub fn today() -> (today: CalendarDate)
    ensures
        today.in_range(),
{
    utc_today()
}

/// Computes the serial of a zone after a reconcile.
///
/// Where the hash has not changed the serial stays. Where it has, the serial
/// becomes the first serial of `today`, or `last_serial + 1` if that is
/// greater. Returns `None` where that number does not fit into 32 bits. The
/// serial never goes back.
pub fn next_serial(hash_changed: bool, last_serial: u32, today: CalendarDate) -> (r: Option<u32>)
    ensures
        r == serial_after(hash_changed, last_serial, today),
        r matches Some(serial) ==> serial >= last_serial,
        r matches Some(serial) ==> (serial == last_serial <==> !hash_changed),
{
    if !hash_changed {
        return Some(last_serial);
    }
    let year: i64 = today.year as i64;
    let month: i64 = today.month as i64;
    let day: i64 = today.day as i64;
    let dated: i64 = year * 1_000_000 + month * 10_000 + day * 100;
    let bumped: i64 = last_serial as i64 + 1;
    let serial: i64 = if dated >= bumped {
        dated
    } else {
        bumped
    };
    if serial <= u32::MAX as i64 {
        Some(serial as u32)
    } else {
        None
    }
}

} // verus!
