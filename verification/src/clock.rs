//! The local machine's clocks, as contexts record them: the realtime clock
//! with its calendar form in the local time zone, and the monotonic clock.

use vstd::prelude::*;

verus! {

/// `std::time::Instant`, a moment on the monotonic clock. It is carried
/// along, and not looked into.
#[verifier::external_type_specification]
#[verifier::external_body]
pub struct ExInstant(std::time::Instant);

/// The last second that is given a calendar form: the end of the year 9999
/// in UTC.
pub const MAX_CALENDAR_SEC: i64 = 253_402_300_799;

/// Whether a count of seconds since 1970-01-01T00:00:00Z is given a calendar
/// form.
pub open spec fn has_calendar_form(sec: int) -> bool {
    0 <= sec <= MAX_CALENDAR_SEC
}

/// Reads the realtime clock with `time::get_time`.
///
/// Trusted: the nanoseconds are within one second, which `time` checks before
/// it returns. Nothing is claimed of the seconds.
#[verifier::external_body]
pub(crate) fn realtime_now() -> (r: (i64, i32))
    ensures
        0 <= r.1 < 1_000_000_000,
{
    let now = time::get_time();
    (now.sec, now.nsec)
}

/// Reads the monotonic clock with `std::time::Instant::now`.
///
/// Trusted: it returns. Nothing is claimed of the moment.
#[verifier::external_body]
pub(crate) fn monotonic_now() -> std::time::Instant {
    std::time::Instant::now()
}

/// What the calendar makes of a moment in the machine's time zone.
#[derive(Debug)]
pub struct LocalTime {
    /// Date and time, as in `2021-03-07T16:20:00`, unless the calendar
    /// refuses to print them.
    pub date_time: Option<String>,
    /// The zone's distance from UTC at that moment, in seconds to the east.
    pub utc_offset: i32,
}

/// The format in which date and time are printed: `%FT%T`, as in
/// `2021-03-07T16:20:00`.
pub open spec fn spec_date_time_format() -> Seq<char> {
    "%FT%T"@
}

/// Breaks a moment down in the machine's time zone with `time::at`, prints
/// it with `time::Tm::strftime` in the given format, and reads the zone's
/// distance from UTC from `tm_utcoff`.
///
/// Trusted: within the years 1970 to 9999 the conversion succeeds, and date
/// and time are printed. `strftime` refuses nothing but a month or a day of
/// the week out of its range, and `time` documents both fields of a `Tm` as
/// within it; the format is one that it takes. Which zone applies is the
/// machine's affair, so nothing is claimed of the text or of the distance
/// from UTC.
#[verifier::external_body]
pub(crate) fn local_time(sec: i64, nsec: i32, format: &str) -> (r: LocalTime)
    requires
        has_calendar_form(sec as int),
        format@ == spec_date_time_format(),
    ensures
        r.date_time is Some,
{
    let tm = time::at(time::Timespec { sec, nsec });
    LocalTime {
        date_time: tm.strftime(format).ok().map(|text| text.to_string()),
        utc_offset: tm.tm_utcoff,
    }
}

/// What a [`WallTime`] stands for: seconds and nanoseconds since
/// 1970-01-01T00:00:00Z.
pub struct WallTimeModel {
    pub sec: int,
    pub nsec: int,
}

/// A wall time taken from the local machine's realtime clock, used in error
/// reporting.
///
/// Currently this just allows printing.
#[derive(Copy, Clone, Debug)]
pub struct WallTime {
    sec: i64,
    nsec: i32,
}

impl View for WallTime {
    type V = WallTimeModel;

    closed spec fn view(&self) -> WallTimeModel {
        WallTimeModel { sec: self.sec as int, nsec: self.nsec as int }
    }
}

impl WallTime {
    /// The wall time that is `sec` seconds and `nsec` nanoseconds after
    /// 1970-01-01T00:00:00Z.
    pub fn from_parts(sec: i64, nsec: i32) -> (r: WallTime)
        ensures
            r@ == (WallTimeModel { sec: sec as int, nsec: nsec as int }),
    {
        WallTime { sec, nsec }
    }

    /// The current wall time. Whatever the clock says is taken as it is.
    pub fn now() -> (r: WallTime)
        ensures
            0 <= r@.nsec < 1_000_000_000,
    {
        let (sec, nsec) = realtime_now();
        WallTime { sec, nsec }
    }

    /// Seconds since 1970-01-01T00:00:00Z.
    pub fn sec(&self) -> (r: i64)
        ensures
            r == self@.sec,
    {
        self.sec
    }

    /// Nanoseconds after the second.
    pub fn nsec(&self) -> (r: i32)
        ensures
            r == self@.nsec,
    {
        self.nsec
    }

    /// Date and time in the machine's time zone, as in `2021-03-07T16:20:00`.
    ///
    /// There is a text exactly for a moment with a calendar form. What it
    /// reads, the zone decides.
    pub fn to_text(&self) -> (r: Option<String>)
        ensures
            r is Some <==> has_calendar_form(self@.sec),
    {
        if self.sec < 0 || self.sec > MAX_CALENDAR_SEC {
            return None;
        }
        local_time(self.sec, self.nsec, "%FT%T").date_time
    }
}

} // verus!
