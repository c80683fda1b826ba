//! Stream timestamps: the extended RTP clock of one stream, and NTP wallclock
//! stamps as carried in sender reports.

use crate::clock::local_time;
use crate::text::{decimal_padded, push_decimal_padded};
use vstd::prelude::*;
use vstd::string::StringExecFns;

verus! {

/// What a [`Timestamp`] stands for: a position on a stream's clock, the rate of
/// that clock and the position at which the stream started.
pub struct TimestampModel {
    /// Ticks since an arbitrary point before the stream started.
    pub timestamp: int,
    /// Ticks per second.
    pub clock_rate: int,
    /// The tick at which the stream started.
    pub start: int,
}

impl TimestampModel {
    /// The clock runs, and the distance from the start fits in 64 signed bits.
    pub open spec fn valid(self) -> bool {
        &&& i64::MIN <= self.timestamp <= i64::MAX
        &&& 0 < self.clock_rate <= u32::MAX
        &&& 0 <= self.start <= u32::MAX
        &&& i64::MIN <= self.timestamp - self.start
    }

    /// Ticks since the start of the stream.
    pub open spec fn elapsed(self) -> int {
        self.timestamp - self.start
    }

    /// The low 32 bits of the position, as carried in an RTP header.
    pub open spec fn wire(self) -> int {
        self.timestamp % 0x1_0000_0000
    }
}

/// A monotonically increasing timestamp within an RTP stream.
///
/// It holds the full position, whose top bits accumulate as the 32-bit
/// timestamps of RTP headers wrap around, together with the clock rate and the
/// stream's starting position, so that it can be turned into "normal play
/// time": zero-based, in seconds.
#[derive(Copy, Clone, Debug, PartialEq, Eq, Structural)]
pub struct Timestamp {
    /// A timestamp which must be compared to `start`. Neither it nor
    /// `timestamp - start` may leave the range of `i64`.
    timestamp: i64,
    /// The codec-specified clock rate, in Hz. Never zero.
    clock_rate: u32,
    /// The stream's starting time, as given in the RTSP `RTP-Info` header.
    start: u32,
}

impl View for Timestamp {
    type V = TimestampModel;

    closed spec fn view(&self) -> TimestampModel {
        TimestampModel {
            timestamp: self.timestamp as int,
            clock_rate: self.clock_rate as int,
            start: self.start as int,
        }
    }
}

impl Timestamp {
    #[verifier::type_invariant]
    spec fn well_formed(self) -> bool {
        self@.valid()
    }

    /// What [`Timestamp::new`] makes of its arguments.
    pub open spec fn spec_new(timestamp: int, clock_rate: int, start: int) -> Option<
        TimestampModel,
    > {
        if clock_rate > 0 && timestamp - start >= i64::MIN {
            Some(TimestampModel { timestamp, clock_rate, start })
        } else {
            None
        }
    }

    /// What [`Timestamp::try_add`] makes of a timestamp and a number of ticks.
    pub open spec fn spec_try_add(m: TimestampModel, delta: int) -> Option<TimestampModel> {
        if m.timestamp + delta <= i64::MAX {
            Some(TimestampModel { timestamp: m.timestamp + delta, ..m })
        } else {
            None
        }
    }

    /// Creates a new timestamp unless the clock rate is zero or
    /// `timestamp - start` underflows.
    #[inline]
    pub fn new(timestamp: i64, clock_rate: u32, start: u32) -> (r: Option<Timestamp>)
        ensures
            match Timestamp::spec_new(timestamp as int, clock_rate as int, start as int) {
                Some(m) => r.is_some() && r.unwrap()@ == m && m.valid(),
                None => r.is_none(),
            },
    {
        if clock_rate == 0 {
            return None;
        }
        match timestamp.checked_sub(start as i64) {
            Some(_) => Some(Timestamp { timestamp, clock_rate, start }),
            None => None,
        }
    }

    /// Returns time since some arbitrary point before the stream started.
    #[inline]
    pub fn timestamp(&self) -> (r: i64)
        ensures
            r == self@.timestamp,
            self@.valid(),
    {
        proof {
            use_type_invariant(self);
        }
        self.timestamp
    }

    /// Returns timestamp of the start of the stream.
    #[inline]
    pub fn start(&self) -> (r: u32)
        ensures
            r == self@.start,
            self@.valid(),
    {
        proof {
            use_type_invariant(self);
        }
        self.start
    }

    /// Returns codec-specified clock rate, in Hz.
    #[inline]
    pub fn clock_rate(&self) -> (r: u32)
        ensures
            r == self@.clock_rate,
            r > 0,
            self@.valid(),
    {
        proof {
            use_type_invariant(self);
        }
        self.clock_rate
    }

    /// Returns elapsed time since the stream start in clock rate units.
    #[inline]
    pub fn elapsed(&self) -> (r: i64)
        ensures
            r == self@.elapsed(),
            self@.valid(),
    {
        proof {
            use_type_invariant(self);
        }
        self.timestamp - (self.start as i64)
    }

    /// Returns the bottom 32 bits of the timestamp, as seen in RTP packet
    /// headers.
    #[inline]
    pub fn wire(&self) -> (r: u32)
        ensures
            r == self@.wire(),
    {
        let low: i64 = self.timestamp & 0xFFFF_FFFF;
        assert(low == self.timestamp as int % 0x1_0000_0000 && 0 <= low <= 0xFFFF_FFFF) by {
            let t: i64 = self.timestamp;
            assert(t & 0xFFFF_FFFF == t as int % 0x1_0000_0000 && 0 <= t & 0xFFFF_FFFF
                <= 0xFFFF_FFFF) by (bit_vector);
        }
        low as u32
    }

    /// Returns `self + delta` unless it would overflow.
    pub fn try_add(&self, delta: u32) -> (r: Option<Timestamp>)
        ensures
            self@.valid(),
            match Timestamp::spec_try_add(self@, delta as int) {
                Some(m) => r.is_some() && r.unwrap()@ == m && m.valid(),
                None => r.is_none(),
            },
    {
        proof {
            use_type_invariant(self);
        }
        // Only `timestamp` can overflow: `timestamp - start` cannot underflow,
        // because `delta` is non-negative.
        match self.timestamp.checked_add(delta as i64) {
            Some(timestamp) => Some(
                Timestamp { timestamp, clock_rate: self.clock_rate, start: self.start },
            ),
            None => None,
        }
    }
}

/// A timestamp at or after the start of its stream, on a clock that runs, can
/// always be made, and the time elapsed on it is its distance from the start.
pub proof fn lemma_timestamp_from_start(timestamp: i64, clock_rate: u32, start: u32)
    requires
        clock_rate > 0,
        timestamp >= start,
    ensures
        Timestamp::spec_new(timestamp as int, clock_rate as int, start as int) matches Some(m)
            && m.valid() && m.elapsed() == timestamp - start && m.elapsed() >= 0,
{
}

/// Adding ticks to a timestamp moves the elapsed time by as many ticks and
/// leaves the clock rate and the start alone.
pub proof fn lemma_try_add_elapsed(m: TimestampModel, delta: u32)
    requires
        m.valid(),
    ensures
        Timestamp::spec_try_add(m, delta as int) is Some <==> m.timestamp + delta <= i64::MAX,
        Timestamp::spec_try_add(m, delta as int) matches Some(n) ==> n.valid() && n.elapsed()
            == m.elapsed() + delta && n.clock_rate == m.clock_rate && n.start == m.start,
{
}

/// The Unix epoch, 1970-01-01T00:00:00Z, in the bits of an NTP timestamp:
/// 2 208 988 800 seconds after 1900-01-01T00:00:00Z.
pub const UNIX_EPOCH_NTP: u64 = 2_208_988_800 * 0x1_0000_0000;

/// The Unix epoch, 1970-01-01T00:00:00Z, as an NTP timestamp.
pub fn unix_epoch() -> (r: NtpTimestamp)
    ensures
        r.0 == UNIX_EPOCH_NTP,
{
    NtpTimestamp(UNIX_EPOCH_NTP)
}

/// A wallclock time represented using the format of the Network Time Protocol:
/// seconds since 1900-01-01T00:00:00Z in the top 32 bits, the fraction of a
/// second in the bottom 32.
///
/// This isn't necessarily gathered from a real NTP server. Reported NTP
/// timestamps are allowed to jump backwards and/or be complete nonsense.
#[derive(Copy, Clone, Debug, PartialEq, PartialOrd, Eq, Ord)]
pub struct NtpTimestamp(pub u64);

impl NtpTimestamp {
    /// The distance from the Unix epoch, in the same fixed-point format and
    /// modulo 2^64.
    pub open spec fn spec_since_unix_epoch(self) -> int {
        (self.0 - UNIX_EPOCH_NTP) % 0x1_0000_0000_0000_0000
    }

    /// Whole seconds since the Unix epoch.
    pub open spec fn spec_unix_seconds(self) -> int {
        self.spec_since_unix_epoch() / 0x1_0000_0000
    }

    /// The fraction of the second, in whole milliseconds.
    pub open spec fn spec_subsec_millis(self) -> int {
        (self.spec_since_unix_epoch() % 0x1_0000_0000) * 1000 / 0x1_0000_0000
    }

    /// Returns the distance from the Unix epoch, modulo 2^64.
    pub fn since_unix_epoch(&self) -> (r: u64)
        ensures
            r == self.spec_since_unix_epoch(),
    {
        self.0.wrapping_sub(UNIX_EPOCH_NTP)
    }

    /// Returns whole seconds since the Unix epoch.
    pub fn unix_seconds(&self) -> (r: u32)
        ensures
            r == self.spec_unix_seconds(),
    {
        let since: u64 = self.since_unix_epoch();
        let sec: u64 = since >> 32;
        assert(sec == since as int / 0x1_0000_0000 && sec <= 0xFFFF_FFFF) by {
            assert(since >> 32 == since / 0x1_0000_0000 && since >> 32 <= 0xFFFF_FFFF)
                by (bit_vector);
        }
        sec as u32
    }

    /// Returns the fraction of the second, in whole milliseconds.
    pub fn subsec_millis(&self) -> (r: u32)
        ensures
            r == self.spec_subsec_millis(),
            r < 1000,
    {
        let since: u64 = self.since_unix_epoch();
        let fraction: u64 = since & 0xFFFF_FFFF;
        assert(fraction == since as int % 0x1_0000_0000 && fraction <= 0xFFFF_FFFF) by {
            assert(since & 0xFFFF_FFFF == since % 0x1_0000_0000 && since & 0xFFFF_FFFF
                <= 0xFFFF_FFFF) by (bit_vector);
        }
        let scaled: u64 = fraction * 1_000;
        let ms: u64 = scaled >> 32;
        assert(ms == scaled as int / 0x1_0000_0000) by {
            assert(scaled >> 32 == scaled / 0x1_0000_0000) by (bit_vector);
        }
        ms as u32
    }

    /// The time in the machine's time zone, to the millisecond and with the
    /// zone's distance from UTC, as in `2021-03-07T16:20:00.250+01:00`.
    ///
    /// There is always a text. What the zone is, the machine decides: the
    /// text is the printed form of some date and some distance from UTC, and
    /// of this timestamp's milliseconds.
    pub fn to_text(&self) -> (r: Option<String>)
        ensures
            r is Some,
            exists|date_time: Seq<char>, offset: i32|
                r->Some_0@ == #[trigger] spec_ntp_text(
                    date_time,
                    self.spec_subsec_millis(),
                    offset as int,
                ),
    {
        let sec: u32 = self.unix_seconds();
        let local = local_time(sec as i64, 0, "%FT%T");
        let r = ntp_text_of(&local.date_time, self.subsec_millis(), local.utc_offset);
        assert(r->Some_0@ == spec_ntp_text(
            local.date_time->Some_0@,
            self.spec_subsec_millis(),
            local.utc_offset as int,
        ));
        r
    }
}

/// The sign that is printed before a distance from UTC: a plus only for
/// zones east of UTC.
pub open spec fn spec_zone_sign(utc_offset: int) -> char {
    if utc_offset > 0 {
        '+'
    } else {
        '-'
    }
}

/// Whole minutes in a distance from UTC that is given in seconds.
pub open spec fn spec_zone_minutes(utc_offset: int) -> int {
    if utc_offset < 0 {
        (-utc_offset) / 60
    } else {
        utc_offset / 60
    }
}

/// The printed form of a moment: date and time, a dot, three digits of
/// milliseconds, the sign of the zone and its hours and minutes.
pub open spec fn spec_ntp_text(date_time: Seq<char>, millis: int, utc_offset: int) -> Seq<char> {
    date_time + seq!['.'] + decimal_padded(millis as nat, 3) + seq![spec_zone_sign(utc_offset)]
        + decimal_padded((spec_zone_minutes(utc_offset) / 60) as nat, 2) + seq![':']
        + decimal_padded((spec_zone_minutes(utc_offset) % 60) as nat, 2)
}

/// The characters of a text that may not be there.
pub open spec fn spec_view(text: Option<String>) -> Option<Seq<char>> {
    match text {
        Some(t) => Some(t@),
        None => None,
    }
}

/// The printed form of a moment, where the calendar may have refused to
/// print its date and time: there is none then.
pub open spec fn spec_ntp_text_of(date_time: Option<Seq<char>>, millis: int, utc_offset: int) -> Option<
    Seq<char>,
> {
    match date_time {
        Some(d) => Some(spec_ntp_text(d, millis, utc_offset)),
        None => None,
    }
}

/// Puts together the printed form of a moment from what the calendar has
/// made of it: its date and time in some zone, if the calendar has printed
/// them, and the zone's distance from UTC in seconds.
pub fn ntp_text_of(date_time: &Option<String>, millis: u32, utc_offset: i32) -> (r: Option<String>)
    ensures
        spec_view(r) == spec_ntp_text_of(spec_view(*date_time), millis as int, utc_offset as int),
{
    match date_time {
        Some(d) => Some(ntp_text(d.as_str(), millis, utc_offset)),
        None => None,
    }
}

/// Puts together the printed form of a moment from its date and time in
/// some zone, its milliseconds and the zone's distance from UTC in seconds.
pub fn ntp_text(date_time: &str, millis: u32, utc_offset: i32) -> (r: String)
    ensures
        r@ == spec_ntp_text(date_time@, millis as int, utc_offset as int),
{
    let magnitude: i64 = if utc_offset < 0 {
        -(utc_offset as i64)
    } else {
        utc_offset as i64
    };
    let zone_minutes: i64 = magnitude / 60;
    let mut out = String::from_str(date_time);
    proof {
        reveal_strlit(".");
        reveal_strlit("+");
        reveal_strlit("-");
        reveal_strlit(":");
    }
    out.append(".");
    push_decimal_padded(&mut out, millis as u64, 3);
    if utc_offset > 0 {
        out.append("+");
    } else {
        out.append("-");
    }
    push_decimal_padded(&mut out, (zone_minutes / 60) as u64, 2);
    out.append(":");
    push_decimal_padded(&mut out, (zone_minutes % 60) as u64, 2);
    assert(out@ =~= spec_ntp_text(date_time@, millis as int, utc_offset as int));
    out
}

} // verus!
