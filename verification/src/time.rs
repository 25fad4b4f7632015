//! Release-time classification and formatting.
//!
//! A release instant is held as seconds since the Unix epoch (UTC).  Parsing
//! an RFC 3339 airstamp and decomposing an instant into the machine's local
//! calendar are the only steps done by the `chrono` crate, each behind one
//! trusted wrapper; everything computed from the plain values — whether an
//! instant lies in the future, the coarsest non-zero remaining unit, and the
//! rendered date text — is verified here.

use vstd::prelude::*;

use crate::text::{spec_dec_digits, spec_two_digits, u64_to_string, u64_to_two_digit_string};

use chrono::Datelike;
use chrono::Timelike;

verus! {

/// A malformed RFC 3339 airstamp.  Malformed input is reported through this
/// value, never by aborting.
#[derive(Clone, Copy, Debug, PartialEq, Eq, Structural)]
pub struct TimestampParseError;

/// What `chrono` finds in an RFC 3339 string: `Some(t)` with the instant `t`
/// in Unix seconds when the string is a valid RFC 3339 date-and-time, `None`
/// otherwise.  The outcome depends on the characters alone.
pub uninterp spec fn rfc3339_epoch(s: Seq<char>) -> Option<int>;

/// Relies on chrono's `DateTime::parse_from_rfc3339` and `timestamp`: the
/// parse accepts exactly the RFC 3339 grammar (four-digit year, offset
/// within -23:59..=+23:59), so a parsed instant lies between the years 0000
/// and 9999, offset included.
#[verifier::external_body]
pub(crate) fn parse_rfc3339_epoch(s: &str) -> (r: Result<i64, TimestampParseError>)
    ensures
        r matches Ok(t) ==> rfc3339_epoch(s@) == Some(t as int) && -62_167_305_600 <= t
            <= 253_402_387_200,
        r is Err <==> rfc3339_epoch(s@) is None,
{
    match chrono::DateTime::parse_from_rfc3339(s) {
        Ok(dt) => Ok(dt.timestamp()),
        Err(_) => Err(TimestampParseError),
    }
}

/// One instant of the machine's local calendar, as plain values.
/// `weekday` counts days from Monday, so Monday is 0 and Sunday is 6;
/// `hour` uses the 24-hour clock.
pub struct LocalDateTime {
    pub year: i32,
    pub month: u8,
    pub day: u8,
    pub weekday: u8,
    pub hour: u8,
    pub minute: u8,
}

impl LocalDateTime {
    /// The documented ranges of a calendar date and a wall-clock time.
    pub open spec fn wf(&self) -> bool {
        &&& 1 <= self.month <= 12
        &&& 1 <= self.day <= 31
        &&& self.weekday < 7
        &&& self.hour < 24
        &&& self.minute < 60
    }
}

/// Instants this library formats stay well inside chrono's calendar, whose
/// years span about -262144..=262142 (Unix seconds of magnitude up to about
/// 8.2e12).  Every RFC 3339 airstamp lies far inside this range.
pub open spec fn epoch_in_range(t: int) -> bool {
    -8_000_000_000_000 <= t <= 8_000_000_000_000
}

/// Relies on chrono: `DateTime::from_timestamp`, `with_timezone(&Local)` and
/// the `Datelike`/`Timelike` accessors.  Which calendar fields an instant
/// maps to depends on the machine's time zone, so only the documented field
/// ranges are assumed of the result.
#[verifier::external_body]
pub(crate) fn local_date_time(epoch: i64) -> (r: LocalDateTime)
    requires
        epoch_in_range(epoch as int),
    ensures
        r.wf(),
{
    let local = chrono::DateTime::<chrono::Utc>::from_timestamp(epoch, 0)
        .unwrap()
        .with_timezone(&chrono::Local);
    LocalDateTime {
        year: local.year(),
        month: local.month() as u8,
        day: local.day() as u8,
        weekday: local.weekday().num_days_from_monday() as u8,
        hour: local.hour() as u8,
        minute: local.minute() as u8,
    }
}

pub open spec fn spec_weeks_suffix() -> Seq<char> {
    seq![' ', 'w', 'e', 'e', 'k', 's']
}

pub open spec fn spec_days_suffix() -> Seq<char> {
    seq![' ', 'd', 'a', 'y', 's']
}

pub open spec fn spec_hours_suffix() -> Seq<char> {
    seq![' ', 'h', 'o', 'u', 'r', 's']
}

pub open spec fn spec_minutes_suffix() -> Seq<char> {
    seq![' ', 'm', 'i', 'n', 'u', 't', 'e', 's']
}

pub open spec fn spec_now_text() -> Seq<char> {
    seq!['N', 'o', 'w']
}

/// The remaining-time text for a release instant, relative to `now`:
/// nothing unless the release lies strictly in the future (an instant equal
/// to `now` does not count as future), else the coarsest non-zero unit
/// among weeks, days, hours and minutes, in that fixed order, else `"Now"`.
pub open spec fn spec_remaining_text(release: int, now: int) -> Option<Seq<char>> {
    if release <= now {
        None
    } else {
        let delta = release - now;
        if delta / 604800 != 0 {
            Some(spec_dec_digits((delta / 604800) as nat) + spec_weeks_suffix())
        } else if delta / 86400 != 0 {
            Some(spec_dec_digits((delta / 86400) as nat) + spec_days_suffix())
        } else if delta / 3600 != 0 {
            Some(spec_dec_digits((delta / 3600) as nat) + spec_hours_suffix())
        } else if delta / 60 != 0 {
            Some(spec_dec_digits((delta / 60) as nat) + spec_minutes_suffix())
        } else {
            Some(spec_now_text())
        }
    }
}

fn unit_count_text(count: u64, suffix: &str) -> (r: String)
    ensures
        r@ == spec_dec_digits(count as nat) + suffix@,
{
    let mut s = u64_to_string(count);
    s.append(suffix);
    s
}

/// The one remaining-time routine: both the release-time value and the
/// per-episode query delegate here, so the classification exists once.
pub fn remaining_time_text(release_epoch: i64, now: i64) -> (r: Option<String>)
    requires
        epoch_in_range(release_epoch as int),
        epoch_in_range(now as int),
    ensures
        r is Some <==> spec_remaining_text(release_epoch as int, now as int) is Some,
        r matches Some(s) ==> Some(s@) == spec_remaining_text(release_epoch as int, now as int),
{
    if release_epoch <= now {
        return None;
    }
    let delta = release_epoch - now;
    let weeks = delta / 604800;
    let days = delta / 86400;
    let hours = delta / 3600;
    let minutes = delta / 60;
    proof {
        reveal_strlit(" weeks");
        reveal_strlit(" days");
        reveal_strlit(" hours");
        reveal_strlit(" minutes");
        reveal_strlit("Now");
        assert(" weeks"@ =~= spec_weeks_suffix());
        assert(" days"@ =~= spec_days_suffix());
        assert(" hours"@ =~= spec_hours_suffix());
        assert(" minutes"@ =~= spec_minutes_suffix());
        assert("Now"@ =~= spec_now_text());
    }
    if weeks != 0 {
        Some(unit_count_text(weeks as u64, " weeks"))
    } else if days != 0 {
        Some(unit_count_text(days as u64, " days"))
    } else if hours != 0 {
        Some(unit_count_text(hours as u64, " hours"))
    } else if minutes != 0 {
        Some(unit_count_text(minutes as u64, " minutes"))
    } else {
        let mut s = String::new();
        s.append("Now");
        proof {
            assert(s@ =~= spec_now_text());
        }
        Some(s)
    }
}

/// A year rendered as the date text shows it: four zero-padded digits for
/// the common era years 0..=9999, plain digits above, and a leading minus
/// for years before year zero.
pub open spec fn spec_year_digits(y: int) -> Seq<char> {
    if 0 <= y < 10 {
        seq!['0', '0', '0'] + spec_dec_digits(y as nat)
    } else if 0 <= y < 100 {
        seq!['0', '0'] + spec_dec_digits(y as nat)
    } else if 0 <= y < 1000 {
        seq!['0'] + spec_dec_digits(y as nat)
    } else if y >= 0 {
        spec_dec_digits(y as nat)
    } else {
        seq!['-'] + spec_dec_digits((-y) as nat)
    }
}

fn year_text(year: i32) -> (r: String)
    ensures
        r@ == spec_year_digits(year as int),
{
    proof {
        reveal_strlit("0");
        reveal_strlit("00");
        reveal_strlit("000");
        reveal_strlit("-");
    }
    if year >= 0 {
        let mut s = String::new();
        if year < 10 {
            s.append("000");
        } else if year < 100 {
            s.append("00");
        } else if year < 1000 {
            s.append("0");
        }
        let digits = u64_to_string(year as u64);
        s.append(digits.as_str());
        proof {
            assert("000"@ =~= seq!['0', '0', '0']);
            assert("00"@ =~= seq!['0', '0']);
            assert("0"@ =~= seq!['0']);
            assert(s@ =~= spec_year_digits(year as int));
        }
        s
    } else {
        let mut s = String::new();
        s.append("-");
        let magnitude: u64 = (-(year as i64)) as u64;
        let digits = u64_to_string(magnitude);
        s.append(digits.as_str());
        proof {
            assert("-"@ =~= seq!['-']);
            assert(s@ =~= spec_year_digits(year as int));
        }
        s
    }
}

pub open spec fn spec_weekday_name(w: nat) -> Seq<char> {
    if w == 0 {
        seq!['M', 'o', 'n']
    } else if w == 1 {
        seq!['T', 'u', 'e']
    } else if w == 2 {
        seq!['W', 'e', 'd']
    } else if w == 3 {
        seq!['T', 'h', 'u']
    } else if w == 4 {
        seq!['F', 'r', 'i']
    } else if w == 5 {
        seq!['S', 'a', 't']
    } else {
        seq!['S', 'u', 'n']
    }
}

fn weekday_name(w: u8) -> (r: &'static str)
    requires
        w < 7,
    ensures
        r@ == spec_weekday_name(w as nat),
{
    proof {
        reveal_strlit("Mon");
        reveal_strlit("Tue");
        reveal_strlit("Wed");
        reveal_strlit("Thu");
        reveal_strlit("Fri");
        reveal_strlit("Sat");
        reveal_strlit("Sun");
    }
    let r: &'static str = if w == 0 {
        "Mon"
    } else if w == 1 {
        "Tue"
    } else if w == 2 {
        "Wed"
    } else if w == 3 {
        "Thu"
    } else if w == 4 {
        "Fri"
    } else {
        if w == 5 {
            "Sat"
        } else {
            "Sun"
        }
    };
    proof {
        assert(r@ =~= spec_weekday_name(w as nat));
    }
    r
}

/// The hour on a 12-hour clock: midnight and noon show as 12.
pub open spec fn spec_hour12(hour: nat) -> nat {
    if hour % 12 == 0 {
        12
    } else {
        hour % 12
    }
}

/// `"<date> <weekday> <hour>:<minute> <a.m./p.m.>"`, with the date as
/// `year-month-day` (zero-padded), a 12-hour clock and zero-padded minutes.
pub open spec fn spec_full_date_time(p: LocalDateTime) -> Seq<char> {
    spec_year_digits(p.year as int) + seq!['-'] + spec_two_digits(p.month as nat) + seq!['-']
        + spec_two_digits(p.day as nat) + seq![' '] + spec_weekday_name(p.weekday as nat)
        + seq![' '] + spec_dec_digits(spec_hour12(p.hour as nat)) + seq![':'] + spec_two_digits(
        p.minute as nat,
    ) + seq![' '] + (if p.hour >= 12 {
        seq!['p', '.', 'm', '.']
    } else {
        seq!['a', '.', 'm', '.']
    })
}

/// Renders one local calendar instant as the full release date text.
pub fn format_full_date_and_time(p: &LocalDateTime) -> (r: String)
    requires
        p.wf(),
    ensures
        r@ == spec_full_date_time(*p),
{
    proof {
        reveal_strlit("-");
        reveal_strlit(" ");
        reveal_strlit(":");
        reveal_strlit("p.m.");
        reveal_strlit("a.m.");
    }
    let mut s = year_text(p.year);
    s.append("-");
    let month = u64_to_two_digit_string(p.month as u64);
    s.append(month.as_str());
    s.append("-");
    let day = u64_to_two_digit_string(p.day as u64);
    s.append(day.as_str());
    s.append(" ");
    s.append(weekday_name(p.weekday));
    s.append(" ");
    let hour12: u64 = if p.hour % 12 == 0 {
        12
    } else {
        (p.hour % 12) as u64
    };
    let hour = u64_to_string(hour12);
    s.append(hour.as_str());
    s.append(":");
    let minute = u64_to_two_digit_string(p.minute as u64);
    s.append(minute.as_str());
    s.append(" ");
    if p.hour >= 12 {
        s.append("p.m.");
    } else {
        s.append("a.m.");
    }
    proof {
        assert("-"@ =~= seq!['-']);
        assert(" "@ =~= seq![' ']);
        assert(":"@ =~= seq![':']);
        assert("p.m."@ =~= seq!['p', '.', 'm', '.']);
        assert("a.m."@ =~= seq!['a', '.', 'm', '.']);
        assert(s@ =~= spec_full_date_time(*p));
    }
    s
}

/// A release instant normalized to one timestamp, constructed either from a
/// UTC instant or by parsing an RFC 3339 string.
#[derive(Clone, Copy, Debug, PartialEq, Eq, Structural)]
pub struct EpisodeReleaseTime {
    release_epoch: i64,
}

impl EpisodeReleaseTime {
    pub open spec fn wf(&self) -> bool {
        epoch_in_range(self.spec_epoch())
    }

    pub closed spec fn spec_epoch(&self) -> int {
        self.release_epoch as int
    }

    /// Wraps a UTC instant given in Unix seconds.
    pub fn new(release_epoch: i64) -> (r: Self)
        requires
            epoch_in_range(release_epoch as int),
        ensures
            r.wf(),
            r.spec_epoch() == release_epoch as int,
    {
        EpisodeReleaseTime { release_epoch }
    }

    /// Parses an RFC 3339 airstamp; a malformed one is a typed error, never
    /// an abort.
    pub fn from_rfc3339_str(s: &str) -> (r: Result<Self, TimestampParseError>)
        ensures
            r matches Ok(t) ==> t.wf() && rfc3339_epoch(s@) == Some(t.spec_epoch()),
            r is Err <==> rfc3339_epoch(s@) is None,
    {
        match parse_rfc3339_epoch(s) {
            Ok(epoch) => Ok(EpisodeReleaseTime { release_epoch: epoch }),
            Err(e) => Err(e),
        }
    }

    /// The instant in Unix seconds.
    pub fn release_epoch(&self) -> (r: i64)
        ensures
            r as int == self.spec_epoch(),
    {
        self.release_epoch
    }

    /// The remaining time until this release, relative to `now`; nothing
    /// when the release is not strictly in the future.
    pub fn get_remaining_release_time(&self, now: i64) -> (r: Option<String>)
        requires
            self.wf(),
            epoch_in_range(now as int),
        ensures
            r is Some <==> spec_remaining_text(self.spec_epoch(), now as int) is Some,
            r matches Some(s) ==> Some(s@) == spec_remaining_text(self.spec_epoch(), now as int),
    {
        remaining_time_text(self.release_epoch, now)
    }

    /// The full release date and time in the machine's local calendar.  The
    /// calendar decomposition depends on the machine's time zone; the text
    /// rendered from it is exactly [`spec_full_date_time`] of that
    /// decomposition.
    pub fn get_full_release_date_and_time(&self) -> (r: String)
        requires
            self.wf(),
        ensures
            exists|p: LocalDateTime| p.wf() && r@ == spec_full_date_time(p),
    {
        let parts = local_date_time(self.release_epoch);
        let r = format_full_date_and_time(&parts);
        proof {
            assert(parts.wf() && r@ == spec_full_date_time(parts));
        }
        r
    }
}

} // verus!
