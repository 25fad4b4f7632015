use chrono::{Datelike, Timelike};

use series_troxide::text::{parse_season_episode_number, u64_to_string, u64_to_two_digit_string};
use series_troxide::time::EpisodeReleaseTime;

const WEEK: i64 = 604_800;
const DAY: i64 = 86_400;
const HOUR: i64 = 3_600;
const MINUTE: i64 = 60;

#[test]
fn decimal_rendering_is_exact() {
    assert_eq!(u64_to_string(0), "0");
    assert_eq!(u64_to_string(7), "7");
    assert_eq!(u64_to_string(10), "10");
    assert_eq!(u64_to_string(12345), "12345");
    assert_eq!(u64_to_string(u64::MAX), "18446744073709551615");
}

#[test]
fn two_digit_rendering_pads_below_ten() {
    assert_eq!(u64_to_two_digit_string(0), "00");
    assert_eq!(u64_to_two_digit_string(9), "09");
    assert_eq!(u64_to_two_digit_string(10), "10");
    assert_eq!(u64_to_two_digit_string(123), "123");
}

#[test]
fn season_episode_numbers_line_up() {
    assert_eq!(parse_season_episode_number(5), "05");
    assert_eq!(parse_season_episode_number(12), "12");
    assert_eq!(parse_season_episode_number(0), "00");
}

#[test]
fn parses_rfc3339_to_the_documented_instant() {
    let rt = EpisodeReleaseTime::from_rfc3339_str("2020-01-01T00:00:00Z").unwrap();
    assert_eq!(rt.release_epoch(), 1_577_836_800);

    let with_offset = EpisodeReleaseTime::from_rfc3339_str("2020-01-01T02:00:00+02:00").unwrap();
    assert_eq!(with_offset.release_epoch(), 1_577_836_800);
}

#[test]
fn malformed_airstamp_is_a_typed_error() {
    assert!(EpisodeReleaseTime::from_rfc3339_str("not a timestamp").is_err());
    assert!(EpisodeReleaseTime::from_rfc3339_str("2020-13-01T00:00:00Z").is_err());
    assert!(EpisodeReleaseTime::from_rfc3339_str("").is_err());
}

#[test]
fn release_equal_to_now_is_not_future() {
    let now: i64 = 1_600_000_000;
    let rt = EpisodeReleaseTime::new(now);
    assert_eq!(rt.get_remaining_release_time(now), None);
}

#[test]
fn release_in_the_past_has_no_remaining_time() {
    let now: i64 = 1_600_000_000;
    let rt = EpisodeReleaseTime::new(now - 3 * DAY);
    assert_eq!(rt.get_remaining_release_time(now), None);
}

#[test]
fn remaining_time_picks_the_coarsest_nonzero_unit() {
    let now: i64 = 1_600_000_000;
    let cases: [(i64, &str); 5] = [
        (2 * WEEK + 3 * DAY, "2 weeks"),
        (3 * DAY + 5 * HOUR, "3 days"),
        (2 * HOUR + 30 * MINUTE, "2 hours"),
        (5 * MINUTE + 59, "5 minutes"),
        (59, "Now"),
    ];
    for (delta, expected) in cases {
        let rt = EpisodeReleaseTime::new(now + delta);
        assert_eq!(rt.get_remaining_release_time(now).as_deref(), Some(expected));
    }
}

#[test]
fn full_release_date_and_time_matches_the_local_calendar() {
    // A fixed instant; the expectation is computed from chrono's own local
    // decomposition, so the test holds in any time zone.
    let epoch: i64 = 1_589_500_800;
    let rt = EpisodeReleaseTime::new(epoch);

    let local = chrono::DateTime::<chrono::Utc>::from_timestamp(epoch, 0)
        .unwrap()
        .with_timezone(&chrono::Local);
    let (hour12, pm_am) = {
        let hour = local.hour();
        let h12 = if hour % 12 == 0 { 12 } else { hour % 12 };
        (h12, if hour >= 12 { "p.m." } else { "a.m." })
    };
    let expected = format!(
        "{:04}-{:02}-{:02} {} {}:{:02} {}",
        local.year(),
        local.month(),
        local.day(),
        local.weekday(),
        hour12,
        local.minute(),
        pm_am
    );
    assert_eq!(rt.get_full_release_date_and_time(), expected);
}
