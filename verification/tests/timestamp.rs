use agent_gateway::timestamp::{Timestamp, MAX_MICROS, MIN_MICROS};
use chrono::{DateTime, TimeZone, Utc};

fn at(micros: i64) -> Timestamp {
    Timestamp::from_micros(micros).unwrap()
}

#[test]
fn instants_are_written_in_utc() {
    let t = at(Utc.with_ymd_and_hms(2026, 5, 1, 7, 8, 9).single().unwrap().timestamp_micros());
    assert_eq!(t.rfc3339(), "2026-05-01T07:08:09.000000Z");
    assert_eq!(t.display(), "2026-05-01 07:08:09 UTC");
    assert_eq!(t.debug(), "2026-05-01T07:08:09Z");
    let t = at(t.micros() + 120_000);
    assert_eq!(t.rfc3339(), "2026-05-01T07:08:09.120000Z");
    assert_eq!(t.display(), "2026-05-01 07:08:09.120 UTC");
    let t = at(t.micros() + 3);
    assert_eq!(t.display(), "2026-05-01 07:08:09.120003 UTC");
    assert_eq!(t.debug(), "2026-05-01T07:08:09.120003Z");
}

#[test]
fn instants_far_away_have_signed_years() {
    assert_eq!(at(MIN_MICROS).rfc3339(), "-262143-01-01T00:00:00.000000Z");
    assert_eq!(at(MAX_MICROS).rfc3339(), "+262142-12-31T23:59:59.999999Z");
    assert_eq!(at(-62167219200000000).rfc3339(), "0000-01-01T00:00:00.000000Z");
    assert_eq!(at(-62167219200000001).rfc3339(), "-0001-12-31T23:59:59.999999Z");
    assert_eq!(at(253402300799999999).rfc3339(), "9999-12-31T23:59:59.999999Z");
    assert_eq!(at(253402300800000000).rfc3339(), "+10000-01-01T00:00:00.000000Z");
}

#[test]
fn bounds_are_those_of_chrono() {
    assert!(Timestamp::from_micros(MIN_MICROS - 1).is_none());
    assert!(Timestamp::from_micros(MAX_MICROS + 1).is_none());
    for m in [MIN_MICROS, MAX_MICROS, i64::MIN, i64::MAX, MIN_MICROS - 1, MAX_MICROS + 1, 0] {
        assert_eq!(
            Timestamp::from_micros(m).is_some(),
            DateTime::from_timestamp_micros(m).is_some()
        );
    }
}

#[test]
fn dates_follow_the_calendar() {
    fn leap(y: i64) -> bool {
        y % 4 == 0 && (y % 100 != 0 || y % 400 == 0)
    }
    let mut day: i64 = 0;
    for y in 1970i64..2110 {
        for m in 1i64..=12 {
            let days = match m {
                2 if leap(y) => 29,
                2 => 28,
                4 | 6 | 9 | 11 => 30,
                _ => 31,
            };
            for d in 1i64..=days {
                let text = at(day * 86_400_000_000).rfc3339();
                assert_eq!(text, format!("{y:04}-{m:02}-{d:02}T00:00:00.000000Z"));
                day += 1;
            }
        }
    }
}

#[test]
fn texts_are_those_of_chrono() {
    for m in [0, -1, 1_777_593_600_000_001, 1_777_593_600_500_000, MIN_MICROS, MAX_MICROS] {
        let theirs = DateTime::from_timestamp_micros(m).unwrap();
        assert_eq!(at(m).display(), theirs.to_string());
        assert_eq!(at(m).debug(), format!("{theirs:?}"));
        assert_eq!(format!("Some({})", at(m).debug()), format!("{:?}", Some(theirs)));
    }
}
