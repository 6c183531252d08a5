use chrono::{DateTime, Utc};
use crunchyma::clock::Timestamp;
use crunchyma::utils::{is_in_past, is_today, parse_categories};

fn stamp(secs: i64, nanos: u32) -> Timestamp {
    Timestamp::new(secs, nanos)
}

fn calendar(secs: i64, nanos: u32) -> DateTime<Utc> {
    DateTime::from_timestamp(secs, nanos).expect("a timestamp within range")
}

#[test]
fn the_same_utc_day_is_today() {
    let now = stamp(1_700_000_000, 0);
    assert!(is_today(&stamp(1_700_000_000, 0), &now));
    assert!(is_today(&stamp(1_699_920_000, 0), &now));
    assert!(is_today(&stamp(1_700_006_399, 999_999_999), &now));
}

#[test]
fn the_neighbouring_days_are_not_today() {
    let now = stamp(1_700_000_000, 0);
    assert!(!is_today(&stamp(1_699_919_999, 0), &now));
    assert!(!is_today(&stamp(1_700_006_400, 0), &now));
}

#[test]
fn today_is_a_calendar_day_not_the_last_24_hours() {
    let just_after_midnight = stamp(86_400 * 19_000 + 5, 0);
    let late_yesterday = stamp(86_400 * 19_000 - 5, 0);
    assert!(!is_today(&late_yesterday, &just_after_midnight));
}

#[test]
fn days_before_1970_are_counted_downwards() {
    assert!(is_today(&stamp(-1, 0), &stamp(-86_400, 0)));
    assert!(!is_today(&stamp(-1, 0), &stamp(0, 0)));
    assert!(!is_today(&stamp(-86_401, 0), &stamp(-86_400, 0)));
    assert!(is_today(&stamp(i64::MIN, 0), &stamp(i64::MIN + 1, 0)));
    assert!(is_today(&stamp(i64::MAX, 0), &stamp(i64::MAX - 1, 0)));
}

#[test]
fn is_today_agrees_with_the_calendar() {
    let anchors: [i64; 6] = [0, -86_400 * 400, 86_400 * 11_016, 951_782_400, 1_700_000_000, 4_102_444_800];
    let offsets: [i64; 9] = [-86_401, -86_400, -86_399, -1, 0, 1, 86_399, 86_400, 86_401];
    for anchor in anchors {
        for a in offsets {
            for b in offsets {
                let expected = calendar(anchor + a, 0).date_naive() == calendar(anchor + b, 0).date_naive();
                assert_eq!(
                    is_today(&stamp(anchor + a, 0), &stamp(anchor + b, 0)),
                    expected,
                    "{} and {}",
                    anchor + a,
                    anchor + b
                );
            }
        }
    }
}

#[test]
fn only_an_earlier_instant_is_in_the_past() {
    let now = stamp(1_000, 500);
    assert!(is_in_past(&stamp(999, 999_999_999), &now));
    assert!(is_in_past(&stamp(1_000, 499), &now));
    assert!(!is_in_past(&stamp(1_000, 500), &now));
    assert!(!is_in_past(&stamp(1_000, 501), &now));
    assert!(!is_in_past(&stamp(1_001, 0), &now));
}

#[test]
fn is_in_past_agrees_with_the_calendar() {
    let points: [(i64, u32); 6] = [(-5, 0), (-5, 7), (0, 0), (0, 999_999_999), (1, 0), (1_700_000_000, 1)];
    for (s1, n1) in points {
        for (s2, n2) in points {
            let expected = calendar(s2, n2) > calendar(s1, n1);
            assert_eq!(is_in_past(&stamp(s1, n1), &stamp(s2, n2)), expected);
        }
    }
}

#[test]
fn genres_become_hashtags() {
    let genres = vec!["Action".to_string(), "Slice of Life".to_string(), "Sci-Fi".to_string()];
    assert_eq!(parse_categories(&genres), "#action, #slice_of_life, #sci_fi");
}

#[test]
fn no_genre_gives_an_empty_line() {
    assert_eq!(parse_categories(&Vec::new()), "");
}

#[test]
fn a_single_genre_has_no_separator() {
    assert_eq!(parse_categories(&vec!["DRAMA".to_string()]), "#drama");
}
