use connwatch::clock::{is_later, now_timestamp, seconds_between, to_nanos, Timestamp};
use connwatch::storage::ts_to_dt;

fn at(secs: i64, subsec_nanos: u32) -> Timestamp {
    Timestamp { secs, subsec_nanos }
}

#[test]
fn whole_seconds_between_round_toward_zero() {
    assert_eq!(seconds_between(at(10, 0), at(5, 0)), 5);
    assert_eq!(seconds_between(at(10, 100), at(9, 900_000_000)), 0);
    assert_eq!(seconds_between(at(11, 100), at(9, 900_000_000)), 1);
    assert_eq!(seconds_between(at(9, 900_000_000), at(11, 100)), -1);
    assert_eq!(seconds_between(at(-1, 500_000_000), at(0, 0)), 0);
    for (a, b) in [(at(10, 100), at(9, 900_000_000)), (at(-3, 1), at(4, 999_999_999)), (at(100, 0), at(-100, 5))] {
        let da = chrono::DateTime::from_timestamp(a.secs, a.subsec_nanos).unwrap();
        let db = chrono::DateTime::from_timestamp(b.secs, b.subsec_nanos).unwrap();
        assert_eq!(seconds_between(a, b), da.signed_duration_since(db).num_seconds() as i128);
    }
}

#[test]
fn instants_in_nanoseconds_and_order() {
    assert_eq!(to_nanos(at(2, 5)), 2_000_000_005);
    assert_eq!(to_nanos(at(-1, 999_999_999)), -1);
    assert_eq!(to_nanos(at(i64::MIN, 0)), i64::MIN as i128 * 1_000_000_000);
    assert!(is_later(at(1, 1), at(1, 0)));
    assert!(is_later(at(2, 0), at(1, 999_999_999)));
    assert!(!is_later(at(1, 0), at(1, 0)));
}

#[test]
fn chrono_range_bounds() {
    let min = -8_334_601_228_800i64;
    let max = 8_210_266_876_799i64;
    assert_eq!(chrono::DateTime::<chrono::Utc>::MIN_UTC.timestamp(), min);
    assert_eq!(chrono::DateTime::<chrono::Utc>::MAX_UTC.timestamp(), max);
    assert_eq!(ts_to_dt(min), min);
    assert_eq!(ts_to_dt(max), max);
    let now = now_timestamp();
    assert!(ts_to_dt(min - 1) >= now);
    assert!(ts_to_dt(max + 1) >= now);
}
