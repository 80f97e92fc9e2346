use filewatch::timestamp::{fields_from_raw, format_timestamp, now_fields, TimeFields};

fn fields(
    year: u32,
    month: u32,
    day: u32,
    hour: u32,
    minute: u32,
    second: u32,
    millis: u32,
) -> TimeFields {
    TimeFields { year, month, day, hour, minute, second, millis }
}

#[test]
fn format_exact_value() {
    let t = fields(2024, 1, 2, 3, 4, 5, 6);
    assert_eq!(format_timestamp(&t), b"20240102030405006".to_vec());
}

#[test]
fn format_exact_value_all_wide() {
    let t = fields(9999, 12, 31, 23, 59, 59, 999);
    assert_eq!(format_timestamp(&t), b"99991231235959999".to_vec());
}

#[test]
fn format_zero_pads_every_field() {
    let t = fields(1, 1, 1, 0, 0, 0, 0);
    assert_eq!(format_timestamp(&t), b"00010101000000000".to_vec());
}

#[test]
fn format_is_seventeen_ascii_digits() {
    let samples = [
        fields(2026, 10, 11, 12, 13, 14, 15),
        fields(0, 1, 1, 0, 0, 0, 0),
        fields(1970, 1, 1, 0, 0, 0, 1),
    ];
    for t in samples {
        let s = format_timestamp(&t);
        assert_eq!(s.len(), 17);
        assert!(s.iter().all(|b| b.is_ascii_digit()));
    }
}

#[test]
fn earlier_instant_sorts_before_later() {
    let t1 = fields(2024, 6, 30, 23, 59, 59, 999);
    let t2 = fields(2024, 7, 1, 0, 0, 0, 0);
    assert!(format_timestamp(&t1) < format_timestamp(&t2));

    let one_ms_apart_lo = fields(2024, 6, 30, 23, 59, 59, 998);
    let one_ms_apart_hi = fields(2024, 6, 30, 23, 59, 59, 999);
    assert!(format_timestamp(&one_ms_apart_lo) < format_timestamp(&one_ms_apart_hi));

    let year_boundary_lo = fields(1999, 12, 31, 23, 59, 59, 999);
    let year_boundary_hi = fields(2000, 1, 1, 0, 0, 0, 0);
    assert!(format_timestamp(&year_boundary_lo) < format_timestamp(&year_boundary_hi));
}

#[test]
fn raw_fields_in_range_are_accepted() {
    let t = fields_from_raw(2026, 10, 11, 7, 30, 15, 250).expect("in range");
    assert_eq!(format_timestamp(&t), b"20261011073015250".to_vec());
}

#[test]
fn raw_year_out_of_range_is_rejected() {
    assert!(fields_from_raw(10_000, 1, 1, 0, 0, 0, 0).is_none());
    assert!(fields_from_raw(-1, 1, 1, 0, 0, 0, 0).is_none());
}

#[test]
fn raw_calendar_fields_out_of_range_are_rejected() {
    assert!(fields_from_raw(2024, 0, 1, 0, 0, 0, 0).is_none());
    assert!(fields_from_raw(2024, 13, 1, 0, 0, 0, 0).is_none());
    assert!(fields_from_raw(2024, 1, 0, 0, 0, 0, 0).is_none());
    assert!(fields_from_raw(2024, 1, 32, 0, 0, 0, 0).is_none());
    assert!(fields_from_raw(2024, 1, 1, 24, 0, 0, 0).is_none());
    assert!(fields_from_raw(2024, 1, 1, 0, 60, 0, 0).is_none());
    assert!(fields_from_raw(2024, 1, 1, 0, 0, 60, 0).is_none());
}

#[test]
fn leap_second_millis_are_clamped() {
    let t = fields_from_raw(2024, 6, 30, 23, 59, 59, 1500).expect("accepted");
    assert_eq!(t.millis, 999);
    assert_eq!(format_timestamp(&t), b"20240630235959999".to_vec());
}

#[test]
fn now_is_representable_and_in_range() {
    let t = now_fields().expect("the present day has a four-digit year");
    assert!(t.year >= 2020);
    assert!((1..=12).contains(&t.month));
    assert!((1..=31).contains(&t.day));
    assert!(t.hour <= 23);
    assert!(t.minute <= 59);
    assert!(t.second <= 59);
    assert!(t.millis <= 999);
}
