use mic2::datetime::parse_date;
use mic2::datetime::parse_time;

#[test]
fn time_fields_parse_to_nanosecond_fractions() {
    let t = parse_time(b"182141.000").unwrap();
    assert_eq!((t.hour, t.minute, t.second, t.nanos), (18, 21, 41, 0));
    let t = parse_time(b"025554.00").unwrap();
    assert_eq!((t.hour, t.minute, t.second, t.nanos), (2, 55, 54, 0));
    let t = parse_time(b"235959.5").unwrap();
    assert_eq!((t.hour, t.minute, t.second, t.nanos), (23, 59, 59, 500000000));
    let t = parse_time(b"000000.123456789").unwrap();
    assert_eq!((t.hour, t.minute, t.second, t.nanos), (0, 0, 0, 123456789));
}

#[test]
fn out_of_range_or_shapeless_times_are_rejected() {
    assert!(parse_time(b"240000.00").is_none());
    assert!(parse_time(b"126000.00").is_none());
    assert!(parse_time(b"125960.00").is_none());
    assert!(parse_time(b"125959").is_none());
    assert!(parse_time(b"125959.").is_none());
    assert!(parse_time(b"12x959.00").is_none());
    assert!(parse_time(b"").is_none());
}

#[test]
fn date_fields_name_real_days() {
    let d = parse_date(b"091202").unwrap();
    assert_eq!((d.year, d.month, d.day), (2002, 12, 9));
    // Two-digit years split at 68: up to it the 2000s, beyond it the 1900s.
    let d = parse_date(b"010168").unwrap();
    assert_eq!(d.year, 2068);
    let d = parse_date(b"010169").unwrap();
    assert_eq!(d.year, 1969);
    // A leap day exists in 2004 and in 2000, and not in 2003.
    assert!(parse_date(b"290204").is_some());
    assert!(parse_date(b"290200").is_some());
    assert!(parse_date(b"290203").is_none());
    // The thirty-first exists only where the month has one.
    assert!(parse_date(b"310102").is_some());
    assert!(parse_date(b"310402").is_none());
    assert!(parse_date(b"000102").is_none());
    assert!(parse_date(b"011302").is_none());
    assert!(parse_date(b"0101022").is_none());
}
