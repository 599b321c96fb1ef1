use mic2::dms::GPSDMS;
use mic2::num::FixedPoint;
use mic2::num::parse_decimal;

fn to_f64(fp: FixedPoint) -> f64 {
    let v = fp.mantissa as f64 / 10f64.powi(fp.scale as i32);
    if fp.negative { -v } else { v }
}

fn dec(text: &str) -> FixedPoint {
    parse_decimal(text.as_bytes()).unwrap()
}

#[test]
fn types_test_gps_dms() {
    let degree_map: [(&str, GPSDMS); 9] = [
        ("0.0", GPSDMS::new(0, 0, 0)),
        ("0.005", GPSDMS::new(0, 0, 18)),
        ("0.01", GPSDMS::new(0, 0, 36)),
        ("1.23", GPSDMS::new(1, 13, 48)),
        ("1.25", GPSDMS::new(1, 15, 0)),
        ("12.53", GPSDMS::new(12, 31, 48)),
        ("47.31", GPSDMS::new(47, 18, 36)),
        ("90.99", GPSDMS::new(90, 59, 24)),
        ("90.995", GPSDMS::new(90, 59, 42)),
    ];
    for (degree, dms) in &degree_map {
        let value = dec(degree);
        let new_dms = GPSDMS::from_decimal(&value);
        assert_eq!(new_dms.degrees, dms.degrees);
        assert_eq!(new_dms.minutes, dms.minutes);
        assert_eq!(new_dms.seconds, dms.seconds);
        let round_trip = to_f64(new_dms.to_decimal(3));
        let expected = degree.parse::<f64>().unwrap();
        let abs = (round_trip - expected).abs();
        assert!(
            abs < f64::EPSILON,
            "{} is not approximately equal to {} ({} -- {})",
            round_trip,
            expected,
            abs,
            f64::EPSILON
        );
    }

    let nmea_str_map: [(&str, GPSDMS); 10] = [
        ("0000.00", GPSDMS::new(0, 0, 0)),
        ("0000.30", GPSDMS::new(0, 0, 18)),
        ("0000.60", GPSDMS::new(0, 0, 36)),
        ("0113.80", GPSDMS::new(1, 13, 48)),
        ("0115.00", GPSDMS::new(1, 15, 0)),
        ("1231.80", GPSDMS::new(12, 31, 48)),
        ("4718.60", GPSDMS::new(47, 18, 36)),
        ("9059.40", GPSDMS::new(90, 59, 24)),
        ("9099.70", GPSDMS::new(90, 99, 42)),
        ("18099.70", GPSDMS::new(180, 99, 42)),
    ];
    for (nmea_str, dms) in &nmea_str_map {
        let new_dms = GPSDMS::from_nmea_str(nmea_str).unwrap();
        let degree = to_f64(new_dms.to_decimal(3));
        assert_eq!(new_dms.degrees, dms.degrees);
        assert_eq!(new_dms.minutes, dms.minutes);
        assert_eq!(new_dms.seconds, dms.seconds);
        let abs = (to_f64(new_dms.to_decimal(3)) - degree).abs();
        assert!(
            abs < f64::EPSILON,
            "{} is not approximately equal to {} ({} -- {})",
            to_f64(new_dms.to_decimal(3)),
            degree,
            abs,
            f64::EPSILON
        );
    }
}

#[test]
fn round_trip_is_exact_at_three_decimals() {
    // The representative set round-trips to the very same decimal.
    for text in ["0.0", "0.005", "0.01", "1.23", "1.25", "12.53", "47.31", "90.99", "90.995"] {
        let value = dec(text);
        let back = GPSDMS::from_decimal(&value).to_decimal(3);
        let expected = dec(text);
        let scale_up = 10u64.pow(3 - expected.scale as u32);
        assert_eq!(back.mantissa, expected.mantissa * scale_up, "for {}", text);
        assert_eq!(back.scale, 3);
        assert!(!back.negative);
    }
}

#[test]
fn seconds_first_field_reads_seconds_from_fraction() {
    // hhmmss.ss: two fraction digits scale to whole seconds.
    let dms = GPSDMS::from_nmea_str("3888.97").unwrap();
    assert_eq!(dms, GPSDMS { degrees: 38, minutes: 88, seconds: 58 });
}

#[test]
fn minutes_fraction_field_reads_decimal_minutes() {
    // ddmm.mmmm: two degree digits, then decimal minutes.
    let dms = GPSDMS::from_nmea_str("4717.112671").unwrap();
    assert_eq!(dms, GPSDMS { degrees: 47, minutes: 17, seconds: 6 });
    // Whole minutes beyond a byte saturate, as a narrowing cast would.
    let dms = GPSDMS::from_nmea_str("00833.914843").unwrap();
    assert_eq!(dms, GPSDMS { degrees: 0, minutes: 255, seconds: 54 });
}

#[test]
fn short_or_dotless_fields_are_rejected()
{
    assert!(GPSDMS::from_nmea_str("888.97").is_err());
    assert!(GPSDMS::from_nmea_str("3888997").is_err());
    assert!(GPSDMS::from_nmea_str("").is_err());
    assert!(GPSDMS::from_nmea_str("38x8.97").is_err());
}

#[test]
fn decimal_fields_parse_and_reject() {
    assert_eq!(dec("21.8"), FixedPoint { negative: false, mantissa: 218, scale: 1 });
    assert_eq!(dec("-2660.664"), FixedPoint { negative: true, mantissa: 2660664, scale: 3 });
    assert_eq!(dec("0"), FixedPoint { negative: false, mantissa: 0, scale: 0 });
    assert_eq!(dec("5."), FixedPoint { negative: false, mantissa: 5, scale: 0 });
    assert_eq!(dec(".5"), FixedPoint { negative: false, mantissa: 5, scale: 1 });
    assert!(parse_decimal(b"").is_none());
    assert!(parse_decimal(b".").is_none());
    assert!(parse_decimal(b"1.2.3").is_none());
    assert!(parse_decimal(b"abc").is_none());
}
