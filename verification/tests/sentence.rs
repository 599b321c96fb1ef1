use mic2::dms::GPSDMS;
use mic2::nmea_data::NMEASentenceType;
use mic2::num::FixedPoint;
use mic2::nmea_types::GpsNavigationStatus;
use mic2::nmea_types::GsaMode;
use mic2::nmea_types::GsaSelectionMode;
use mic2::sentence::NMEASentence;

fn fp(negative: bool, mantissa: u64, scale: u8) -> FixedPoint {
    FixedPoint { negative, mantissa, scale }
}

#[test]
fn sentence_test_nmea_sentence_gst() {
    let sentence = NMEASentence::new("$GPGST,182141.000,15.5,15.3,7.2,21.8,0.9,0.5,0.8*54").unwrap();
    let data = sentence.data().unwrap();
    println!("{data:#?}");
}

#[test]
fn sentence_test_nmea_sentence_gsa() {
    let sentence = NMEASentence::new("$GNGSA,A,3,80,71,73,79,69,,,,,,,,1.83,1.09,1.47*17").unwrap();
    let data = sentence.data().unwrap();
    println!("{data:#?}");
}

#[test]
fn sentence_test_nmea_sentence_gsv() {
    let sentence = NMEASentence::new("$GPGSV,3,1,11,03,03,111,00,04,15,270,00,06,01,010,00,13,06,292,00*74 $GPGSV,3,2,11,14,25,170,00,16,57,208,39,18,67,296,40,19,40,246,00*74 $GPGSV,3,3,11,22,42,067,42,24,14,311,43,27,05,244,00,,,,*4D").unwrap();
    let data = sentence.data().unwrap();
    println!("{data:#?}");
}

#[test]
fn test_pubx00_sentence() {
    let sentence = NMEASentence::new("$PUBX,00,025554.00,0000.00000,N,00000.00000,E,0.000,NF,5311696,3755936,0.000,0.00,0.000,,99.99,99.99,99.99,0,0,0*28\r\n").unwrap();
    let data = sentence.data().unwrap();
    println!("{data:#?}");
}

#[test]
fn test_pubx03_empty_sentence() {
    let sentence = NMEASentence::new("$PUBX,03,00*1C\r\n").unwrap();
    let data = sentence.data().unwrap();
    println!("{data:#?}");
}

#[test]
fn test_pubx03_sentence() {
    let sentence = NMEASentence::new("$PUBX,03,06,2,U,137,37,24,000,8,U,053,52,28,064,9,U,202,12,21,000,14,-,,,22,000,27,-,049,16,,000,81,-,,,08,000*54\r\n").unwrap();
    let data = sentence.data().unwrap();
    println!("{data:#?}");
}

#[test]
fn gst_reports_error_ellipse_orientation() {
    let sentence = NMEASentence::new("$GPGST,182141.000,15.5,15.3,7.2,21.8,0.9,0.5,0.8*54").unwrap();
    match sentence.data().unwrap() {
        NMEASentenceType::GST(d) => {
            assert_eq!(d.semi_major_orientation, Some(fp(false, 218, 1)));
            assert_eq!(d.rms_dev, Some(fp(false, 155, 1)));
            assert_eq!(d.semi_major_dev, Some(fp(false, 153, 1)));
            assert_eq!(d.semi_minor_dev, Some(fp(false, 72, 1)));
            assert_eq!(d.latitude_error, Some(fp(false, 9, 1)));
            assert_eq!(d.longitude_error, Some(fp(false, 5, 1)));
            assert_eq!(d.altitude_error, Some(fp(false, 8, 1)));
            let t = d.fix_timestamp.unwrap();
            assert_eq!((t.hour, t.minute, t.second, t.nanos), (18, 21, 41, 0));
        }
        other => panic!("expected GST, got {other:?}"),
    }
}

#[test]
fn gsa_reports_modes_and_dops() {
    let sentence = NMEASentence::new("$GNGSA,A,3,80,71,73,79,69,,,,,,,,1.83,1.09,1.47*17").unwrap();
    match sentence.data().unwrap() {
        NMEASentenceType::GSA(d) => {
            assert_eq!(d.selection_mode, GsaSelectionMode::Automatic);
            assert_eq!(d.mode, GsaMode::Mode3D);
            assert_eq!(d.hdop, Some(fp(false, 109, 2)));
            assert_eq!(d.pdop, Some(fp(false, 183, 2)));
            assert_eq!(d.vdop, Some(fp(false, 147, 2)));
            assert_eq!(d.system_id, None);
            assert_eq!(d.prn_numbers.len(), 12);
            assert_eq!(d.prn_numbers[0], Some(80));
            assert_eq!(d.prn_numbers[4], Some(69));
            assert_eq!(d.prn_numbers[5], None);
            assert_eq!(d.prn_numbers[11], None);
        }
        other => panic!("expected GSA, got {other:?}"),
    }
}

#[test]
fn pubx00_no_fix_decodes_nav_status() {
    let sentence = NMEASentence::new("$PUBX,00,025554.00,0000.00000,N,00000.00000,E,0.000,NF,5311696,3755936,0.000,0.00,0.000,,99.99,99.99,99.99,0,0,0*28").unwrap();
    match sentence.data().unwrap() {
        NMEASentenceType::PUBX00(d) => {
            assert_eq!(d.nav_stat, GpsNavigationStatus::NoFix);
            assert_eq!(d.latitude, GPSDMS { degrees: 0, minutes: 0, seconds: 0 });
            assert_eq!(d.n, 'N');
            assert_eq!(d.e, 'E');
            assert_eq!(d.h_acc, fp(false, 5311696, 0));
            assert_eq!(d.v_acc, fp(false, 3755936, 0));
            assert_eq!(d.age_c, None);
            assert_eq!(d.hdop, fp(false, 9999, 2));
            assert_eq!(d.gps_sat_used, 0);
        }
        other => panic!("expected PUBX00, got {other:?}"),
    }
}

#[test]
fn pubx03_zero_satellites_is_empty_list() {
    let sentence = NMEASentence::new("$PUBX,03,00*1C").unwrap();
    match sentence.data().unwrap() {
        NMEASentenceType::PUBX03(d) => assert!(d.satellites.is_empty()),
        other => panic!("expected PUBX03, got {other:?}"),
    }
}

#[test]
fn pubx03_satellite_fields_line_up() {
    let sentence = NMEASentence::new("$PUBX,03,06,2,U,137,37,24,000,8,U,053,52,28,064,9,U,202,12,21,000,14,-,,,22,000,27,-,049,16,,000,81,-,,,08,000*54").unwrap();
    match sentence.data().unwrap() {
        NMEASentenceType::PUBX03(d) => {
            assert_eq!(d.satellites.len(), 6);
            let s0 = d.satellites[0];
            assert_eq!(s0.prn, 2);
            assert!(s0.used);
            assert_eq!(s0.azimuth, Some(137));
            assert_eq!(s0.elevation, Some(37));
            assert_eq!(s0.snr, Some(24));
            assert_eq!(s0.lock_time, 0);
            let s5 = d.satellites[5];
            assert_eq!(s5.prn, 81);
            assert!(!s5.used);
            assert_eq!(s5.azimuth, None);
            assert_eq!(s5.elevation, None);
            assert_eq!(s5.snr, Some(8));
            assert_eq!(s5.lock_time, 0);
        }
        other => panic!("expected PUBX03, got {other:?}"),
    }
}

#[test]
fn pubx04_reports_clock_fields() {
    let sentence = NMEASentence::new("$PUBX,04,073731.00,091202,113851.00,1196,15D,1930035,-2660.664,43,*3C").unwrap();
    match sentence.data().unwrap() {
        NMEASentenceType::PUBX04(d) => {
            let t = d.current_time.unwrap();
            assert_eq!((t.hour, t.minute, t.second), (7, 37, 31));
            let date = d.current_date.unwrap();
            assert_eq!((date.year, date.month, date.day), (2002, 12, 9));
            assert_eq!(d.leap_seconds, Some((15, true)));
            assert_eq!(d.clock_bias, fp(false, 1930035, 0));
            assert_eq!(d.clock_drift, fp(true, 2660664, 3));
            assert_eq!(d.timepulse_granularity, fp(false, 43, 0));
        }
        other => panic!("expected PUBX04, got {other:?}"),
    }
}

#[test]
fn unknown_sentence_kind_is_invalid_data() {
    let sentence = NMEASentence::new("$GPGLL,4404.14012,N,12118.85993,W,001037.00,A,A*67").unwrap();
    assert!(sentence.data().is_err());
    let pubx_other = NMEASentence::new("$PUBX,41,1,0007,0003,19200,0*25").unwrap();
    assert!(pubx_other.data().is_err());
}

#[test]
fn malformed_numeric_field_degrades_to_none_alone() {
    let sentence = NMEASentence::new("$GPGST,182141.000,xx,15.3,7.2,21.8,0.9,0.5,0.8*54").unwrap();
    match sentence.data().unwrap() {
        NMEASentenceType::GST(d) => {
            assert_eq!(d.rms_dev, None);
            assert_eq!(d.semi_major_dev, Some(fp(false, 153, 1)));
        }
        other => panic!("expected GST, got {other:?}"),
    }
}

#[test]
fn structural_failure_rejects_whole_sentence() {
    // A GST sentence with a field missing fails whole rather than by field.
    let sentence = NMEASentence::new("$GPGST,182141.000,15.5,15.3,7.2,21.8,0.9,0.5*54").unwrap();
    assert!(sentence.data().is_err());
    // A PUBX03 whose field tally disagrees with its declared count fails.
    let bad_count = NMEASentence::new("$PUBX,03,02,2,U,137,37,24,000*11").unwrap();
    assert!(bad_count.data().is_err());
}

#[test]
fn checksum_marker_classification() {
    assert!(NMEASentence::is_start("$GPGSA"));
    assert!(!NMEASentence::is_start("GPGSA"));
    assert!(NMEASentence::contains_checksum("$PUBX,03,00*1C"));
    assert!(!NMEASentence::contains_checksum("$PUBX,03,00*1"));
    assert!(!NMEASentence::contains_checksum("$PUBX,03,00"));
}
