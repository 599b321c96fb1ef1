use mic2::datetime::GpsDate;
use mic2::gps::config_messages;
use mic2::gps::Framer;
use mic2::gps::GpsSession;
use mic2::gps::GpsShared;
use mic2::gps::GPSPacket;
use mic2::gps::ReadAction;
use mic2::gps::ReadEvent;
use mic2::info::GPSInfo;
use mic2::nmea_data::NMEASentenceType;
use mic2::nmea_types::FAAMode;
use mic2::nmea_types::FAAModeType;
use mic2::nmea_types::GpsNavigationStatus;
use mic2::nmea_types::NMEAError;
use mic2::sentence::NMEASentence;

const PUBX03: &str = "$PUBX,03,06,2,U,137,37,24,000,8,U,053,52,28,064,9,U,202,12,21,000,14,-,,,22,000,27,-,049,16,,000,81,-,,,08,000*54";
const PUBX00: &str = "$PUBX,00,025554.00,0000.00000,N,00000.00000,E,0.000,NF,5311696,3755936,0.000,0.00,0.000,,99.99,99.99,99.99,0,0,0*28";
const PUBX04: &str = "$PUBX,04,073731.00,091202,113851.00,1196,15D,1930035,-2660.664,43,*3C";

fn decode(text: &str) -> NMEASentenceType {
    NMEASentence::new(text).unwrap().data().unwrap()
}

#[test]
fn framer_passes_whole_sentences_through() {
    let mut framer = Framer::new();
    let packets = framer.update(PUBX03.as_bytes());
    assert_eq!(packets.len(), 1);
    assert_eq!(packets[0], GPSPacket::NMEA(decode(PUBX03)));
}

#[test]
fn framer_reassembles_across_two_updates() {
    // Any cut outside the checksum marker gives, after the second update,
    // the same decoded sentence as feeding the text whole.
    let whole = {
        let mut framer = Framer::new();
        framer.update(PUBX03.as_bytes())
    };
    for cut in [1, 5, 12, PUBX03.len() - 3] {
        let mut framer = Framer::new();
        let first = framer.update(&PUBX03.as_bytes()[..cut]);
        assert!(first.is_empty(), "nothing should come out at cut {cut}");
        let second = framer.update(&PUBX03.as_bytes()[cut..]);
        assert_eq!(second, whole, "mismatch at cut {cut}");
    }
}

#[test]
fn framer_reassembles_across_three_updates() {
    let mut framer = Framer::new();
    assert!(framer.update(&PUBX03.as_bytes()[..4]).is_empty());
    assert!(framer.update(&PUBX03.as_bytes()[4..20]).is_empty());
    let last = framer.update(&PUBX03.as_bytes()[20..]);
    assert_eq!(last, vec![GPSPacket::NMEA(decode(PUBX03))]);
}

#[test]
fn framer_hands_binary_reads_to_ubx() {
    let mut framer = Framer::new();
    let raw = [0xB5u8, 0x62, 0x05, 0x01, 0x02, 0x05, 0x01, 0x0E, 0x2E];
    let packets = framer.update(&raw);
    assert_eq!(packets.len(), 1);
    match &packets[0] {
        GPSPacket::Ubx(p) => {
            assert_eq!(p.payload, vec![0x05, 0x01]);
            assert!(p.verify_checksum().is_ok());
        }
        other => panic!("expected a UBX packet, got {other:?}"),
    }
}

#[test]
fn framer_labels_undecodable_binary_unsupported() {
    let mut framer = Framer::new();
    let raw = [0xFFu8, 0x00, 0x80];
    let packets = framer.update(&raw);
    assert_eq!(packets.len(), 1);
    assert_eq!(packets[0], GPSPacket::Unsupported(raw.to_vec()));
}

#[test]
fn aggregator_updates_field_groups_independently() {
    let mut info = GPSInfo::empty();
    let today = GpsDate { year: 2024, month: 5, day: 1 };

    // After a position sentence alone, the satellite list stays empty and
    // the clock group stays unobserved.
    info.update_from_nmea_sentence_at(&decode(PUBX00), today);
    assert!(info.satellites.is_empty());
    assert_eq!(info.clock_bias, None);
    assert!(info.latitude.is_some());
    assert!(info.nav_stat.is_some());
    let stamp = info.current_time.unwrap();
    assert_eq!((stamp.date.year, stamp.date.month, stamp.date.day), (2024, 5, 1));
    assert_eq!((stamp.time.hour, stamp.time.minute, stamp.time.second), (2, 55, 54));

    // A satellite report then a clock sentence populate the other groups,
    // so that one snapshot carries all three at once.
    info.update_from_nmea_sentence_at(&decode(PUBX03), today);
    info.update_from_nmea_sentence_at(&decode(PUBX04), today);
    assert_eq!(info.satellites.len(), 6);
    assert!(info.clock_bias.is_some());
    assert!(info.latitude.is_some());
    // The clock sentence's own date replaces the host-filled stamp.
    let stamp = info.current_time.unwrap();
    assert_eq!((stamp.date.year, stamp.date.month, stamp.date.day), (2002, 12, 9));
}

#[test]
fn aggregator_drops_other_sentence_kinds() {
    let mut info = GPSInfo::empty();
    let today = GpsDate { year: 2024, month: 5, day: 1 };
    let gsa = decode("$GNGSA,A,3,80,71,73,79,69,,,,,,,,1.83,1.09,1.47*17");
    info.update_from_nmea_sentence_at(&gsa, today);
    assert_eq!(info, GPSInfo::empty());
}

#[test]
fn shared_snapshot_groups_move_together() {
    let shared = GpsShared::new();
    assert!(!shared.has_lock());
    shared.apply(&decode(PUBX00));
    let snap = shared.snapshot();
    assert!(snap.satellites.is_empty());
    assert_eq!(snap.clock_bias, None);
    assert!(snap.nav_stat.is_some());
    assert!(!shared.has_lock());

    shared.apply(&decode(PUBX03));
    shared.apply(&decode(PUBX04));
    let snap = shared.snapshot();
    assert_eq!(snap.satellites.len(), 6);
    assert!(snap.clock_bias.is_some());
    assert!(snap.latitude.is_some());
}

#[test]
fn session_decides_each_read_outcome() {
    let shared = GpsShared::new();
    let mut session = GpsSession::new();
    assert_eq!(
        session.handle_event(&shared, ReadEvent::Data(PUBX00.as_bytes().to_vec())),
        ReadAction::Continue
    );
    assert!(shared.snapshot().nav_stat.is_some());
    assert_eq!(session.handle_event(&shared, ReadEvent::TimedOut), ReadAction::Continue);
    assert_eq!(session.handle_event(&shared, ReadEvent::Interrupted), ReadAction::Continue);
    assert_eq!(session.handle_event(&shared, ReadEvent::Eof), ReadAction::Stop);
    assert_eq!(session.handle_event(&shared, ReadEvent::BrokenPipe), ReadAction::Stop);
    assert_eq!(
        session.handle_event(&shared, ReadEvent::Failed(b"device fell over".to_vec())),
        ReadAction::StopWithError(b"device fell over".to_vec())
    );
}

#[test]
fn handshake_is_reset_then_disables_then_enables() {
    let frames = config_messages();
    assert_eq!(frames.len(), 23);
    // The software reset frame, checksum included.
    assert_eq!(frames[0], vec![0xB5, 0x62, 0x06, 0x04, 0x03, 0x00, 0x01, 0x00, 0x0E, 0x46]);
    // Every other frame configures one message's rate.
    for frame in &frames[1..20] {
        assert_eq!(&frame[..4], &[0xB5, 0x62, 0x06, 0x01]);
        assert_eq!(frame[5], 0xF0);
        assert_eq!(frame[7], 0x00);
    }
    for frame in &frames[20..23] {
        assert_eq!(frame[5], 0xF1);
        assert_eq!(frame[7], 0x01);
    }
}

#[test]
fn nav_status_codes_read_back() {
    assert_eq!(GpsNavigationStatus::from_str("NF").unwrap(), GpsNavigationStatus::NoFix);
    assert_eq!(GpsNavigationStatus::from_str("G3").unwrap(), GpsNavigationStatus::StandAlone3D);
    assert_eq!(GpsNavigationStatus::from_str("RK").unwrap(), GpsNavigationStatus::CombinedRKGPSDeadReckoning);
    assert!(GpsNavigationStatus::from_str("XX").is_err());
    assert!(GpsNavigationStatus::from_str("").is_err());
}

#[test]
fn faa_modes_read_back() {
    let m = FAAMode::from("A").unwrap();
    assert_eq!(m.mode_type, FAAModeType::Autonomous);
    assert_eq!(m.mode, "A");
    let m = FAAMode::from("U").unwrap();
    assert_eq!(m.mode_type, FAAModeType::Unsafe);
    assert!(FAAMode::from("Z").is_err());
    assert!(FAAMode::from("AA").is_err());
    let m = FAAMode::from_mode(&FAAModeType::RTKFloat);
    assert_eq!(m.mode, "F");
}

#[test]
fn from_bytes_classifies_each_line() {
    let chunks = NMEASentence::from_bytes(b"$PUBX,03,06,2,U\r\n137,37\r\n24,000*54");
    assert_eq!(chunks.len(), 3);
    assert!(matches!(&chunks[0], Err(NMEAError::PartialStart(v)) if v == b"$PUBX,03,06,2,U"));
    assert!(matches!(&chunks[1], Err(NMEAError::Partial(v)) if v == b"137,37"));
    assert!(matches!(&chunks[2], Err(NMEAError::PartialEnd(v)) if v == b"24,000*54"));
    let whole = NMEASentence::from_bytes(b"$PUBX,03,00*1C");
    assert_eq!(whole.len(), 1);
    assert!(matches!(&whole[0], Ok(ns) if ns.inner == b"$PUBX,03,00*1C"));
    let binary = NMEASentence::from_bytes(&[0xB5, 0x62, 0x01]);
    assert_eq!(binary.len(), 1);
    assert!(matches!(&binary[0], Err(NMEAError::InvalidData(_))));
}

#[test]
fn wall_clock_update_fills_a_real_date() {
    // The wall-clock path stamps the position report with the host's
    // date: some existing calendar day, paired with the sentence's time.
    let mut info = GPSInfo::empty();
    info.update_from_nmea_sentence(&decode(PUBX00));
    let stamp = info.current_time.unwrap();
    assert!((1..=12).contains(&stamp.date.month));
    assert!((1..=31).contains(&stamp.date.day));
    assert!(stamp.date.year >= 2020);
    assert_eq!((stamp.time.hour, stamp.time.minute, stamp.time.second), (2, 55, 54));
}
