use mic2::ubx::ClassField;
use mic2::ubx::Error;
use mic2::ubx::PacketHeader;

fn generate_header() -> PacketHeader {
    let raw_bytes = [0xB5, 0x62, 0x05, 0x01, 0x02, 0x05, 0x01, 0x25, 0x6D];
    let header = PacketHeader::from_bytes(&raw_bytes).unwrap();
    assert_eq!(
        header,
        PacketHeader {
            header: [0xB5, 0x62],
            class: ClassField::try_from(0x05).unwrap(),
            id: 0x1,
            payload: vec![0x05, 0x01],
            ck_a: 0x25,
            ck_b: 0x6D,
        }
    );
    assert_eq!(raw_bytes.as_slice(), header.data(true).as_slice());
    header
}

#[test]
fn test_packet_header() {
    generate_header();
}

#[test]
fn test_valid_packet_header_from_bytes() {
    let raw_bytes = [
        0xB5, 0x62, // sync word
        0x05, // class (ACK)
        0x01, // id
        0x02, // payload length
        0x05, // payload
        0x01, // payload
        0x0,  // ck_a
        0x0,  // ck_b
    ];
    let header = PacketHeader::from_bytes(&raw_bytes).unwrap();
    assert_eq!(
        header,
        PacketHeader {
            header: [0xB5, 0x62],
            class: ClassField::ACK,
            id: 0x1,
            payload: vec![0x05, 0x01],
            ck_a: 0x0,
            ck_b: 0x0,
        }
    );
}

#[test]
fn test_bad_checksum() {
    let mut header = generate_header();
    // lets corrupt the checksum
    header.ck_a = 0xDE;
    header.ck_b = 0xAD;
    assert!(header.verify_checksum().is_err());
}

#[test]
fn test_bad_data_checksum() {
    let mut header = generate_header();
    // lets corrupt the data
    header.payload = vec![0, 1, 2, 3, 4, 5, 6, 7];
    assert!(header.verify_checksum().is_err());
}

#[test]
fn correct_fletcher_pair_accepts_and_any_flip_rejects() {
    // The running checksum over class, id, length and payload of
    // [0x05, 0x01, 0x02, 0x05, 0x01] is (0x0E, 0x2E).
    let good = [0xB5, 0x62, 0x05, 0x01, 0x02, 0x05, 0x01, 0x0E, 0x2E];
    let header = PacketHeader::from_bytes(&good).unwrap();
    assert_eq!(header.checksum(), (0x0E, 0x2E));
    assert!(header.verify_checksum().is_ok());

    // Flipping either checksum byte is rejected.
    let mut bad_a = good;
    bad_a[7] ^= 0xFF;
    assert!(PacketHeader::from_bytes(&bad_a).unwrap().verify_checksum().is_err());
    let mut bad_b = good;
    bad_b[8] ^= 0xFF;
    assert!(PacketHeader::from_bytes(&bad_b).unwrap().verify_checksum().is_err());

    // Flipping any payload byte is rejected too.
    for i in 5..7 {
        let mut bad = good;
        bad[i] ^= 0xFF;
        assert!(PacketHeader::from_bytes(&bad).unwrap().verify_checksum().is_err());
    }
}

#[test]
fn malformed_headers_are_rejected() {
    // Wrong sync word.
    let raw = [0xA5, 0x62, 0x05, 0x01, 0x02, 0x05, 0x01, 0x0, 0x0];
    assert!(PacketHeader::from_bytes(&raw).is_err());
    // Unknown class byte.
    let raw = [0xB5, 0x62, 0x7F, 0x01, 0x02, 0x05, 0x01, 0x0, 0x0];
    assert!(matches!(PacketHeader::from_bytes(&raw), Err(Error::MalformedHeader(_))));
    // Truncated payload.
    let raw = [0xB5, 0x62, 0x05, 0x01, 0x08, 0x05, 0x01, 0x0, 0x0];
    assert!(PacketHeader::from_bytes(&raw).is_err());
}

#[test]
fn class_field_wire_values_round_trip() {
    for value in [0x01u8, 0x02, 0x04, 0x05, 0x06, 0x0A, 0x0B, 0x0D, 0x10] {
        let class = ClassField::try_from(value).unwrap();
        assert_eq!(class.value(), value);
    }
    for value in 0x11..0xFF {
        assert!(ClassField::try_from(value).is_err());
    }
    assert!(ClassField::try_from(0x03).is_err());
}

#[test]
fn built_packet_serializes_with_its_checksum() {
    let packet = PacketHeader::new(ClassField::CFG, 0x04, vec![0x00, 0x01, 0x00], true);
    let bytes = packet.data(true);
    assert_eq!(bytes, vec![0xB5, 0x62, 0x06, 0x04, 0x03, 0x00, 0x01, 0x00, 0x0E, 0x46]);
    assert!(packet.verify_checksum().is_ok());
}
