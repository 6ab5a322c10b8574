use dns_tunnel_lib::error::DecodeError;
use dns_tunnel_lib::header::{Header, OpCode, RCode, FLAGS_POS};

#[test]
fn header_test_id() {
    let mut header = Header::default();
    header.frame[0] = 10;
    header.frame[1] = 32;
    assert_eq!(header.get_id(), 2592);
    header.set_id(1000);
    assert_eq!(header.get_id(), 1000)
}

#[test]
fn header_test_qr() {
    let mut qr_true = Header::default();
    qr_true.frame[2] = 0b1000_0000;
    assert_eq!(qr_true.get_qr(), true);
    assert_eq!(Header::default().get_qr(), false);

    let mut header = Header::default();
    header.set_qr(false);
    assert_eq!(header.get_qr(), false);
    header.set_qr(true);
    assert_eq!(header.get_qr(), true);
}

#[test]
fn header_test_op_code() {
    assert_eq!(Header::default().get_op_code(), OpCode::QUERY);
    let mut header = Header::default();
    header.frame[FLAGS_POS] = 1 << 3;
    assert_eq!(header.get_op_code(), OpCode::IQUERY);
    header.frame[FLAGS_POS] = 2 << 3;
    assert_eq!(header.get_op_code(), OpCode::STATUS);
    header.frame[FLAGS_POS] = 3 << 3;
    assert_eq!(header.get_op_code(), OpCode::RESERVED);
    header.frame[FLAGS_POS] = 4 << 3;
    assert_eq!(header.get_op_code(), OpCode::RESERVED);

    header = Header::default();
    header.set_op_code(OpCode::QUERY);
    assert_eq!(header.get_op_code(), OpCode::QUERY);
    header.set_op_code(OpCode::IQUERY);
    assert_eq!(header.get_op_code(), OpCode::IQUERY);
    header.set_op_code(OpCode::STATUS);
    assert_eq!(header.get_op_code(), OpCode::STATUS);
    header.set_op_code(OpCode::RESERVED);
    assert_eq!(header.get_op_code(), OpCode::RESERVED);
}

#[test]
fn test_get_bit_flag() {
    let mut header = Header::default();
    header.frame[0] = 0b11001010;
    assert_eq!(header.get_flag_bit(0, 0), true);
    assert_eq!(header.get_flag_bit(0, 1), true);
    assert_eq!(header.get_flag_bit(0, 2), false);
    assert_eq!(header.get_flag_bit(0, 3), false);
    assert_eq!(header.get_flag_bit(0, 4), true);
    assert_eq!(header.get_flag_bit(0, 5), false);
    assert_eq!(header.get_flag_bit(0, 6), true);
    assert_eq!(header.get_flag_bit(0, 7), false);
}

#[test]
fn test_set_bit_flag() {
    let mut header = Header::default();
    for i in 0..2 {
        for bit_pos in 0..7 {
            header.set_flag_bit(i, bit_pos, true);
            assert_eq!(header.get_flag_bit(i, bit_pos), true);
            header.set_flag_bit(i, bit_pos, false);
            assert_eq!(header.get_flag_bit(i, bit_pos), false);
        }
    }
}

fn snapshot(h: &Header) -> (u16, bool, OpCode, bool, bool, bool, bool, Option<RCode>, u16, u16, u16, u16) {
    (
        h.get_id(),
        h.get_qr(),
        h.get_op_code(),
        h.get_aa(),
        h.get_tc(),
        h.get_rd(),
        h.get_ra(),
        h.get_rcode(),
        h.get_qdcount(),
        h.get_ancount(),
        h.get_anscount(),
        h.get_arscount(),
    )
}

fn sample_header() -> Header {
    let bytes: Vec<u8> = vec![0x12, 0x34, 0b1010_1010, 0b0101_0011, 0, 1, 0, 2, 0, 3, 0, 4];
    Header::read(bytes.as_slice()).unwrap()
}

#[test]
fn u16_fields_round_trip_edge_values() {
    for v in [0u16, 1, 255, 256, 2592, 0x8000, 0xFFFF] {
        let mut h = sample_header();
        h.set_id(v);
        assert_eq!(h.get_id(), v);
        h.set_qdcount(v);
        assert_eq!(h.get_qdcount(), v);
        h.set_ancount(v);
        assert_eq!(h.get_ancount(), v);
        h.set_nscount(v);
        assert_eq!(h.get_anscount(), v);
        h.set_nrcount(v);
        assert_eq!(h.get_arscount(), v);
    }
}

#[test]
fn u16_field_set_touches_only_its_window() {
    let mut h = sample_header();
    h.set_ancount(0xBEEF);
    assert_eq!(h.frame, [0x12, 0x34, 0b1010_1010, 0b0101_0011, 0, 1, 0xBE, 0xEF, 0, 3, 0, 4]);
    let mut h = sample_header();
    h.set_nrcount(0x0102);
    assert_eq!(h.frame[10], 1);
    assert_eq!(h.frame[11], 2);
    assert_eq!(&h.frame[..10], &sample_header().frame[..10]);
}

#[test]
fn flag_set_changes_only_that_flag() {
    for b in [false, true] {
        let base = snapshot(&sample_header());

        let mut h = sample_header();
        h.set_qr(b);
        assert_eq!(h.get_qr(), b);
        let mut expected = base.clone();
        expected.1 = b;
        assert_eq!(snapshot(&h), expected);

        let mut h = sample_header();
        h.set_add(b);
        assert_eq!(h.get_aa(), b);
        let mut expected = base.clone();
        expected.3 = b;
        assert_eq!(snapshot(&h), expected);

        let mut h = sample_header();
        h.set_tc(b);
        assert_eq!(h.get_tc(), b);
        let mut expected = base.clone();
        expected.4 = b;
        assert_eq!(snapshot(&h), expected);

        let mut h = sample_header();
        h.set_rd(b);
        assert_eq!(h.get_rd(), b);
        let mut expected = base.clone();
        expected.5 = b;
        assert_eq!(snapshot(&h), expected);

        let mut h = sample_header();
        h.set_ra(b);
        assert_eq!(h.get_ra(), b);
        let mut expected = base.clone();
        expected.6 = b;
        assert_eq!(snapshot(&h), expected);
    }
}

#[test]
fn flag_bit_positions_on_the_wire() {
    let mut h = Header::default();
    h.set_qr(true);
    assert_eq!(h.frame[2], 0b1000_0000);
    h.set_add(true);
    assert_eq!(h.frame[2], 0b1000_0100);
    h.set_tc(true);
    assert_eq!(h.frame[2], 0b1000_0110);
    h.set_rd(true);
    assert_eq!(h.frame[2], 0b1000_0111);
    h.set_ra(true);
    assert_eq!(h.frame[3], 0b1000_0000);
    h.set_tc(false);
    assert_eq!(h.frame[2], 0b1000_0101);
}

#[test]
fn op_code_high_values_are_reserved() {
    for v in 3u8..=15 {
        assert_eq!(OpCode::from_u8(v), OpCode::RESERVED);
    }
    assert_eq!(OpCode::from_u8(255), OpCode::RESERVED);
    let mut h = Header::default();
    h.frame[FLAGS_POS] = 0b1111_1111;
    assert_eq!(h.get_op_code(), OpCode::RESERVED);
    assert_eq!(OpCode::STATUS.to_u8(), 2);
}

#[test]
fn set_op_code_keeps_flag_bits() {
    let mut h = Header::default();
    h.frame[FLAGS_POS] = 0b1111_1111;
    h.set_op_code(OpCode::IQUERY);
    assert_eq!(h.frame[FLAGS_POS], 0b1000_1111);
    assert_eq!(h.get_op_code(), OpCode::IQUERY);
    assert!(h.get_qr() && h.get_aa() && h.get_tc() && h.get_rd());
}

#[test]
fn rcode_round_trip_and_unnamed_values() {
    let all = [
        RCode::NoError,
        RCode::FormatError,
        RCode::ServerFailure,
        RCode::NameError,
        RCode::NotImplemented,
        RCode::Refused,
    ];
    for (v, rc) in all.iter().enumerate() {
        assert_eq!(RCode::from_u8(v as u8), Some(*rc));
        assert_eq!(rc.to_u8(), v as u8);
        let mut h = Header::default();
        h.frame[FLAGS_POS + 1] = 0b1111_0000;
        h.set_rcode(*rc);
        assert_eq!(h.get_rcode(), Some(*rc));
        assert_eq!(h.frame[FLAGS_POS + 1], 0b1111_0000 | v as u8);
        assert!(h.get_ra());
    }
    for v in 6u8..=15 {
        assert_eq!(RCode::from_u8(v), None);
        let mut h = Header::default();
        h.frame[FLAGS_POS + 1] = v;
        assert_eq!(h.get_rcode(), None);
    }
}

#[test]
fn header_read_takes_first_twelve_bytes() {
    let bytes: Vec<u8> = (1u8..=20).collect();
    let h = Header::read(bytes.as_slice()).unwrap();
    assert_eq!(h.frame, [1, 2, 3, 4, 5, 6, 7, 8, 9, 10, 11, 12]);
    assert_eq!(h.get_id(), 0x0102);
    assert_eq!(h.get_arscount(), 0x0B0C);
    let h = sample_header();
    assert_eq!(h.get_id(), 0x1234);
    assert_eq!(h.get_qdcount(), 1);
    assert_eq!(h.get_ancount(), 2);
    assert_eq!(h.get_anscount(), 3);
    assert_eq!(h.get_arscount(), 4);
    assert_eq!(h.get_qr(), true);
    assert_eq!(h.get_op_code(), OpCode::RESERVED);
    assert_eq!(h.get_aa(), false);
    assert_eq!(h.get_tc(), true);
    assert_eq!(h.get_rd(), false);
    assert_eq!(h.get_ra(), false);
    assert_eq!(h.get_rcode(), Some(RCode::NameError));
}

#[test]
fn header_read_short_input_is_truncated() {
    for n in 0..12 {
        let bytes = vec![7u8; n];
        assert_eq!(Header::read(bytes.as_slice()).err(), Some(DecodeError::TruncatedInput));
    }
    assert!(Header::read(&[0u8; 12]).is_ok());
}

#[test]
fn default_header_is_all_zero() {
    assert_eq!(Header::default().frame, [0u8; 12]);
}
