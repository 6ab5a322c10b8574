use dns_tunnel_lib::error::DecodeError;
use dns_tunnel_lib::question::Question;
use dns_tunnel_lib::record_type::ResourceRecordType;

#[test]
fn test_new() {
    let q = Question::new("google.com", 16, 1);
    let expected_frame: Vec<u8> = vec![
        6, 0x67, 0x6f, 0x6f, 0x67, 0x6c, 0x65,
        3, 0x63, 0x6f, 0x6d,
        0,
        0x00, 0x10,
        0x00, 0x01
    ];
    assert_eq!(*q.frame(), expected_frame);
}

#[test]
fn test_read() {
    let expected_frame: Vec<u8> = vec![
        6, 0x67, 0x6f, 0x6f, 0x67, 0x6c, 0x65,
        3, 0x63, 0x6f, 0x6d,
        0,
        0x00, 0x10,
        0x00, 0x01
    ];
    let mut reader = expected_frame.clone();
    reader.append(&mut vec![0 as u8; 10]);
    let question = Question::read(reader.as_slice()).unwrap();
    assert_eq!(*question.frame(), expected_frame);
    println!("reader = {:?}", reader);
    println!("expected_frame = {:?}", expected_frame);
}

#[test]
fn test_qname() {
    let q = Question::new("my.url.de", 0, 0);
    assert_eq!(q.get_qname(), "my.url.de".to_string());
}

#[test]
fn qname_has_no_trailing_dot() {
    let q = Question::new("a", 1, 1);
    assert_eq!(q.get_qname(), "a");
    let q = Question::new("www.example.org", 1, 1);
    assert_eq!(q.get_qname(), "www.example.org");
}

#[test]
fn qtype_and_qclass_read_back() {
    let q = Question::new("google.com", 16, 1);
    assert_eq!(q.get_qtype(), 16);
    assert_eq!(q.get_qclass(), 1);
    let q = Question::new("x", 0xABCD, 0x0102);
    assert_eq!(*q.frame(), vec![1, b'x', 0, 0xAB, 0xCD, 0x01, 0x02]);
    assert_eq!(q.get_qtype(), 0xABCD);
    assert_eq!(q.get_qclass(), 0x0102);
}

#[test]
fn empty_labels_are_written_as_zero_lengths() {
    let q = Question::new("", 1, 2);
    assert_eq!(*q.frame(), vec![0, 0, 0, 1, 0, 2]);
    assert_eq!(q.get_qname(), "");
    let q = Question::new("a..b", 0, 0);
    assert_eq!(*q.frame(), vec![1, b'a', 0, 1, b'b', 0, 0, 0, 0, 0]);
    assert_eq!(q.get_qname(), "a");
}

#[test]
fn read_then_decode_name_and_type() {
    let bytes: Vec<u8> = vec![2, b'm', b'y', 3, b'u', b'r', b'l', 2, b'd', b'e', 0, 0, 28, 0, 1, 99];
    let q = Question::read(bytes.as_slice()).unwrap();
    assert_eq!(q.frame().len(), 15);
    assert_eq!(q.get_qname(), "my.url.de");
    assert_eq!(q.get_qtype(), 28);
    assert_eq!(q.get_qclass(), 1);
}

#[test]
fn read_root_name() {
    let q = Question::read(&[0u8, 0, 1, 0, 1]).unwrap();
    assert_eq!(q.get_qname(), "");
    assert_eq!(q.get_qtype(), 1);
}

#[test]
fn read_truncated_inputs_fail() {
    let cases: Vec<Vec<u8>> = vec![
        vec![],
        vec![3, b'c', b'o', b'm'],
        vec![3, b'c', b'o'],
        vec![3, b'c', b'o', b'm', 0],
        vec![3, b'c', b'o', b'm', 0, 0, 1, 0],
        vec![0, 0, 1],
    ];
    for c in cases {
        match Question::read(c.as_slice()) {
            Err(e) => assert_eq!(e, DecodeError::TruncatedInput),
            Ok(_) => panic!("decoded a truncated question: {:?}", c),
        }
    }
}

#[test]
fn read_round_trips_new() {
    let q = Question::new("mail.example.com", 15, 1);
    let mut bytes = q.frame().clone();
    bytes.extend_from_slice(&[1, 2, 3]);
    let r = Question::read(bytes.as_slice()).unwrap();
    assert_eq!(r.frame(), q.frame());
    assert_eq!(r.get_qname(), "mail.example.com");
}

#[test]
fn resource_record_type_codes() {
    assert_eq!(ResourceRecordType::A.code(), 1);
    assert_eq!(ResourceRecordType::NULL.code(), 10);
    assert_eq!(ResourceRecordType::TXT.code(), 16);
    for c in 1u16..=16 {
        assert_eq!(ResourceRecordType::from_code(c).unwrap().code(), c);
    }
    assert_eq!(ResourceRecordType::from_code(0), None);
    assert_eq!(ResourceRecordType::from_code(17), None);
}
