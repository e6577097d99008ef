use dns_decode::errors::DecodeError;
use dns_decode::question::{parse_question, parse_question_part, QClass, QType};

fn example_com_name() -> Vec<u8> {
    let mut buf = vec![7u8];
    buf.extend_from_slice(b"example");
    buf.push(3);
    buf.extend_from_slice(b"com");
    buf.push(0);
    buf
}

#[test]
fn question_decodes_example_com() {
    let mut buf = example_com_name();
    buf.extend_from_slice(&[0x00, 0x01, 0x00, 0x01]);
    let q = parse_question(&buf).unwrap();
    assert_eq!(q.qname, vec!["example".to_string(), "com".to_string()]);
    assert_eq!(q.qtype, QType::A);
    assert_eq!(q.qclass, QClass::IN);
    // the name's terminator sits at offset 12; the question runs to the end
    // of the class field, 5 bytes further
    assert_eq!(q.len, 17);
    assert_eq!(q.len, buf.len());
}

#[test]
fn empty_name_yields_no_labels() {
    let buf = [0u8, 0x00, 0x01, 0x00, 0x01];
    let q = parse_question(&buf).unwrap();
    assert!(q.qname.is_empty());
    assert_eq!(q.qtype, QType::A);
    assert_eq!(q.qclass, QClass::IN);
    assert_eq!(q.len, 5);
}

#[test]
fn question_part_reads_one_label() {
    let buf = example_com_name();
    let (n, s) = parse_question_part(&buf).unwrap();
    assert_eq!(n, 7);
    assert_eq!(s.unwrap(), "example");
    let (n, s) = parse_question_part(&buf[8..]).unwrap();
    assert_eq!(n, 3);
    assert_eq!(s.unwrap(), "com");
    let (n, s) = parse_question_part(&buf[12..]).unwrap();
    assert_eq!(n, 0);
    assert!(s.is_none());
}

#[test]
fn question_part_rejects_truncation() {
    assert_eq!(
        parse_question_part(&[]),
        Err(DecodeError::TruncatedQuestion)
    );
    assert_eq!(
        parse_question_part(&[5, b'a', b'b']),
        Err(DecodeError::TruncatedQuestion)
    );
}

#[test]
fn invalid_utf8_label_is_replaced_not_rejected() {
    let buf = [2u8, 0xFF, 0xFE, 0, 0x00, 0x01, 0x00, 0x01];
    let q = parse_question(&buf).unwrap();
    assert_eq!(q.qname, vec!["\u{FFFD}\u{FFFD}".to_string()]);
}

#[test]
fn qtype_codes_map_to_record_types() {
    assert_eq!(QType::from_u16(1), Some(QType::A));
    assert_eq!(QType::from_u16(2), Some(QType::NS));
    assert_eq!(QType::from_u16(5), Some(QType::CNAME));
    assert_eq!(QType::from_u16(6), Some(QType::SOA));
    assert_eq!(QType::from_u16(11), Some(QType::WKS));
    assert_eq!(QType::from_u16(12), Some(QType::PTR));
    assert_eq!(QType::from_u16(15), Some(QType::MX));
    assert_eq!(QType::from_u16(28), Some(QType::AAAA));
    assert_eq!(QType::from_u16(33), Some(QType::SRV));
    assert_eq!(QType::from_u16(255), Some(QType::ANY));
    assert_eq!(QType::from_u16(3), None);
    assert_eq!(QType::from_u16(999), None);
}

#[test]
fn qclass_codes_map_to_classes() {
    assert_eq!(QClass::from_u16(1), Some(QClass::IN));
    assert_eq!(QClass::from_u16(0), None);
    assert_eq!(QClass::from_u16(2), None);
}

#[test]
fn unknown_qtype_code_fails() {
    // type code 999 = 0x03E7, class IN
    let buf = [0u8, 0x03, 0xE7, 0x00, 0x01];
    assert_eq!(
        parse_question(&buf),
        Err(DecodeError::UnknownQueryType(999))
    );
}

#[test]
fn unknown_qclass_code_fails() {
    // type A, class code 0
    let buf = [0u8, 0x00, 0x01, 0x00, 0x00];
    assert_eq!(
        parse_question(&buf),
        Err(DecodeError::UnknownQueryClass(0))
    );
}

#[test]
fn truncated_question_fails() {
    assert_eq!(parse_question(&[]), Err(DecodeError::TruncatedQuestion));
    // label runs past the end of the buffer
    assert_eq!(
        parse_question(&[3, b'a']),
        Err(DecodeError::TruncatedQuestion)
    );
    // name never terminated
    assert_eq!(
        parse_question(&[1, b'a']),
        Err(DecodeError::TruncatedQuestion)
    );
    // terminator present but type and class missing
    assert_eq!(
        parse_question(&[0, 0x00, 0x01]),
        Err(DecodeError::TruncatedQuestion)
    );
}

#[test]
fn end_to_end_header_then_question() {
    let mut buf = vec![0x12u8, 0x34, 0x01, 0x00, 0, 1, 0, 0, 0, 0, 0, 0];
    buf.extend_from_slice(&example_com_name());
    buf.extend_from_slice(&[0x00, 0x01, 0x00, 0x01]);
    let h = dns_decode::header::Header::parse(&buf).unwrap();
    assert_eq!(h.id, 0x1234);
    assert_eq!(h.qr, dns_decode::header::QR::Query);
    assert_eq!(h.qdcount, 1);
    let q = parse_question(&buf[12..]).unwrap();
    assert_eq!(q.qname, vec!["example".to_string(), "com".to_string()]);
    assert_eq!(q.qtype, QType::A);
    assert_eq!(q.qclass, QClass::IN);
}
