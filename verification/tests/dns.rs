use wirekit::dns::packet::{
    append_label, BytesBuffer, DnsPacket, DnsQuestion, DnsRecord, PacketError, PacketHeader,
    QueryClass, QueryType, ResponseCode, MAX_JUMPS, PACKET_SIZE,
};

fn buffer_with(bytes: &[u8]) -> BytesBuffer {
    let mut buffer = BytesBuffer::new();
    buffer.buf[..bytes.len()].copy_from_slice(bytes);
    buffer
}

fn buffer_with_at(at: usize, bytes: &[u8]) -> BytesBuffer {
    let mut buffer = BytesBuffer::new();
    buffer.buf[at..at + bytes.len()].copy_from_slice(bytes);
    buffer
}

const QUERY: [u8; 28] = [
    0x1d, 0x49, 0x01, 0x00, 0x00, 0x01, 0x00, 0x00, 0x00, 0x00, 0x00, 0x00, 0x06, b'g', b'o',
    b'o', b'g', b'l', b'e', 0x03, b'c', b'o', b'm', 0x00, 0x00, 0x01, 0x00, 0x01,
];

const RESPONSE: [u8; 44] = [
    0x1d, 0x49, 0x81, 0x80, 0x00, 0x01, 0x00, 0x01, 0x00, 0x00, 0x00, 0x00, 0x06, b'g', b'o',
    b'o', b'g', b'l', b'e', 0x03, b'c', b'o', b'm', 0x00, 0x00, 0x01, 0x00, 0x01, 0xc0, 0x0c,
    0x00, 0x01, 0x00, 0x01, 0x00, 0x00, 0x00, 0x4d, 0x00, 0x04, 0xac, 0xd9, 0x03, 0x6e,
];

#[test]
fn converts_query_packet() {
    let mut query_buffer = buffer_with(&QUERY);

    let header = PacketHeader {
        id: 7497,
        qr: false,
        op_code: 0,
        aa: false,
        tc: false,
        rd: true,
        ra: false,
        z: false,
        r_code: ResponseCode::NOERROR,
        qd_count: 1,
        an_count: 0,
        ns_count: 0,
        ar_count: 0,
    };

    let q = DnsQuestion {
        qname: String::from("google.com"),
        qtype: QueryType::A,
        qclass: QueryClass::IN,
    };

    let packet = DnsPacket {
        header,
        questions: vec![q],
        answers: vec![],
        authorities: vec![],
        resources: vec![],
    };

    assert_eq!(DnsPacket::from_buf(&mut query_buffer).unwrap(), packet);
    assert_eq!(query_buffer.cur_pos(), 28);
}

#[test]
fn converts_answer_packet() {
    let mut response_buffer = buffer_with(&RESPONSE);

    let header = PacketHeader {
        id: 7497,
        qr: true,
        op_code: 0,
        aa: false,
        tc: false,
        rd: true,
        ra: true,
        z: false,
        r_code: ResponseCode::NOERROR,
        qd_count: 1,
        an_count: 1,
        ns_count: 0,
        ar_count: 0,
    };

    let q = DnsQuestion {
        qname: String::from("google.com"),
        qtype: QueryType::A,
        qclass: QueryClass::IN,
    };

    let rec = DnsRecord::A {
        domain: String::from("google.com"),
        ttl: 77,
        addr: [172, 217, 3, 110],
    };

    let packet = DnsPacket {
        header,
        questions: vec![q],
        answers: vec![rec],
        authorities: vec![],
        resources: vec![],
    };

    assert_eq!(DnsPacket::from_buf(&mut response_buffer).unwrap(), packet);
    assert_eq!(response_buffer.cur_pos(), 44);
}

#[test]
fn new_buffer_is_all_zero() {
    let buffer = BytesBuffer::new();
    assert_eq!(buffer.len(), 512);
    assert_eq!(PACKET_SIZE, 512);
    assert_eq!(buffer.cur_pos(), 0);
    assert!(buffer.buf.iter().all(|b| *b == 0));
    let mut bytes = [0u8; 512];
    bytes[3] = 9;
    let mut from = BytesBuffer::from_bytes(bytes);
    assert_eq!(from.cur_pos(), 0);
    assert_eq!(from.get(3), Ok(9));
}

#[test]
fn seek_and_get_stay_inside_the_buffer() {
    let mut buffer = buffer_with(&[7, 8, 9]);
    assert_eq!(buffer.seek(2), Ok(2));
    assert_eq!(buffer.cur_pos(), 2);
    assert_eq!(buffer.seek(511), Ok(511));
    assert_eq!(buffer.seek(512), Err(PacketError::PositionOutOfRange));
    assert_eq!(buffer.cur_pos(), 511);
    assert_eq!(buffer.seek(usize::MAX), Err(PacketError::PositionOutOfRange));
    assert_eq!(buffer.get(1), Ok(8));
    assert_eq!(buffer.get(511), Ok(0));
    assert_eq!(buffer.get(512), Err(PacketError::PositionOutOfRange));
    assert_eq!(buffer.cur_pos(), 511);
}

#[test]
fn read_moves_the_cursor_until_the_end() {
    let mut buffer = buffer_with_at(510, &[0xab, 0xcd]);
    buffer.seek(510).unwrap();
    assert_eq!(buffer.read(), Ok(0xab));
    assert_eq!(buffer.read(), Ok(0xcd));
    assert_eq!(buffer.cur_pos(), 512);
    assert_eq!(buffer.read(), Err(PacketError::EndOfBuffer));
    assert_eq!(buffer.cur_pos(), 512);
}

#[test]
fn read_u16_and_u32_are_big_endian() {
    let mut buffer = buffer_with(&[0x12, 0x34, 0xde, 0xad, 0xbe, 0xef]);
    assert_eq!(buffer.read_u16(), Ok(0x1234));
    assert_eq!(buffer.read_u32(), Ok(0xdeadbeef));
    assert_eq!(buffer.cur_pos(), 6);

    let mut buffer = buffer_with_at(510, &[0x12, 0x34]);
    buffer.seek(510).unwrap();
    assert_eq!(buffer.read_u16(), Ok(0x1234));
    assert_eq!(buffer.read_u16(), Err(PacketError::EndOfBuffer));

    buffer.seek(511).unwrap();
    assert_eq!(buffer.read_u16(), Err(PacketError::EndOfBuffer));
    assert_eq!(buffer.cur_pos(), 512);

    buffer.seek(509).unwrap();
    assert_eq!(buffer.read_u32(), Err(PacketError::EndOfBuffer));
    assert_eq!(buffer.cur_pos(), 512);
    buffer.seek(508).unwrap();
    assert_eq!(buffer.read_u32(), Ok(0x00001234));
}

#[test]
fn get_slice_ends_before_the_last_byte() {
    let mut buffer = buffer_with(&[1, 2, 3, 4]);
    assert_eq!(buffer.get_slice(1, 2), Ok(&[2u8, 3][..]));
    assert_eq!(buffer.get_slice(0, 0), Ok(&[][..]));
    assert_eq!(buffer.get_slice(500, 11).map(|s| s.len()), Ok(11));
    assert_eq!(buffer.get_slice(500, 12), Err(PacketError::SliceOutOfRange));
    assert_eq!(buffer.get_slice(511, 0), Ok(&[][..]));
    assert_eq!(buffer.get_slice(512, 0), Err(PacketError::SliceOutOfRange));
    assert_eq!(buffer.get_slice(usize::MAX, 2), Err(PacketError::SliceOutOfRange));
    assert_eq!(buffer.get_slice(2, usize::MAX), Err(PacketError::SliceOutOfRange));
    assert_eq!(buffer.cur_pos(), 0);
}

#[test]
fn writes_are_big_endian_and_stop_at_the_end() {
    let mut buffer = BytesBuffer::new();
    assert_eq!(buffer.write(0xaa), Ok(()));
    assert_eq!(buffer.write_u16(0x1234), Ok(()));
    assert_eq!(buffer.write_u32(0xdeadbeef), Ok(()));
    assert_eq!(&buffer.buf[..8], &[0xaa, 0x12, 0x34, 0xde, 0xad, 0xbe, 0xef, 0]);
    assert_eq!(buffer.cur_pos(), 7);

    buffer.seek(511).unwrap();
    assert_eq!(buffer.write_u16(0x5678), Err(PacketError::EndOfBuffer));
    assert_eq!(buffer.buf[511], 0x56);
    assert_eq!(buffer.cur_pos(), 512);
    assert_eq!(buffer.write(1), Err(PacketError::EndOfBuffer));
    assert_eq!(buffer.buf[511], 0x56);

    buffer.seek(510).unwrap();
    assert_eq!(buffer.write_u32(0x01020304), Err(PacketError::EndOfBuffer));
    assert_eq!(&buffer.buf[508..], &[0, 0, 0x01, 0x02]);
    assert_eq!(buffer.cur_pos(), 512);
    assert_eq!(buffer.write_u32(0x01020304), Err(PacketError::EndOfBuffer));
}

#[test]
fn header_flags_are_told_apart() {
    let mut buffer = buffer_with(&[
        0xff, 0xfe, 0xff, 0xc5, 0x00, 0x01, 0x00, 0x02, 0x00, 0x03, 0x00, 0x04,
    ]);
    let header = PacketHeader::from_buf(&mut buffer).unwrap();
    assert_eq!(
        header,
        PacketHeader {
            id: 0xfffe,
            qr: true,
            op_code: 15,
            aa: true,
            tc: true,
            rd: true,
            ra: true,
            z: true,
            r_code: ResponseCode::REFUSED,
            qd_count: 1,
            an_count: 2,
            ns_count: 3,
            ar_count: 4,
        }
    );
    assert_eq!(buffer.cur_pos(), 12);

    let mut buffer = buffer_with(&[0, 0, 0x28, 0x02]);
    let header = PacketHeader::from_buf(&mut buffer).unwrap();
    assert!(!header.qr && !header.aa && !header.tc && !header.rd && !header.ra && !header.z);
    assert_eq!(header.op_code, 5);
    assert_eq!(header.r_code, ResponseCode::SERVERFAIL);

    assert_eq!(PacketHeader::from_buf(&mut BytesBuffer::new()).unwrap(), PacketHeader::new());

    let mut short = BytesBuffer::new();
    short.seek(501).unwrap();
    assert_eq!(PacketHeader::from_buf(&mut short), Err(PacketError::EndOfBuffer));
    assert_eq!(short.cur_pos(), 512);
    short.seek(500).unwrap();
    assert!(PacketHeader::from_buf(&mut short).is_ok());
    assert_eq!(short.cur_pos(), 512);
}

#[test]
fn codes_types_and_classes_come_from_numbers() {
    assert_eq!(ResponseCode::from(0), ResponseCode::NOERROR);
    assert_eq!(ResponseCode::from(1), ResponseCode::FORMATERROR);
    assert_eq!(ResponseCode::from(2), ResponseCode::SERVERFAIL);
    assert_eq!(ResponseCode::from(3), ResponseCode::NAMEERROR);
    assert_eq!(ResponseCode::from(4), ResponseCode::NOTIMPL);
    assert_eq!(ResponseCode::from(5), ResponseCode::REFUSED);
    assert_eq!(ResponseCode::from(6), ResponseCode::NOERROR);
    assert_eq!(ResponseCode::from(255), ResponseCode::NOERROR);
    assert_eq!(QueryType::from(1), QueryType::A);
    assert_eq!(QueryType::from(28), QueryType::UNIMPL(28));
    assert_eq!(QueryType::from(0), QueryType::UNIMPL(0));
    assert_eq!(QueryClass::from(1), QueryClass::IN);
    assert_eq!(QueryClass::from(3), QueryClass::UNIMPL(3));
}

#[test]
fn names_are_lowered_and_joined_with_dots() {
    let mut buffer = buffer_with(&[3, b'W', b'w', b'W', 7, b'E', b'x', b'a', b'm', b'p', b'l', b'E', 0, 9]);
    assert_eq!(buffer.get_qname().unwrap(), "www.example");
    assert_eq!(buffer.cur_pos(), 13);

    let mut root = buffer_with(&[0, 1]);
    assert_eq!(root.get_qname().unwrap(), "");
    assert_eq!(root.cur_pos(), 1);

    let mut lossy = buffer_with(&[2, 0xff, b'A', 0]);
    assert_eq!(lossy.get_qname().unwrap(), "\u{fffd}a");
}

#[test]
fn names_follow_pointers() {
    let mut bytes = vec![0u8; 40];
    bytes[10..15].copy_from_slice(&[3, b'c', b'o', b'm', 0]);
    bytes[20..25].copy_from_slice(&[1, b'a', 0xc0, 10, 0xee]);
    bytes[30..32].copy_from_slice(&[0xc0, 20]);
    let mut buffer = buffer_with(&bytes);

    buffer.seek(20).unwrap();
    assert_eq!(buffer.get_qname().unwrap(), "a.com");
    assert_eq!(buffer.cur_pos(), 24);

    buffer.seek(30).unwrap();
    assert_eq!(buffer.get_qname().unwrap(), "a.com");
    assert_eq!(buffer.cur_pos(), 24);
}

#[test]
fn names_that_leave_the_buffer_are_refused() {
    let mut circle = buffer_with(&[0xc0, 0x00]);
    assert_eq!(circle.get_qname(), Err(PacketError::CircularName));
    assert_eq!(circle.cur_pos(), 2);
    assert_eq!(MAX_JUMPS, 512);

    let mut two = buffer_with(&[0xc0, 0x02, 0xc0, 0x00]);
    assert_eq!(two.get_qname(), Err(PacketError::CircularName));

    let mut far = buffer_with(&[0xc2, 0x00]);
    assert_eq!(far.get_qname(), Err(PacketError::PositionOutOfRange));
    assert_eq!(far.cur_pos(), 2);

    let mut long_label = buffer_with_at(500, &[20]);
    long_label.seek(500).unwrap();
    assert_eq!(long_label.get_qname(), Err(PacketError::SliceOutOfRange));
    assert_eq!(long_label.cur_pos(), 500);

    let mut open = BytesBuffer::new();
    open.buf = [1u8; 512];
    assert_eq!(open.get_qname(), Err(PacketError::SliceOutOfRange));
    assert_eq!(open.cur_pos(), 0);

    let mut late_pointer = buffer_with_at(510, &[0xc0, 0x00]);
    late_pointer.seek(510).unwrap();
    assert_eq!(late_pointer.get_qname(), Err(PacketError::PositionOutOfRange));
    assert_eq!(late_pointer.cur_pos(), 510);

    let mut name_to_the_end = buffer_with_at(509, &[1, b'x', 0]);
    name_to_the_end.seek(509).unwrap();
    assert_eq!(name_to_the_end.get_qname().unwrap(), "x");
    assert_eq!(name_to_the_end.cur_pos(), 509);
}

#[test]
fn labels_are_appended_with_dots_between() {
    let mut name = String::new();
    append_label(&mut name, true, "www");
    assert_eq!(name, "www");
    append_label(&mut name, false, "example");
    assert_eq!(name, "www.example");
    append_label(&mut name, false, "");
    assert_eq!(name, "www.example.");
    append_label(&mut name, true, "x");
    assert_eq!(name, "www.example.x");
}

#[test]
fn questions_and_records_are_read_in_turn() {
    let mut buffer = buffer_with(&[1, b'a', 0, 0x00, 0x1c, 0x00, 0x03, 0xff]);
    assert_eq!(
        DnsQuestion::from_buf(&mut buffer).unwrap(),
        DnsQuestion::new("a".to_string(), QueryType::UNIMPL(28), QueryClass::UNIMPL(3))
    );
    assert_eq!(buffer.cur_pos(), 7);

    let mut buffer = buffer_with(&[
        1, b'a', 0, 0x00, 0x05, 0x00, 0x01, 0x00, 0x00, 0x01, 0x00, 0x00, 0x09, 1, 2, 3,
    ]);
    assert_eq!(
        DnsRecord::from_buf(&mut buffer).unwrap(),
        DnsRecord::UNIMPL {
            domain: "a".to_string(),
            qtype: QueryType::UNIMPL(5),
            data_len: 9,
            ttl: 256,
        }
    );
    assert_eq!(buffer.cur_pos(), 13);

    let record = [0, 0x00, 0x01, 0x00, 0x01, 0, 0, 0, 1, 0, 4, 9, 8, 7, 6];
    let mut fits = buffer_with_at(497, &record);
    fits.seek(497).unwrap();
    assert_eq!(
        DnsRecord::from_buf(&mut fits).unwrap(),
        DnsRecord::A { domain: String::new(), addr: [9, 8, 7, 6], ttl: 1 }
    );
    assert_eq!(fits.cur_pos(), 512);

    let mut cut = buffer_with_at(498, &record[..14]);
    cut.seek(498).unwrap();
    assert_eq!(DnsRecord::from_buf(&mut cut), Err(PacketError::EndOfBuffer));
    assert_eq!(cut.cur_pos(), 512);

    let mut short = BytesBuffer::new();
    short.seek(509).unwrap();
    assert_eq!(DnsQuestion::from_buf(&mut short), Err(PacketError::EndOfBuffer));
    assert_eq!(short.cur_pos(), 512);
}

#[test]
fn packet_reading_stops_at_the_first_failure() {
    let mut bytes = QUERY.to_vec();
    bytes[5] = 2;
    bytes.extend_from_slice(&[0xc0, 0x1c]);
    let mut buffer = buffer_with(&bytes);
    assert_eq!(DnsPacket::from_buf(&mut buffer), Err(PacketError::CircularName));
    assert_eq!(buffer.cur_pos(), 30);

    let empty = DnsPacket::new();
    assert_eq!(empty.header, PacketHeader::new());
    assert!(empty.questions.is_empty() && empty.answers.is_empty());
    assert!(empty.authorities.is_empty() && empty.resources.is_empty());
    assert_eq!(DnsPacket::from_buf(&mut BytesBuffer::new()).unwrap(), empty);
}

#[test]
fn packet_errors_read_as_text() {
    assert_eq!(PacketError::PositionOutOfRange.to_string(), "pos exceeded buffer length");
    assert_eq!(PacketError::EndOfBuffer.to_string(), "End of buffer");
    assert_eq!(PacketError::SliceOutOfRange.to_string(), "pos + len exceeded buffer length");
    assert_eq!(PacketError::CircularName.to_string(), "name runs in a circle");
}
