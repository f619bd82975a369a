use sdmq::{
    crc32_ieee, Cursor, SdMessageBuilder, SdmqError, SdmqHeader, SdmqMsgType, SdmqPacket,
    SdmqPacketBuf, SdmqProto,
};

#[test]
fn crc_known_vector() {
    assert_eq!(crc32_ieee(b"123456789"), 0xCBF43926);
}

#[test]
fn crc_empty_input() {
    assert_eq!(crc32_ieee(b""), 0);
}

#[test]
fn round_trip_build_then_parse() {
    let mut pb = SdmqPacketBuf::<256>::new();
    pb.write_raw("sensors.kitchen.temp", b"21.5 C").unwrap();
    let frame = pb.as_slice();
    assert_eq!(frame.len(), 16 + 20 + 6);

    let parsed = SdmqProto::parse(frame).unwrap();
    assert_eq!(parsed.topic().as_bytes(), b"sensors.kitchen.temp");
    assert_eq!(parsed.data(), b"21.5 C");
    assert_eq!(parsed.header().topic_len, 20);
    assert_eq!(parsed.header().data_len, 6);
    assert_eq!(parsed.msg_type().unwrap(), SdmqMsgType::Push);
    assert!(parsed.verify().is_ok());
}

#[test]
fn builder_checksum_matches_independent_crc() {
    let mut pb = SdmqPacket::new();
    pb.write_raw("a.b", b"xyz").unwrap();
    let parsed = SdmqProto::parse(pb.as_slice()).unwrap();
    let mut joined = Vec::new();
    joined.extend_from_slice(b"a.b");
    joined.extend_from_slice(b"xyz");
    assert_eq!(parsed.header().hash, crc32_ieee(&joined));
}

#[test]
fn builder_phases_produce_wire_layout() {
    let builder = SdMessageBuilder::new(vec![0u8; 64]);
    let builder = builder.topic("t").unwrap();
    let builder = builder.write_raw(b"d").unwrap();
    let (frame, len) = builder.done(SdmqMsgType::Sub);
    assert_eq!(len, 18);
    assert_eq!(&frame[0..4], &[0xDE, 0xAD, 0xBE, 0xEF]);
    assert_eq!(&frame[8..10], &[0, 2]);
    assert_eq!(&frame[10..12], &[0, 1]);
    assert_eq!(&frame[12..16], &[0, 0, 0, 1]);
    assert_eq!(&frame[16..18], b"td");
    let mut joined = Vec::new();
    joined.extend_from_slice(b"td");
    let crc = crc32_ieee(&joined).to_be_bytes();
    assert_eq!(&frame[4..8], &crc);
}

#[test]
fn capacity_exceeded_is_reported() {
    let mut pb = SdmqPacketBuf::<20>::new();
    assert_eq!(
        pb.write_raw("topic", b"payload that cannot fit"),
        Err(SdmqError::CapacityExceeded)
    );
    assert!(pb.as_slice().is_empty());
    let builder = SdMessageBuilder::new(vec![0u8; 18]);
    let builder = builder.topic("ab").unwrap();
    assert!(matches!(builder.write_raw(b"c"), Err(SdmqError::CapacityExceeded)));
}

#[test]
fn oversized_lengths_are_clamped() {
    let mut buf = vec![];
    buf.extend_from_slice(&[0xDE, 0xAD, 0xBE, 0xEF]);
    buf.extend_from_slice(&[0, 0, 0, 0]);
    buf.extend_from_slice(&[0, 1]);
    buf.extend_from_slice(&[0, 4]);
    buf.extend_from_slice(&[0, 0, 3, 0xE8]);
    buf.extend_from_slice(b"temp");
    buf.extend_from_slice(b"only-16-bytes-he");
    let parsed = SdmqProto::parse(&buf).unwrap();
    assert_eq!(parsed.topic().as_bytes(), b"temp");
    assert_eq!(parsed.data(), b"only-16-bytes-he");
    assert_eq!(parsed.verify(), Err(SdmqError::TruncatedFrame));

    let mut short = vec![];
    short.extend_from_slice(&[0xDE, 0xAD, 0xBE, 0xEF]);
    short.extend_from_slice(&[0, 0, 0, 0]);
    short.extend_from_slice(&[0, 1]);
    short.extend_from_slice(&[0, 100]);
    short.extend_from_slice(&[0, 0, 0, 9]);
    short.extend_from_slice(b"ab");
    let parsed = SdmqProto::parse(&short).unwrap();
    assert_eq!(parsed.topic().as_bytes(), b"ab");
    assert_eq!(parsed.data(), b"");
}

#[test]
fn truncated_header_is_reported() {
    assert!(matches!(
        SdmqProto::parse(&[1, 2, 3]),
        Err(SdmqError::TruncatedHeader)
    ));
    assert!(matches!(
        SdmqHeader::parse(&[0; 15]),
        Err(SdmqError::TruncatedHeader)
    ));
}

#[test]
fn invalid_topic_encoding_is_reported() {
    let mut buf = vec![];
    buf.extend_from_slice(&[0xDE, 0xAD, 0xBE, 0xEF]);
    buf.extend_from_slice(&[0, 0, 0, 0]);
    buf.extend_from_slice(&[0, 1]);
    buf.extend_from_slice(&[0, 2]);
    buf.extend_from_slice(&[0, 0, 0, 0]);
    buf.extend_from_slice(&[0xFF, 0xFE]);
    assert!(matches!(
        SdmqProto::parse(&buf),
        Err(SdmqError::InvalidTopicEncoding)
    ));
}

#[test]
fn subscribe_frames_decode() {
    let builder = SdMessageBuilder::new(vec![0u8; 64]);
    let (frame, len) = builder
        .topic("devices.all")
        .unwrap()
        .write_raw(b"subscribe-me")
        .unwrap()
        .done(SdmqMsgType::Sub);
    let parsed = SdmqProto::parse(&frame[..len]).unwrap();
    assert_eq!(parsed.msg_type(), Ok(SdmqMsgType::Sub));

    let mut raw = vec![];
    raw.extend_from_slice(&[0xDE, 0xAD, 0xBE, 0xEF]);
    raw.extend_from_slice(&[0, 0, 0, 0]);
    raw.extend_from_slice(&[0, 2]);
    raw.extend_from_slice(&[0, 1]);
    raw.extend_from_slice(&[0, 0, 0, 0]);
    raw.extend_from_slice(b"t");
    let parsed = SdmqProto::parse(&raw).unwrap();
    assert_eq!(parsed.msg_type(), Ok(SdmqMsgType::Sub));
}

#[test]
fn unknown_message_kind_is_reported() {
    let mut pb = SdmqPacket::new();
    pb.write_raw("t", b"d").unwrap();
    let mut bytes = pb.as_slice().to_vec();
    bytes[9] = 0;
    let parsed = SdmqProto::parse(&bytes).unwrap();
    assert_eq!(parsed.msg_type(), Err(SdmqError::UnknownMessageKind));
}

#[test]
fn verify_reports_magic_and_checksum() {
    let mut pb = SdmqPacket::new();
    pb.write_raw("t", b"d").unwrap();

    let mut wrong_magic = pb.as_slice().to_vec();
    wrong_magic[0] = 0;
    let parsed = SdmqProto::parse(&wrong_magic).unwrap();
    assert_eq!(parsed.verify(), Err(SdmqError::InvalidMagic));

    let mut wrong_crc = pb.as_slice().to_vec();
    wrong_crc[4] ^= 0xFF;
    let parsed = SdmqProto::parse(&wrong_crc).unwrap();
    assert_eq!(parsed.verify(), Err(SdmqError::ChecksumMismatch));
}

#[test]
fn write_json_serializes_the_payload() {
    let mut pb = SdmqPacket::new();
    let value = serde_json::Value::String("on".to_string());
    pb.write_json("lights.porch", &value).unwrap();
    let parsed = SdmqProto::parse(pb.as_slice()).unwrap();
    assert_eq!(parsed.topic().as_bytes(), b"lights.porch");
    assert_eq!(parsed.data(), b"\"on\"");
    assert!(parsed.verify().is_ok());

    let mut map = serde_json::Map::new();
    map.insert(
        "temperature".to_string(),
        serde_json::Value::Number(serde_json::Number::from(23)),
    );
    let value = serde_json::Value::Object(map);
    pb.write_json("sensors", &value).unwrap();
    let parsed = SdmqProto::parse(pb.as_slice()).unwrap();
    assert_eq!(parsed.data(), b"{\"temperature\":23}");
}

#[test]
fn write_json_reports_capacity() {
    let mut pb = SdmqPacketBuf::<20>::new();
    let value = serde_json::Value::String("far too large to fit".to_string());
    assert_eq!(
        pb.write_json("topic", &value),
        Err(SdmqError::CapacityExceeded)
    );
    assert!(pb.as_slice().is_empty());
}

#[test]
fn end_to_end_push_frame() {
    let payload = b"{\"temperature\":23.3,\"pressure\":100545.33,\"humidity\":52.783203}";
    let mut buf = vec![];
    buf.extend_from_slice(&[0xDE, 0xAD, 0xBE, 0xEF]);
    buf.extend_from_slice(&[0, 0, 0, 0]);
    buf.extend_from_slice(&[0, 1]);
    buf.extend_from_slice(&[0, 4]);
    buf.extend_from_slice(&(payload.len() as u32).to_be_bytes());
    buf.extend_from_slice(b"temp");
    buf.extend_from_slice(payload);
    let parsed = SdmqProto::parse(&buf).unwrap();
    assert_eq!(parsed.msg_type().unwrap(), SdmqMsgType::Push);
    assert_eq!(parsed.topic().get(0), "temp");
    assert_eq!(parsed.data().len(), payload.len());
    assert_eq!(parsed.data(), payload);
    assert_eq!(parsed.data_to_vec(), payload.to_vec());
}

#[test]
fn header_write_then_parse_is_identity() {
    let header = SdmqHeader {
        magic: 0xDEADBEEF,
        hash: 0x12345678,
        options: 2,
        topic_len: 300,
        data_len: 70000,
    };
    let mut buf = vec![0u8; 20];
    header.write_to(&mut buf).unwrap();
    let parsed = SdmqHeader::parse(&buf).unwrap();
    assert_eq!(parsed, header);

    let mut small = vec![0u8; 10];
    assert_eq!(header.write_to(&mut small), Err(SdmqError::TruncatedHeader));
}

#[test]
fn cursor_reads_and_writes_big_endian() {
    let bytes: &[u8] = &[0x12, 0x34, 0x56, 0x78, 0x9A, 0xBC];
    let mut cursor = Cursor::new(bytes);
    assert_eq!(cursor.read_u16().unwrap(), 0x1234);
    assert_eq!(cursor.read_u32().unwrap(), 0x56789ABC);
    assert_eq!(cursor.read_u16(), Err(SdmqError::BufferUnderrun));

    let mut writer = Cursor::new(vec![0u8; 3]);
    writer.write_n([0xAB, 0xCD]).unwrap();
    assert_eq!(writer.write_n([1, 2]), Err(SdmqError::BufferOverrun));
    assert_eq!(writer.into_inner(), vec![0xAB, 0xCD, 0]);
}

#[test]
fn msg_type_network_order() {
    assert_eq!(SdmqMsgType::Push.to_network(), [0, 1]);
    assert_eq!(SdmqMsgType::Sub.to_network(), [0, 2]);
}

#[test]
fn default_packet_is_empty() {
    let pb: SdmqPacket = Default::default();
    assert!(pb.as_slice().is_empty());
}
