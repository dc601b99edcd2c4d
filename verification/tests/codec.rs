use kraken::error::{is_decoder_exception, ErrorClass, PacketError, PacketLabel};
use kraken::viakraken::utils::{
    json_escape, packet_id, read_bool_from_slice, read_packet, read_string_from_slice,
    read_varint, read_varint_from_slice, write_framed_payload, write_packet, write_string,
    write_unsigned_varint, write_varint, write_varint_buffer, ByteBuffer, MAX_PACKET_LEN,
};

fn varint(value: i32) -> Vec<u8> {
    let mut buf = Vec::new();
    write_varint(&mut buf, value);
    buf
}

#[test]
fn varints_have_seven_bits_to_a_byte() {
    assert_eq!(varint(0), vec![0]);
    assert_eq!(varint(127), vec![0x7f]);
    assert_eq!(varint(128), vec![0x80, 0x01]);
    assert_eq!(varint(25565), vec![0xdd, 0xc7, 0x01]);
    assert_eq!(varint(2147483647), vec![0xff, 0xff, 0xff, 0xff, 0x07]);
    assert_eq!(varint(-1), vec![0xff, 0xff, 0xff, 0xff, 0x0f]);
    let mut buf = vec![9];
    write_unsigned_varint(&mut buf, 300);
    assert_eq!(buf, vec![9, 0xac, 0x02]);
}

#[test]
fn varints_round_trip() {
    for value in [0, 1, -1, 127, 128, 300, 2097151, i32::MAX, i32::MIN] {
        let mut data = vec![0xaa];
        write_varint(&mut data, value);
        data.push(0xbb);
        let mut offset = 1;
        assert_eq!(read_varint_from_slice(&data, &mut offset), Ok(value));
        assert_eq!(offset, data.len() - 1);
        let mut taken = Vec::new();
        for (i, byte) in data[1..data.len() - 1].iter().enumerate() {
            let step = read_varint(&mut taken, *byte);
            if i + 2 < data.len() - 1 {
                assert!(step.is_none());
            } else {
                assert_eq!(step, Some(Ok(value)));
            }
        }
    }
}

#[test]
fn bad_varints_are_refused() {
    let mut offset = 0;
    assert_eq!(read_varint_from_slice(&[], &mut offset), Err(PacketError::VarIntEof));
    offset = 0;
    assert_eq!(read_varint_from_slice(&[0x80], &mut offset), Err(PacketError::VarIntEof));
    offset = 0;
    let long = [0x80, 0x80, 0x80, 0x80, 0x80, 0x01];
    assert_eq!(read_varint_from_slice(&long, &mut offset), Err(PacketError::VarIntTooBig));
    assert_eq!(packet_id(&[0x2a, 1]), Ok(42));
    assert_eq!(packet_id(&[]), Err(PacketError::VarIntEof));
}

#[test]
fn strings_round_trip() {
    for text in ["", "Kraken", "\u{e9}\u{1f419}"] {
        let mut data = Vec::new();
        write_string(&mut data, text).unwrap();
        assert_eq!(data.len(), text.len() + 1);
        let mut offset = 0;
        assert_eq!(read_string_from_slice(&data, &mut offset), Ok(text.to_string()));
        assert_eq!(offset, data.len());
    }
}

#[test]
fn bad_strings_are_refused() {
    let read = |data: &[u8]| {
        let mut offset = 0;
        read_string_from_slice(data, &mut offset)
    };
    assert_eq!(read(&varint(-1)), Err(PacketError::NegativeStringLength));
    assert_eq!(read(&[3, b'a', b'b']), Err(PacketError::StringTruncated));
    assert_eq!(read(&[1, 0xff]), Err(PacketError::InvalidUtf8));
    assert_eq!(read(&[]), Err(PacketError::VarIntEof));
}

#[test]
fn booleans_are_zero_or_one() {
    let read = |data: &[u8]| {
        let mut offset = 0;
        read_bool_from_slice(data, &mut offset)
    };
    assert_eq!(read(&[0]), Ok(false));
    assert_eq!(read(&[1]), Ok(true));
    assert_eq!(read(&[2]), Err(PacketError::InvalidBool(2)));
    assert_eq!(read(&[]), Err(PacketError::BoolEof));
}

#[test]
fn frames_carry_their_length() {
    let frame = write_framed_payload(&[1, 2, 3]).unwrap();
    assert_eq!(frame.as_slice(), &[3, 1, 2, 3]);
    let packet = write_packet(0x10, &[7; 200]).unwrap();
    assert_eq!(&packet.as_slice()[..3], &[0xc9, 0x01, 0x10]);
    assert_eq!(packet.as_slice().len(), 203);
    assert_eq!(read_packet(3).map(|buf| buf.len()), Ok(3));
    assert_eq!(read_packet(0), Ok(Vec::new()));
    assert_eq!(read_packet(-1), Err(PacketError::InvalidPacketLength));
    assert_eq!(read_packet(MAX_PACKET_LEN + 1), Err(PacketError::InvalidPacketLength));
    let large = vec![0; MAX_PACKET_LEN as usize + 1];
    assert_eq!(write_framed_payload(&large).err(), Some(PacketError::PayloadTooLarge));
}

#[test]
fn buffers_keep_what_is_written() {
    let mut buffer = ByteBuffer::new();
    buffer.push(1);
    buffer.extend_from_slice(&[2, 3]);
    assert_eq!(buffer.write(&[4, 5]), Ok(2));
    assert_eq!(buffer.flush(), Ok(()));
    write_varint_buffer(&mut buffer, 128);
    assert_eq!(buffer.as_slice(), &[1, 2, 3, 4, 5, 0x80, 0x01]);
    assert!(ByteBuffer::default().as_slice().is_empty());
}

#[test]
fn json_texts_are_escaped() {
    assert_eq!(json_escape("a\"b\\c\n\r\t"), "a\\\"b\\\\c\\n\\r\\t");
    assert_eq!(json_escape("plain \u{e9}"), "plain \u{e9}");
    let text = "say \"hi\" \\ \n";
    let value: serde_json::Value =
        serde_json::from_str(&format!("\"{}\"", json_escape(text))).unwrap();
    assert_eq!(value.as_str(), Some(text));
}

#[test]
fn errors_have_classes_and_messages() {
    assert_eq!(PacketError::VarIntEof.class(), ErrorClass::UnexpectedEof);
    assert_eq!(PacketError::StringTooLong.class(), ErrorClass::InvalidInput);
    assert_eq!(PacketError::InvalidUtf8.class(), ErrorClass::InvalidData);
    assert_eq!(PacketError::InvalidBool(10).message(), "invalid boolean byte 0x0a");
    assert_eq!(
        PacketError::NotLoginStart(17).message(),
        "expected login start packet id 0x00, got 0x11"
    );
    assert_eq!(PacketError::TrailingBytes(12).message(), "login success has 12 trailing bytes");
    assert_eq!(PacketError::InvalidProtocol(-5).message(), "invalid protocol -5");
    assert_eq!(
        PacketError::PacketUnavailable(PacketLabel::LoginAck, 766).message(),
        "packet login-ack unavailable for protocol 766"
    );
    assert_eq!(
        PacketError::PacketIdUnavailable(774).message(),
        "packet id unavailable for version 774"
    );
}

#[test]
fn decoder_exceptions_are_recognised() {
    assert!(is_decoder_exception(ErrorClass::InvalidData, "varint too big"));
    assert!(is_decoder_exception(ErrorClass::UnexpectedEof, "eof"));
    assert!(is_decoder_exception(ErrorClass::Other, "a DecoderException: x"));
    assert!(!is_decoder_exception(ErrorClass::Other, "varint too big"));
    assert!(!is_decoder_exception(ErrorClass::InvalidInput, "payload too large"));
}
