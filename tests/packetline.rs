use git_transport::packetline::{
    decode, encode, encode_delimiter, encode_flush, encode_response_end, DecodeError, EncodeError,
    PacketLine, MAX_DATA_LEN,
};

#[test]
fn encode_writes_length_then_payload() {
    assert_eq!(encode(b"hello").unwrap(), b"0009hello".to_vec());
    assert_eq!(encode(b"").unwrap(), b"0004".to_vec());
}

#[test]
fn encode_uses_lowercase_hex() {
    let payload = vec![b'x'; 0xfb - 4];
    let frame = encode(&payload).unwrap();
    assert_eq!(&frame[..4], b"00fb");
}

#[test]
fn encode_refuses_oversized_payload() {
    let payload = vec![0u8; MAX_DATA_LEN + 1];
    assert_eq!(encode(&payload), Err(EncodeError::DataLengthLimitExceeded));
}

#[test]
fn round_trip_small_and_largest_payloads() {
    for len in [0usize, 1, 2, 15, 16, 255, 256, 4095, 4096, MAX_DATA_LEN] {
        let payload: Vec<u8> = (0..len).map(|i| (i % 251) as u8).collect();
        let mut frame = encode(&payload).unwrap();
        assert_eq!(frame.len(), len + 4);
        frame.extend_from_slice(b"0000");
        assert_eq!(decode(&frame), Ok((PacketLine::Data(payload), len + 4)));
    }
}

#[test]
fn control_frames_decode_to_markers() {
    assert_eq!(encode_flush(), b"0000".to_vec());
    assert_eq!(encode_delimiter(), b"0001".to_vec());
    assert_eq!(encode_response_end(), b"0002".to_vec());
    assert_eq!(decode(b"0000"), Ok((PacketLine::Flush, 4)));
    assert_eq!(decode(b"0001rest"), Ok((PacketLine::Delimiter, 4)));
    assert_eq!(decode(b"0002"), Ok((PacketLine::ResponseEnd, 4)));
    assert_eq!(decode(b"0004"), Ok((PacketLine::Data(Vec::new()), 4)));
    assert_ne!(decode(b"0000"), decode(b"0004"));
}

#[test]
fn decode_accepts_uppercase_hex() {
    assert_eq!(decode(b"000Ahello\n"), Ok((PacketLine::Data(b"hello\n".to_vec()), 10)));
}

#[test]
fn decode_errors() {
    assert_eq!(decode(b"00"), Err(DecodeError::NotEnoughData));
    assert_eq!(decode(b"00x9hello"), Err(DecodeError::HexDecode));
    assert_eq!(decode(b"0003"), Err(DecodeError::InvalidLineLength));
    assert_eq!(decode(b"fff1"), Err(DecodeError::DataLengthLimitExceeded));
    assert_eq!(decode(b"0009hell"), Err(DecodeError::NotEnoughData));
}
