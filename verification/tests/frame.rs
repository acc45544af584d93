use bytes::BytesMut;
use gung::auth::codec::{AuthReqCodec, AuthRespCodec};
use gung::frame::{decode_frame, encode_frame, try_decode_frame, try_encode_frame};
use gung::protocol::{ClientCommandCodec, ServerCommandCodec};

#[test]
fn encode_appends_header_and_payload() {
    let mut dst = BytesMut::from(&b"xy"[..]);
    encode_frame(b"hello", &mut dst);
    assert_eq!(&dst[..], b"xy\x00\x00\x00\x05hello");
}

#[test]
fn encode_empty_payload_is_a_bare_header() {
    let mut dst = BytesMut::new();
    encode_frame(b"", &mut dst);
    assert_eq!(&dst[..], b"\x00\x00\x00\x00");
}

#[test]
fn encode_writes_length_big_endian() {
    let data = vec![7u8; 0x0102];
    let mut dst = BytesMut::new();
    encode_frame(&data, &mut dst);
    assert_eq!(&dst[..4], &[0, 0, 1, 2]);
    assert_eq!(dst.len(), 4 + 0x0102);
}

#[test]
fn decode_waits_for_a_whole_header() {
    let mut src = BytesMut::from(&b"\x00\x00\x00"[..]);
    assert_eq!(decode_frame(&mut src), None);
    assert_eq!(&src[..], b"\x00\x00\x00");
}

#[test]
fn decode_waits_for_a_whole_payload() {
    let mut src = BytesMut::from(&b"\x00\x00\x00\x05hel"[..]);
    assert_eq!(decode_frame(&mut src), None);
    assert_eq!(&src[..], b"\x00\x00\x00\x05hel");
}

#[test]
fn decode_takes_one_frame_and_leaves_the_rest() {
    let mut src = BytesMut::from(&b"\x00\x00\x00\x02hi\x00\x00\x00\x01!"[..]);
    assert_eq!(decode_frame(&mut src), Some(b"hi".to_vec()));
    assert_eq!(&src[..], b"\x00\x00\x00\x01!");
    assert_eq!(decode_frame(&mut src), Some(b"!".to_vec()));
    assert!(src.is_empty());
    assert_eq!(decode_frame(&mut src), None);
}

#[test]
fn decode_empty_payload() {
    let mut src = BytesMut::from(&b"\x00\x00\x00\x00rest"[..]);
    assert_eq!(decode_frame(&mut src), Some(Vec::new()));
    assert_eq!(&src[..], b"rest");
}

#[test]
fn frame_roundtrip_through_encode_and_decode() {
    let mut buf = BytesMut::new();
    encode_frame(b"first", &mut buf);
    encode_frame(b"", &mut buf);
    encode_frame(&[0xff, 0x00, 0x10], &mut buf);
    assert_eq!(decode_frame(&mut buf), Some(b"first".to_vec()));
    assert_eq!(decode_frame(&mut buf), Some(Vec::new()));
    assert_eq!(decode_frame(&mut buf), Some(vec![0xff, 0x00, 0x10]));
    assert_eq!(decode_frame(&mut buf), None);
}

#[test]
fn partial_frame_is_not_decoded_until_complete() {
    let mut whole = BytesMut::new();
    encode_frame(b"abcdef", &mut whole);
    for k in 0..whole.len() {
        let mut part = BytesMut::from(&whole[..k]);
        assert_eq!(decode_frame(&mut part), None);
        assert_eq!(&part[..], &whole[..k]);
    }
    let mut all = whole.clone();
    assert_eq!(decode_frame(&mut all), Some(b"abcdef".to_vec()));
}

#[test]
fn command_codecs_frame_payloads() {
    let mut buf = BytesMut::new();
    ServerCommandCodec.encode(&[3], &mut buf).unwrap();
    ClientCommandCodec.encode(&[1], &mut buf).unwrap();
    assert_eq!(&buf[..], b"\x00\x00\x00\x01\x03\x00\x00\x00\x01\x01");
    assert_eq!(ServerCommandCodec.decode(&mut buf).unwrap(), Some(vec![3]));
    assert_eq!(ClientCommandCodec.decode(&mut buf).unwrap(), Some(vec![1]));
    assert_eq!(ClientCommandCodec.decode(&mut buf).unwrap(), None);
}

#[test]
fn auth_codecs_frame_payloads() {
    let mut buf = BytesMut::new();
    AuthReqCodec.encode(b"{\"a\":1}", &mut buf).unwrap();
    AuthRespCodec.encode(b"{}", &mut buf).unwrap();
    assert_eq!(AuthReqCodec.decode(&mut buf).unwrap(), Some(b"{\"a\":1}".to_vec()));
    assert_eq!(AuthRespCodec.decode(&mut buf).unwrap(), Some(b"{}".to_vec()));
    assert_eq!(AuthRespCodec.decode(&mut buf).unwrap(), None);
}

#[test]
fn checked_framing_round_trips() {
    let mut buf = BytesMut::new();
    assert_eq!(try_encode_frame(b"abc", &mut buf), Ok(()));
    assert_eq!(&buf[..], &[0, 0, 0, 3, b'a', b'b', b'c']);
    assert_eq!(try_decode_frame(&mut buf), Ok(Some(b"abc".to_vec())));
    assert_eq!(try_decode_frame(&mut buf), Ok(None));
    assert!(buf.is_empty());
}
