use akareko::errors::{ClientError, DecodeError, EncodeError};
use akareko::helpers::byteable::Byteable;
use akareko::server::handler::{decode_request_head, encode_request, encode_request_with_payload, CommandsV1};
use akareko::server::protocol::{AkarekoProtocolResponse, AkarekoProtocolVersion, AkarekoStatus, StreamDecode};

#[test]
fn status_codes() {
    assert_eq!(AkarekoStatus::Success.code(), 200);
    assert_eq!(AkarekoStatus::InvalidArgument(String::new()).code(), 400);
    assert_eq!(AkarekoStatus::NotFound(String::new()).code(), 404);
    assert_eq!(AkarekoStatus::InternalError(String::new()).code(), 500);
    assert!(AkarekoStatus::Success.is_ok());
    assert!(!AkarekoStatus::NotFound(String::from("x")).is_ok());
}

#[test]
fn status_with_message_roundtrips() {
    let s = AkarekoStatus::NotFound(String::from("gone"));
    let mut out = Vec::new();
    s.encode(&mut out).unwrap();
    assert_eq!(out, vec![1, 148, 0, 4, b'g', b'o', b'n', b'e']);
    match AkarekoStatus::decode(&out, 0).unwrap() {
        (AkarekoStatus::NotFound(m), 8) => assert_eq!(m, "gone"),
        _ => panic!("wrong status"),
    }
}

#[test]
fn unknown_status_code_is_refused() {
    match AkarekoStatus::decode(&[0, 201], 0) {
        Err(DecodeError::InvalidEnumVariant { variant_value, enum_name }) => {
            assert_eq!(variant_value, "201");
            assert_eq!(enum_name, "AkarekoStatus");
        }
        _ => panic!("expected an invalid variant"),
    }
}

#[test]
fn version_byte() {
    let mut out = Vec::new();
    AkarekoProtocolVersion::V1.encode(&mut out).unwrap();
    assert_eq!(out, vec![1]);
    assert!(matches!(AkarekoProtocolVersion::decode(&[2], 0), Err(DecodeError::InvalidEnumVariant { .. })));
}

#[test]
fn request_head_is_version_then_command_name() {
    let mut out = Vec::new();
    encode_request(CommandsV1::Who, &mut out).unwrap();
    assert_eq!(out, vec![1, 0, 3, b'w', b'h', b'o']);
    let (v, c, end) = decode_request_head(&out, 0).unwrap();
    assert_eq!(v, AkarekoProtocolVersion::V1);
    assert_eq!(c, CommandsV1::Who);
    assert_eq!(end, 6);
    assert_eq!(CommandsV1::SyncEvents.name(), "event/sync_events");
}

#[test]
fn request_with_payload() {
    let mut out = Vec::new();
    encode_request_with_payload(CommandsV1::GetUsers, &7u16, &mut out).unwrap();
    let mut expected = vec![1, 0, 14];
    expected.extend_from_slice(b"user/get_users");
    expected.extend_from_slice(&[0, 7]);
    assert_eq!(out, expected);
}

#[test]
fn unknown_command_is_refused() {
    let mut out = vec![1u8];
    String::from("nope").encode(&mut out).unwrap();
    match decode_request_head(&out, 0) {
        Err(DecodeError::InvalidEnumVariant { variant_value, enum_name }) => {
            assert_eq!(variant_value, "nope");
            assert_eq!(enum_name, "CommandsV1");
        }
        _ => panic!("expected an invalid variant"),
    }
}

#[test]
fn success_with_items_is_read_back_as_a_count_then_items() {
    let res = AkarekoProtocolResponse::<u8, u16>::ok_with_data(9, vec![10, 20]);
    let mut out = Vec::new();
    res.encode(&mut out).unwrap();
    assert_eq!(out, vec![0, 200, 9, 0, 0, 0, 0, 0, 0, 0, 2, 0, 10, 0, 20]);
    let (mut back, pos) = AkarekoProtocolResponse::<u8, u16>::decode(&out, 0).unwrap();
    assert_eq!(pos, 11);
    assert!(back.status().is_ok());
    assert_eq!(back.data().len(), 2);
    let (a, p) = back.data().next(&out, pos).unwrap().unwrap();
    let (b, p) = back.data().next(&out, p).unwrap().unwrap();
    assert_eq!((a, b), (10, 20));
    assert!(back.data().next(&out, p).unwrap().is_none());
    assert_eq!(back.payload(), Some(9));
}

#[test]
fn refusal_has_no_payload_and_no_items() {
    let res = AkarekoProtocolResponse::<u8, u16>::internal_error(String::from("boom"));
    let mut out = Vec::new();
    res.encode(&mut out).unwrap();
    assert_eq!(out, vec![1, 244, 0, 4, b'b', b'o', b'o', b'm']);
    let (mut back, pos) = AkarekoProtocolResponse::<u8, u16>::decode(&out, 0).unwrap();
    assert_eq!(pos, 8);
    assert_eq!(back.data().len(), 0);
    match back.payload_if_ok() {
        Err(ClientError::UnexpectedResponseCode { status: AkarekoStatus::InternalError(m) }) => assert_eq!(m, "boom"),
        _ => panic!("expected the status as an error"),
    }
}

#[test]
fn payload_if_ok() {
    assert_eq!(AkarekoProtocolResponse::<u8, ()>::ok(5).payload_if_ok().ok(), Some(5));
    let nf = AkarekoProtocolResponse::<u8, ()>::not_found(String::from("no"));
    assert!(matches!(nf.payload_if_ok(), Err(ClientError::UnexpectedResponseCode { status: AkarekoStatus::NotFound(_) })));
    let ia = AkarekoProtocolResponse::<u8, ()>::invalid_argument(String::from("bad"));
    assert_eq!(ia.status().code(), 400);
}

#[test]
fn a_receiving_stream_cannot_be_sent() {
    let s = StreamDecode::<u8>::new_receiver(3);
    assert_eq!(s.len(), 3);
    let mut out = Vec::new();
    assert_eq!(s.encode(&mut out), Err(EncodeError::InvalidData));
    let mut s = StreamDecode::<u8>::new(vec![1, 2]);
    assert!(s.next(&[5], 0).unwrap().is_none());
}

#[test]
fn the_count_goes_down_even_when_an_item_fails() {
    let mut s = StreamDecode::<u32>::new_receiver(2);
    assert!(matches!(s.next(&[1, 2], 0), Err(DecodeError::UnexpectedEof)));
    assert_eq!(s.len(), 1);
}
