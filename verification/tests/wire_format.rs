use akareko::errors::{DecodeError, EncodeError};
use akareko::helpers::byteable::{decode_string, encode_str, Byteable};
use akareko::helpers::Language;
use akareko::db::event::EventType;
use akareko::db::index::IndexStatus;
use akareko::types::{String8, Timestamp};

fn encoded<T: Byteable>(v: &T) -> Vec<u8> {
    let mut out = Vec::new();
    v.encode(&mut out).unwrap();
    out
}

#[test]
fn string_is_length_then_utf8() {
    let s = String::from("héllo");
    let bytes = encoded(&s);
    assert_eq!(bytes, vec![0, 6, b'h', 0xc3, 0xa9, b'l', b'l', b'o']);
    let (back, end) = String::decode(&bytes, 0).unwrap();
    assert_eq!(back, "héllo");
    assert_eq!(end, 8);
}

#[test]
fn integers_are_big_endian() {
    assert_eq!(encoded(&0x0102u16), vec![1, 2]);
    assert_eq!(encoded(&0x01020304u32), vec![1, 2, 3, 4]);
    assert_eq!(encoded(&-2i32), vec![0xff, 0xff, 0xff, 0xfe]);
    assert_eq!(encoded(&1u64), vec![0, 0, 0, 0, 0, 0, 0, 1]);
    let (v, end) = i64::decode(&encoded(&-5i64), 0).unwrap();
    assert_eq!(v, -5);
    assert_eq!(end, 8);
}

#[test]
fn option_result_and_pairs_roundtrip() {
    let v: Option<u16> = Some(7);
    let bytes = encoded(&v);
    assert_eq!(bytes, vec![1, 0, 7]);
    assert_eq!(Option::<u16>::decode(&bytes, 0).unwrap().0, Some(7));
    let none: Option<u16> = None;
    assert_eq!(encoded(&none), vec![0]);
    let pair = (3u8, String::from("ab"));
    let bytes = encoded(&pair);
    assert_eq!(bytes, vec![3, 0, 2, b'a', b'b']);
    let (back, end) = <(u8, String)>::decode(&bytes, 0).unwrap();
    assert_eq!(back, (3u8, String::from("ab")));
    assert_eq!(end, 5);
}

#[test]
fn lists_carry_a_u16_count() {
    let v: Vec<u16> = vec![1, 2, 3];
    let bytes = encoded(&v);
    assert_eq!(bytes, vec![0, 3, 0, 1, 0, 2, 0, 3]);
    let (back, end) = Vec::<u16>::decode(&bytes, 0).unwrap();
    assert_eq!(back, v);
    assert_eq!(end, 8);
}

#[test]
fn too_many_elements_is_refused() {
    let v: Vec<()> = vec![(); 65536];
    let mut out = Vec::new();
    let r = v.encode(&mut out);
    assert_eq!(r, Err(EncodeError::TooManyElements { allowed: 65535, actual: 65536 }));
}

#[test]
fn reading_past_the_end_is_unexpected_eof() {
    assert!(matches!(u32::decode(&[1, 2, 3], 0), Err(DecodeError::UnexpectedEof)));
    assert!(matches!(String::decode(&[0, 5, b'a'], 0), Err(DecodeError::UnexpectedEof)));
}

#[test]
fn invalid_utf8_is_refused() {
    assert!(matches!(decode_string(&[0, 2, 0xff, 0xfe], 0), Err(DecodeError::InvalidUtf8)));
}

#[test]
fn encode_str_matches_string_encoding() {
    let mut out = Vec::new();
    encode_str("abc", &mut out).unwrap();
    assert_eq!(out, encoded(&String::from("abc")));
}

#[test]
fn short_strings_have_a_one_byte_length() {
    let s = String8::new(String::from("abc")).unwrap();
    assert_eq!(encoded(&s), vec![3, b'a', b'b', b'c']);
    assert!(String8::new("x".repeat(256)).is_err());
}

#[test]
fn event_types_are_written_by_name() {
    let bytes = encoded(&EventType::Manga);
    assert_eq!(bytes, vec![0, 6, b'm', b'a', b'n', b'g', b'a', b's']);
    assert_eq!(EventType::decode(&bytes, 0).unwrap().0, EventType::Manga);
    assert_eq!(EventType::MangaContent.as_str(), "manga_chapters");
    let mut unknown = Vec::new();
    encode_str("nope", &mut unknown).unwrap();
    match EventType::decode(&unknown, 0) {
        Err(DecodeError::InvalidEnumVariant { variant_value, enum_name }) => {
            assert_eq!(variant_value, "nope");
            assert_eq!(enum_name, "EventType");
        }
        _ => panic!("expected an invalid variant"),
    }
}

#[test]
fn byte_enums_are_one_byte() {
    assert_eq!(encoded(&Language::Portuguese), vec![3]);
    assert_eq!(Language::decode(&[1], 0).unwrap().0, Language::English);
    match Language::decode(&[9], 0) {
        Err(DecodeError::InvalidEnumVariant { variant_value, enum_name }) => {
            assert_eq!(variant_value, "9");
            assert_eq!(enum_name, "Language");
        }
        _ => panic!("expected an invalid variant"),
    }
    assert_eq!(encoded(&IndexStatus::default()), vec![4]);
}

#[test]
fn timestamps_roundtrip() {
    let t = Timestamp::new(1_700_000_000);
    let bytes = encoded(&t);
    assert_eq!(bytes, 1_700_000_000i64.to_be_bytes().to_vec());
    assert_eq!(Timestamp::decode(&bytes, 0).unwrap().0, t);
    assert_eq!((t + 5i64).value(), 1_700_000_005);
    assert_eq!((t - Timestamp::new(1)).value(), 1_699_999_999);
}
