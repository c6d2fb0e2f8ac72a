use akareko::errors::Base64Error;
use akareko::helpers::{b32_from_pub_b64, i2p_b64_fix, now_timestamp, LiFo, SanitizedString};
use base64::Engine;
use sha2::Digest;

#[test]
fn sanitizing_keeps_lowercase_letters_and_digits() {
    let s = SanitizedString::new(&String::from("Café Ünïcode-123 !"));
    assert_eq!(s.as_str(), "cafeunicode123");
    assert_eq!(s.as_bytes(), b"cafeunicode123");
    assert_eq!(s.to_inner(), "cafeunicode123");
    assert_eq!(SanitizedString::new(&String::from("日本")).as_str(), "");
}

#[test]
fn i2p_base64_is_put_in_the_standard_alphabet() {
    assert_eq!(i2p_b64_fix("  ab-c~d\n"), "ab+c/d");
    assert_eq!(i2p_b64_fix("plain"), "plain");
    assert_eq!(i2p_b64_fix("\u{3000}x\u{a0}"), "x");
}

#[test]
fn b32_address_of_a_destination() {
    let dest: Vec<u8> = (0u8..=255).collect();
    let i2p_text = base64::prelude::BASE64_STANDARD.encode(&dest).replace('+', "-").replace('/', "~");
    let hash = sha2::Sha256::digest(&dest);
    let expected = format!("{}.b32.i2p", data_encoding::BASE32_NOPAD.encode(&hash).to_lowercase());
    assert_eq!(expected.len(), 52 + 8);
    let a = b32_from_pub_b64(&format!(" {}.b64.i2p ", i2p_text)).unwrap();
    assert_eq!(a.as_str(), expected);
    let b = b32_from_pub_b64(&format!("{}.i2p", i2p_text)).unwrap();
    assert_eq!(b.as_str(), expected);
}

#[test]
fn b32_of_text_that_is_not_base64() {
    assert_eq!(b32_from_pub_b64("not base64!!").err(), Some(Base64Error::InvalidBase64));
}

#[test]
fn lifo_gives_back_the_newest_first_and_forgets_the_oldest() {
    let mut l: LiFo<u32, 2> = LiFo::new();
    assert!(!l.can_pop());
    assert_eq!(l.pop(), None);
    l.push(1);
    l.push(2);
    l.push(3);
    assert!(l.can_pop());
    assert_eq!(l.pop(), Some(3));
    assert_eq!(l.pop(), Some(2));
    assert_eq!(l.pop(), None);
}

#[test]
fn now_is_after_2020() {
    assert!(now_timestamp().value() > 1_577_836_800);
}

#[test]
fn clock_readings_become_timestamps() {
    use_timestamp_readings();
}

fn use_timestamp_readings() {
    assert_eq!(akareko::types::Timestamp::from_unix_reading(Ok(1_700_000_000)).value(), 1_700_000_000);
    assert_eq!(akareko::types::Timestamp::from_unix_reading(Err(5)).value(), -5);
    assert_eq!(akareko::types::Timestamp::from_unix_reading(Ok(u64::MAX)).value(), i64::MAX);
    assert_eq!(akareko::types::Timestamp::from_unix_reading(Err(u64::MAX)).value(), -i64::MAX);
    assert_eq!(
        akareko::helpers::SanitizedString::new(&String::from("One Piece: 1st!")).as_str(),
        "onepiece1st"
    );
}
