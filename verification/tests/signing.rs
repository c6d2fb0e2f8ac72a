use akareko::db::comments::Post;
use akareko::db::content::Content;
use akareko::db::index::Index;
use akareko::db::tags::{MangaChapter, MangaTag, NoTag};
use akareko::db::user::{I2PAddress, TrustLevel, User};
use akareko::db::Magnet;
use akareko::errors::Base64Error;
use akareko::helpers::byteable::Byteable;
use akareko::helpers::Language;
use akareko::types::{PrivateKey, PublicKey, Signature, String16, String8, Timestamp, Topic};

fn key(seed: u8) -> PrivateKey {
    PrivateKey::from_bytes([seed; 32])
}

#[test]
fn a_signature_verifies_under_the_matching_key_only() {
    let k = key(1);
    let sig = k.sign(b"hello");
    assert!(k.public_key().verify(b"hello", &sig));
    assert!(!k.public_key().verify(b"hellp", &sig));
    assert!(!key(2).public_key().verify(b"hello", &sig));
}

#[test]
fn public_key_is_the_ed25519_one() {
    let secret = [7u8; 32];
    let expected = ed25519_dalek::SigningKey::from_bytes(&secret).verifying_key().to_bytes();
    assert_eq!(PrivateKey::from_bytes(secret).public_key().as_bytes(), &expected);
}

#[test]
fn keys_roundtrip_through_base64() {
    let k = key(3);
    let text = k.to_base64();
    assert_eq!(PrivateKey::from_base64(&text).unwrap().as_bytes(), k.as_bytes());
    let p = k.public_key();
    assert_eq!(PublicKey::from_base64(&p.to_base64()).unwrap(), p);
    let s = k.sign(b"m");
    assert_eq!(Signature::from_base64(&s.as_base64()).unwrap(), s);
}

#[test]
fn base64_errors() {
    assert_eq!(PublicKey::from_base64("!!!").err(), Some(Base64Error::InvalidBase64));
    assert_eq!(
        PublicKey::from_base64("AAAA").err(),
        Some(Base64Error::InvalidLength { expected: 32, actual: 3 })
    );
}

#[test]
fn public_key_hex() {
    let p = PublicKey::from_bytes_unchecked([0xab; 32]);
    assert_eq!(p.to_hex(), "ab".repeat(32));
}

#[test]
fn empty_signature_is_zeros() {
    assert_eq!(Signature::empty().to_inner(), [0u8; 64]);
}

fn user(k: &PrivateKey) -> User {
    User::new_signed(
        String8::new(String::from("alice")).unwrap(),
        Timestamp::new(100),
        k,
        I2PAddress::new(String::from("alice.b32.i2p")),
    )
}

#[test]
fn a_signed_user_verifies_and_a_changed_one_does_not() {
    let k = key(4);
    let mut u = user(&k);
    assert!(u.verify());
    assert_eq!(u.name(), "alice");
    assert_eq!(u.trust(), &TrustLevel::Unverified);
    u.set_address(I2PAddress::new(String::from("mallory.b32.i2p")));
    assert!(!u.verify());
}

#[test]
fn user_verification_bytes() {
    let u = user(&key(5));
    let mut expected = b"alice".to_vec();
    expected.extend_from_slice(&100i64.to_le_bytes());
    expected.extend_from_slice(b"alice.b32.i2p");
    assert_eq!(u.verification_bytes(), expected);
}

#[test]
fn a_user_roundtrips_and_comes_back_unverified() {
    let mut u = user(&key(6));
    u.set_trust(TrustLevel::Trusted);
    let mut out = Vec::new();
    u.encode(&mut out).unwrap();
    let (back, end) = User::decode(&out, 0).unwrap();
    assert_eq!(end, out.len());
    assert_eq!(back.pub_key(), u.pub_key());
    assert_eq!(back.name(), "alice");
    assert_eq!(back.trust(), &TrustLevel::Unverified);
    assert!(back.verify());
}

#[test]
fn trust_levels() {
    for t in TrustLevel::all() {
        assert_eq!(TrustLevel::from_code(t.code()), Some(t));
    }
    assert_eq!(TrustLevel::from_code(9), None);
    assert_eq!(TrustLevel::FullTrust.label(), "Full trust");
}

#[test]
fn a_signed_post_verifies() {
    let k = key(8);
    let topic = Topic::from_bytes([3u8; 64]);
    let post = Post::new_signed(String16::new(String::from("hi")).unwrap(), Timestamp::new(5), topic, &k);
    assert!(post.verify());
    assert_eq!(Topic::from_post(&post).inner(), &post.signature.to_inner());
    let mut out = Vec::new();
    post.encode(&mut out).unwrap();
    let (back, _) = Post::decode(&out, 0).unwrap();
    assert!(back.verify());
}

#[test]
fn index_hash_ignores_spelling() {
    let k = key(9);
    let a: Index<MangaTag> = Index::new_signed(String::from("One Piece!"), 1997, &k);
    let b: Index<MangaTag> = Index::new_signed(String::from("one  PIECE"), 1997, &k);
    let c: Index<MangaTag> = Index::new_signed(String::from("One Piece"), 1998, &k);
    assert_eq!(a.hash(), b.hash());
    assert_ne!(a.hash(), c.hash());
    assert!(a.verify());
    let mut id = b"mangasonepiece".to_vec();
    id.extend_from_slice(&1997i32.to_le_bytes());
    assert_eq!(a.hash(), &akareko::types::hash::Hash::digest(&id));
    let untagged: Index<NoTag> = a.clone().transmute();
    assert_eq!(untagged.hash(), a.hash());
    assert_eq!(Topic::from_index(&a).inner(), a.hash().inner());
}

#[test]
fn an_index_roundtrips() {
    let a: Index<MangaTag> = Index::new_signed(String::from("Title"), 2001, &key(10));
    let mut out = Vec::new();
    a.encode(&mut out).unwrap();
    let (back, end) = Index::<MangaTag>::decode(&out, 0).unwrap();
    assert_eq!(end, out.len());
    assert_eq!(back.hash(), a.hash());
    assert_eq!(back.title(), "Title");
    assert_eq!(back.release_date(), 2001);
    assert!(back.verify());
}

fn chapter(k: &PrivateKey) -> Content<MangaTag> {
    Content::new_signed(
        akareko::types::hash::Hash::new([1u8; 64]),
        Timestamp::new(42),
        Magnet(String::from("magnet:?xt=abc")),
        String::from("path"),
        String::from("Chapter 1"),
        1.5f32.to_bits(),
        Some(2.0f32.to_bits()),
        MangaChapter::new(Language::English),
        k,
    )
}

#[test]
fn a_signed_content_verifies_and_roundtrips() {
    let k = key(11);
    let c = chapter(&k);
    assert!(c.verify());
    assert_eq!(c.title(), "Chapter 1");
    assert_eq!(f32::from_bits(c.enumeration()), 1.5);
    assert_eq!(c.count, 1);
    let mut out = Vec::new();
    c.encode(&mut out).unwrap();
    let (back, end) = Content::<MangaTag>::decode(&out, 0).unwrap();
    assert_eq!(end, out.len());
    assert!(back.verify());
    assert_eq!(back.signature(), c.signature());
    assert_eq!(Topic::from_content(&c).inner(), &c.signature().to_inner());
}

#[test]
fn content_id_bytes() {
    let bytes = Content::<MangaTag>::id_bytes(
        &akareko::types::hash::Hash::new([1u8; 64]),
        &Timestamp::new(42),
        &Magnet(String::from("m")),
        &String::from("s"),
        "t",
        1.0f32.to_bits(),
        None,
        &MangaChapter::new(Language::French),
    );
    let mut expected = vec![1u8; 64];
    expected.extend_from_slice(&42i64.to_le_bytes());
    expected.extend_from_slice(b"mst");
    expected.extend_from_slice(&1.0f32.to_le_bytes());
    expected.extend_from_slice(&[0, 2]);
    assert_eq!(bytes, expected);
}

#[test]
fn a_changed_content_does_not_verify() {
    let mut c = chapter(&key(12));
    c.title = String::from("Chapter 2");
    assert!(!c.verify());
    c.title = String::from("Chapter 1");
    c.update_progress(3);
    assert!(c.verify());
    assert_eq!(c.progress, 3);
}

#[test]
fn fresh_keys_differ() {
    let a = PrivateKey::new().unwrap();
    let b = PrivateKey::new().unwrap();
    assert_ne!(a.public_key().as_bytes(), b.public_key().as_bytes());
}
