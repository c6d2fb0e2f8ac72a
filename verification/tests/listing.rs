use akareko::db::user::{TrustLevel, User};
use akareko::server::handler::events::SyncEvents;
use akareko::server::handler::index::{GetAllIndexes, GetContents, GetIndexes};
use akareko::server::handler::post::GetPostsByTopic;
use akareko::server::handler::users::{GetUsers, GetUsersRequest, Who};
use akareko::server::handler::{encode_command_request, encode_request_with_payload, AkarekoProtocolCommandMetadata, CommandsV1};
use akareko::config::{
    AkarekoConfig, ImageScale, ImageViewerPreferences, ImageVisualizationType, KeyPair, MetadataSource,
    SchedulerConfig, Settings, WordFilter,
};
use akareko::db::comments::Post;
use akareko::db::content::Content;
use akareko::db::event::{content_event, filter_contents, filter_indexes, filter_posts, index_event, EventType};
use akareko::db::index::Index;
use akareko::db::tags::{MangaChapter, MangaTag};
use akareko::db::user::I2PAddress;
use akareko::db::Magnet;
use akareko::errors::ClientError;
use akareko::helpers::bloom_filter::{insert_topics, SerializedFilter, TopicFilter};
use akareko::helpers::byteable::Byteable;
use akareko::helpers::Language;
use akareko::server::handler::index::{
    check_listing, list_answer, GetAllIndexesRequest, GetAllIndexesResponse, GetContentsRequest, GetIndexesRequest,
};
use akareko::server::handler::post::{post_content_answer, GetPostsByTopicRequest};
use akareko::server::protocol::AkarekoStatus;
use akareko::types::{PrivateKey, String16, Timestamp, Topic};

fn key(seed: u8) -> PrivateKey {
    PrivateKey::from_bytes([seed; 32])
}

fn filter_holding(topics: &Vec<Topic>) -> TopicFilter {
    let mut f =
        TopicFilter::checked(TopicFilter { filter: fastbloom::BloomFilter::with_false_pos(0.0001).expected_items(16) }).unwrap();
    insert_topics(&mut f, topics);
    f
}

fn chapter(k: &PrivateKey, title: &str) -> Content<MangaTag> {
    Content::new_signed(
        akareko::types::hash::Hash::new([1u8; 64]),
        Timestamp::new(42),
        Magnet(String::from("magnet:?xt=abc")),
        String::from("path"),
        String::from(title),
        1.0f32.to_bits(),
        None,
        MangaChapter::new(Language::English),
        k,
    )
}

#[test]
fn a_stored_index_is_in_the_filter_of_its_events() {
    let index: Index<MangaTag> = Index::new_signed(String::from("test"), 0, &key(1));
    let event = index_event(&index, Timestamp::new(5));
    assert_eq!(event.timestamp, Timestamp::new(5));
    assert!(event.event_type == EventType::Manga);
    assert!(event.topic == Topic::from_index(&index));
    let filter = filter_holding(&vec![event.topic]);
    assert!(akareko::helpers::bloom_filter::bloom_contains(&filter, &Topic::from_index(&index)));
}

#[test]
fn indexes_the_asker_has_are_left_out() {
    let a: Index<MangaTag> = Index::new_signed(String::from("Berserk"), 1989, &key(1));
    let b: Index<MangaTag> = Index::new_signed(String::from("Monster"), 1994, &key(1));
    let filter = filter_holding(&vec![Topic::from_index(&a)]);
    let kept = filter_indexes(vec![a.clone(), b.clone()], Some(&filter));
    assert_eq!(kept.len(), 1);
    assert_eq!(kept[0].hash(), b.hash());
    let all = filter_indexes(vec![a, b], None);
    assert_eq!(all.len(), 2);
}

#[test]
fn contents_the_asker_has_are_left_out() {
    let k = key(2);
    let one = chapter(&k, "One");
    let two = chapter(&k, "Two");
    let event = content_event(&one, Timestamp::new(9));
    assert!(event.event_type == EventType::MangaContent);
    assert!(event.topic == Topic::from_content(&one));
    let filter = filter_holding(&vec![Topic::from_content(&one)]);
    let kept = filter_contents(vec![one.clone(), two.clone()], Some(&filter));
    assert_eq!(kept.len(), 1);
    assert_eq!(kept[0].signature(), two.signature());
    assert_eq!(filter_contents(vec![one, two], None).len(), 2);
}

#[test]
fn posts_the_asker_has_are_left_out() {
    let k = key(3);
    let topic = Topic::from_bytes([4; 64]);
    let p1 = Post::new_signed(String16::new(String::from("first")).unwrap(), Timestamp::new(1), topic, &k);
    let p2 = Post::new_signed(String16::new(String::from("second")).unwrap(), Timestamp::new(2), topic, &k);
    let filter = filter_holding(&vec![Topic::from_post(&p2)]);
    let kept = filter_posts(vec![p1.clone(), p2.clone()], Some(&filter));
    assert_eq!(kept.len(), 1);
    assert_eq!(kept[0].signature, p1.signature);
    assert_eq!(filter_posts(vec![p1, p2], None).len(), 2);
}

#[test]
fn a_serialized_filter_is_length_then_bytes() {
    let f = SerializedFilter(vec![9, 8, 7]);
    let mut out = Vec::new();
    f.encode(&mut out).unwrap();
    assert_eq!(out, vec![0, 0, 0, 0, 0, 0, 0, 3, 9, 8, 7]);
    let (back, end) = SerializedFilter::decode(&out, 0).unwrap();
    assert_eq!(back.0, vec![9, 8, 7]);
    assert_eq!(end, 11);
    assert!(SerializedFilter::decode(&out[..10], 0).is_err());
}

#[test]
fn listing_requests_roundtrip() {
    let req = GetAllIndexesRequest::new::<MangaTag>(Some(Timestamp::new(7)), Some(SerializedFilter(vec![1, 2])));
    assert_eq!(req.tag(), "mangas");
    let mut out = Vec::new();
    req.encode(&mut out).unwrap();
    let (back, end) = GetAllIndexesRequest::decode(&out, 0).unwrap();
    assert_eq!(end, out.len());
    assert_eq!(back.tag(), "mangas");
    assert_eq!(back.timestamp(), Some(Timestamp::new(7)));
    assert_eq!(back.filter().as_ref().map(|f| f.0.clone()), Some(vec![1, 2]));

    let hash = akareko::types::hash::Hash::new([3u8; 64]);
    let req = GetContentsRequest::new(hash, None, None);
    let mut out = Vec::new();
    req.encode(&mut out).unwrap();
    let (back, _) = GetContentsRequest::decode(&out, 0).unwrap();
    assert_eq!(back.index(), &hash);
    assert_eq!(back.after(), None);
    assert!(back.filter().is_none());

    let req = GetIndexesRequest::new(vec![hash, akareko::types::hash::Hash::new([4u8; 64])]);
    let mut out = Vec::new();
    req.encode(&mut out).unwrap();
    let (back, _) = GetIndexesRequest::decode(&out, 0).unwrap();
    assert_eq!(back.indexes().len(), 2);
    assert_eq!(back.indexes()[0], hash);

    let topic = Topic::from_bytes([5; 64]);
    let req = GetPostsByTopicRequest { topic, timestamp: Some(Timestamp::new(-3)), filter: None };
    let mut out = Vec::new();
    req.encode(&mut out).unwrap();
    let (back, _) = GetPostsByTopicRequest::decode(&out, 0).unwrap();
    assert!(back.topic == topic);
    assert_eq!(back.timestamp, Some(Timestamp::new(-3)));
}

#[test]
fn listings_and_their_checks() {
    let ok = list_answer(Some(vec![1u8, 2, 3]), GetAllIndexesResponse {});
    assert!(matches!(ok.status(), AkarekoStatus::Success));
    assert!(check_listing(&ok).is_ok());
    let failed = list_answer::<GetAllIndexesResponse, u8>(None, GetAllIndexesResponse {});
    assert!(matches!(failed.status(), AkarekoStatus::InternalError(m) if m == "Database error"));
    match check_listing(&failed) {
        Err(ClientError::UnexpectedResponseCode { status: AkarekoStatus::InternalError(m) }) => {
            assert_eq!(m, "Database error")
        }
        _ => panic!("a failed listing must be refused"),
    }
    assert!(matches!(post_content_answer(true).status(), AkarekoStatus::Success));
    assert!(matches!(post_content_answer(false).status(), AkarekoStatus::InternalError(_)));
}

#[test]
fn settings_from_preferences_never_zoom_to_zero() {
    let prefs = ImageViewerPreferences {
        double_pages: true,
        zoom: 0,
        scale: ImageScale::Original,
        visualization_type: ImageVisualizationType::Scroll,
    };
    let s = Settings::with_preferences(prefs);
    assert_eq!(s.zoom(), 1);
    assert!(s.image_viewer_preferences().double_pages);
    assert!(s.image_viewer_preferences().scale == ImageScale::Original);
    let s = Settings::with_preferences(ImageViewerPreferences { zoom: 150, ..prefs });
    assert_eq!(s.zoom(), 150);
}

#[test]
fn a_config_is_made_of_its_parts() {
    let k = key(6);
    let expected_pub = *k.public_key().as_bytes();
    let c = AkarekoConfig::from_parts(
        KeyPair::new(k),
        String::from("secret-key"),
        I2PAddress::new(String::from("node.b32.i2p")),
        true,
        12,
        SchedulerConfig { full_sync_interval: Timestamp::new(60) },
        true,
        false,
        MetadataSource::Mangadex,
        WordFilter::Disabled,
    );
    assert_eq!(c.public_key().as_bytes(), &expected_pub);
    assert_eq!(c.eepsite_key(), "secret-key");
    assert_eq!(c.eepsite_address().as_str(), "node.b32.i2p");
    assert!(c.dev_mode());
    assert_eq!(c.max_client_connections(), 12);
    assert_eq!(c.scheduler_config().full_sync_interval, Timestamp::new(60));
    assert!(c.is_relay());
    assert!(!c.save_metadata_on_disk());
    assert!(c.word_filter() == WordFilter::Disabled);
}

#[test]
fn command_markers_name_their_commands() {
    assert_eq!(Who::command(), CommandsV1::Who);
    assert_eq!(GetUsers::command(), CommandsV1::GetUsers);
    assert_eq!(SyncEvents::command(), CommandsV1::SyncEvents);
    assert_eq!(GetPostsByTopic::command(), CommandsV1::GetPostsByTopic);
    assert_eq!(GetAllIndexes::<MangaTag>::command(), CommandsV1::GetAllIndexes);
    assert_eq!(GetIndexes::<MangaTag>::command(), CommandsV1::GetIndexes);
    assert_eq!(GetContents::<MangaTag>::command(), CommandsV1::GetContents);

    let req = GetUsersRequest { pub_keys: vec![] };
    let mut typed = Vec::new();
    encode_command_request::<GetUsers, _>(&req, &mut typed).unwrap();
    let mut plain = Vec::new();
    encode_request_with_payload(CommandsV1::GetUsers, &req, &mut plain).unwrap();
    assert_eq!(typed, plain);
    assert_eq!(typed[0], 1);
    assert_eq!(&typed[1..3], &[0, 14]);
    assert_eq!(&typed[3..17], b"user/get_users");
}

#[test]
fn a_filter_with_bits_is_usable() {
    let f = TopicFilter { filter: fastbloom::BloomFilter::with_num_bits(128).hashes(3) };
    assert_eq!(akareko::helpers::bloom_filter::bloom_num_bits_of(&f), 128);
    let f = TopicFilter::checked(f).unwrap();
    assert!(!akareko::helpers::bloom_filter::bloom_contains(&f, &Topic::from_bytes([9; 64])));
}

#[test]
fn the_own_user_is_anon_ignored_and_signed() {
    let k = key(7);
    let expected_pub = *k.public_key().as_bytes();
    let mut config = AkarekoConfig::with_keypair(KeyPair::new(k));
    config.set_eepsite_data(I2PAddress::new(String::from("me.b32.i2p")), String::from("secret"));
    let u = User::own_user(&config, Timestamp::new(77));
    assert_eq!(u.display_name(), "Anon");
    assert_eq!(u.pub_key().as_bytes(), &expected_pub);
    assert_eq!(u.timestamp(), Timestamp::new(77));
    assert_eq!(u.address().as_str(), "me.b32.i2p");
    assert!(*u.trust() == TrustLevel::Ignore);
    assert!(u.verify());
}

#[test]
fn a_user_read_from_a_peer_is_unverified_and_a_content_unread() {
    let k = key(8);
    let mut u = akareko::db::user::User::new_signed(
        akareko::types::String8::new(String::from("bob")).unwrap(),
        Timestamp::new(3),
        &k,
        I2PAddress::new(String::from("bob.b32.i2p")),
    );
    u.set_trust(TrustLevel::FullTrust);
    let mut out = Vec::new();
    u.encode(&mut out).unwrap();
    let (back, _) = User::decode(&out, 0).unwrap();
    assert!(*back.trust() == TrustLevel::Unverified);

    let c = chapter(&k, "Three");
    let mut out = Vec::new();
    c.encode(&mut out).unwrap();
    let (back, _) = Content::<MangaTag>::decode(&out, 0).unwrap();
    assert_eq!(back.progress, 0);
    assert_eq!(back.count, 1);
}
