use akareko::db::comments::Post;
use akareko::db::event::{decode_streams, filter_events, EventType};
use akareko::db::user::{I2PAddress, User};
use akareko::errors::ClientError;
use akareko::helpers::bloom_filter::{filter_topics, insert_topics, TopicFilter};
use akareko::helpers::byteable::Byteable;
use akareko::server::handler::events::{
    accept_sync_response, plan_sync_reply, read_sync_groups, read_verified, SyncBatch, SyncEventsResponse, SyncGroup,
};
use akareko::server::handler::users::{accept_who_response, get_users_answer, who_answer_at, WhoResponse};
use akareko::server::protocol::AkarekoProtocolResponse;
use akareko::types::{PrivateKey, String16, String8, Timestamp, Topic};

fn key(seed: u8) -> PrivateKey {
    PrivateKey::from_bytes([seed; 32])
}

fn user(seed: u8, name: &str) -> User {
    User::new_signed(
        String8::new(String::from(name)).unwrap(),
        Timestamp::new(10),
        &key(seed),
        I2PAddress::new(format!("{}.b32.i2p", name)),
    )
}

fn empty_filter() -> TopicFilter {
    TopicFilter::checked(TopicFilter { filter: fastbloom::BloomFilter::with_false_pos(0.0001).expected_items(16) }).unwrap()
}

#[test]
fn topics_the_asker_has_are_not_sent() {
    let mine = vec![Topic::from_bytes([1; 64]), Topic::from_bytes([2; 64])];
    let mut filter = empty_filter();
    insert_topics(&mut filter, &mine);
    let theirs = vec![Topic::from_bytes([2; 64]), Topic::from_bytes([3; 64]), Topic::from_bytes([1; 64])];
    let kept = filter_topics(theirs.clone(), &filter);
    assert!(kept.contains(&Topic::from_bytes([3; 64])));
    assert!(!kept.contains(&Topic::from_bytes([1; 64])));
    assert!(!kept.contains(&Topic::from_bytes([2; 64])));
}

#[test]
fn filtering_groups_keeps_their_types() {
    let mut filter = empty_filter();
    insert_topics(&mut filter, &vec![Topic::from_bytes([1; 64])]);
    let groups = vec![
        (EventType::User, vec![Topic::from_bytes([1; 64]), Topic::from_bytes([9; 64])]),
        (EventType::Post, vec![]),
    ];
    let all = filter_events(groups.clone(), None);
    assert_eq!(all[0].1.len(), 2);
    let some = filter_events(groups, Some(&filter));
    assert_eq!(some[0].0, EventType::User);
    assert_eq!(some[1].0, EventType::Post);
    assert!(!some[0].1.contains(&Topic::from_bytes([1; 64])));
}

#[test]
fn stream_counts_leave_out_invalid_groups() {
    let groups = vec![
        (EventType::Invalid, vec![Topic::from_bytes([0; 64])]),
        (EventType::Manga, vec![Topic::from_bytes([1; 64]), Topic::from_bytes([2; 64])]),
    ];
    assert_eq!(decode_streams(&groups), vec![(EventType::Manga, 2)]);
}

#[test]
fn sync_reply_names_what_to_send() {
    let alice = user(1, "alice");
    let user_topic = Topic::from_user(&alice);
    let events = vec![
        (EventType::User, vec![user_topic]),
        (EventType::Post, vec![Topic::from_bytes([5; 64])]),
    ];
    let (res, batches) = plan_sync_reply(&events, Timestamp::new(77));
    let payload = res.payload_if_ok().ok().unwrap();
    assert_eq!(payload.timestamp, Timestamp::new(77));
    assert_eq!(payload.decode_streams, vec![(EventType::User, 1), (EventType::Post, 1)]);
    match &batches[0] {
        SyncBatch::Users(keys) => assert_eq!(&keys[0], alice.pub_key()),
        _ => panic!("expected users"),
    }
    match &batches[1] {
        SyncBatch::Posts(sigs) => assert_eq!(sigs[0].to_inner(), [5u8; 64]),
        _ => panic!("expected posts"),
    }
}

#[test]
fn the_asker_keeps_only_items_whose_signature_holds() {
    let good = user(2, "bob");
    let mut bad = user(3, "carol");
    bad.set_address(I2PAddress::new(String::from("evil.b32.i2p")));
    let post = Post::new_signed(String16::new(String::from("p")).unwrap(), Timestamp::new(1), Topic::from_bytes([4; 64]), &key(4));

    let response = AkarekoProtocolResponse::<SyncEventsResponse, ()>::ok(SyncEventsResponse {
        timestamp: Timestamp::new(99),
        decode_streams: vec![(EventType::User, 2), (EventType::Post, 1)],
    });
    let mut wire = Vec::new();
    response.encode(&mut wire).unwrap();
    good.encode(&mut wire).unwrap();
    bad.encode(&mut wire).unwrap();
    post.encode(&mut wire).unwrap();

    let (res, pos) = AkarekoProtocolResponse::<SyncEventsResponse, ()>::decode(&wire, 0).unwrap();
    let payload = accept_sync_response(res).ok().unwrap();
    assert_eq!(payload.timestamp, Timestamp::new(99));
    let (groups, end) = read_sync_groups(&wire, pos, &payload.decode_streams);
    assert_eq!(end.ok(), Some(wire.len()));
    assert_eq!(groups.len(), 2);
    match &groups[0] {
        SyncGroup::Users(users) => {
            assert_eq!(users.len(), 1);
            assert_eq!(users[0].name(), "bob");
        }
        _ => panic!("expected users"),
    }
    match &groups[1] {
        SyncGroup::Posts(posts) => assert_eq!(posts.len(), 1),
        _ => panic!("expected posts"),
    }
}

#[test]
fn items_read_before_a_cut_are_kept() {
    let a = user(5, "dave");
    let mut wire = Vec::new();
    a.encode(&mut wire).unwrap();
    wire.extend_from_slice(&[0, 1, 2]);
    let (users, end) = read_verified::<User>(&wire, 0, 2);
    assert_eq!(users.len(), 1);
    assert!(end.is_err());
}

#[test]
fn who_answer_is_checked_against_the_askers_address() {
    let me = user(6, "erin");
    let asker = I2PAddress::new(String::from("frank.b32.i2p"));
    let res = who_answer_at(Some(me), &asker, &key(6), Timestamp::new(1000));
    let mut wire = Vec::new();
    res.encode(&mut wire).unwrap();
    let (back, _) = AkarekoProtocolResponse::<WhoResponse, ()>::decode(&wire, 0).unwrap();
    let accepted = accept_who_response(back, &asker).ok().unwrap();
    assert_eq!(accepted.name(), "erin");
    assert_eq!(accepted.trust(), &akareko::db::user::TrustLevel::Untrusted);

    let res = who_answer_at(Some(user(6, "erin")), &asker, &key(6), Timestamp::new(1000));
    let other = I2PAddress::new(String::from("someone.b32.i2p"));
    assert!(matches!(accept_who_response(res, &other), Err(ClientError::InvalidSignature)));

    let res = who_answer_at(None, &asker, &key(6), Timestamp::new(1000));
    assert!(matches!(accept_who_response(res, &asker), Err(ClientError::UnexpectedResponseCode { .. })));
}

#[test]
fn who_response_signed_bytes() {
    let r = WhoResponse::new_signed_at(user(7, "gina"), &I2PAddress::new(String::from("x")), &key(7), Timestamp::new(3));
    let mut expected = 3i64.to_le_bytes().to_vec();
    expected.push(b'x');
    assert_eq!(r.verification_bytes(&I2PAddress::new(String::from("x"))), expected);
    assert!(r.verify(&I2PAddress::new(String::from("x"))));
}

#[test]
fn get_users_answers() {
    let ok = get_users_answer(Some(vec![user(8, "hal")]));
    assert_eq!(ok.payload_if_ok().ok().unwrap().users.len(), 1);
    let failed = get_users_answer(None);
    assert_eq!(failed.status().code(), 500);
}
