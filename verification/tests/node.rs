use akareko::clients::mangadex::{MangaAttributes, MangaData, RelationType, Relationship};
use akareko::config::{
    loaded_or_default, AkarekoConfig, ConfigFile, I2PRouterConfig, KeyPair, SchedulerConfig, Settings,
    DEFAULT_SAM_TCP_PORT, DEFAULT_SAM_UDP_PORT,
};
use akareko::daemon::resource_state::{ResourceState, ResourceStateManager};
use akareko::daemon::{after_sync, start_sync, SyncStart};
use akareko::db::index::IndexFollow;
use akareko::db::schedule::{Schedule, ScheduleType, Scheduler};
use akareko::db::tags::MangaTag;
use akareko::db::user::I2PAddress;
use akareko::db::{page_count, page_offset, FullSyncTarget};
use akareko::errors::ServerError;
use akareko::server::handler::index::{list_answer, GetAllIndexesRequest, GetIndexesResponse};
use akareko::server::handler::post::post_content_answer;
use akareko::server::handler::relay_check;
use akareko::types::{PrivateKey, PublicKey, Timestamp, Topic};
use std::collections::HashMap;

fn schedule(when: i64, name: &str, seed: u8) -> Schedule {
    Schedule {
        when: Timestamp::new(when),
        address: I2PAddress::new(String::from(name)),
        schedule_type: ScheduleType::FullSync(PublicKey::from_bytes_unchecked([seed; 32])),
        last_sync: Timestamp::new(0),
    }
}

#[test]
fn the_scheduler_takes_the_latest_schedule_once_it_is_due() {
    let mut s = Scheduler::new();
    assert!(s.try_next_at(Timestamp::new(1000)).is_none());
    s.schedule(schedule(10, "a", 1));
    s.schedule(schedule(30, "b", 2));
    s.schedule(schedule(20, "c", 3));
    assert!(s.try_next_at(Timestamp::new(25)).is_none());
    let first = s.try_next_at(Timestamp::new(30)).unwrap();
    assert_eq!(first.address.as_str(), "b");
    let second = s.try_next_at(Timestamp::new(30)).unwrap();
    assert_eq!(second.address.as_str(), "c");
}

#[test]
fn removing_a_schedule_removes_every_copy() {
    let mut s = Scheduler::new();
    s.schedule(schedule(10, "a", 1));
    s.schedule(schedule(50, "a", 1));
    s.schedule(schedule(20, "b", 2));
    s.remove(schedule(0, "a", 1));
    let only = s.try_next_at(Timestamp::new(100)).unwrap();
    assert_eq!(only.address.as_str(), "b");
    assert!(s.try_next_at(Timestamp::new(100)).is_none());
}

#[test]
fn schedules_are_equal_by_target() {
    assert_eq!(schedule(1, "a", 1), schedule(2, "a", 1));
    assert_ne!(schedule(1, "a", 1), schedule(1, "a", 2));
    assert!(schedule(5, "a", 1).is_overdue_at(Timestamp::new(5)));
    assert!(!schedule(6, "a", 1).is_overdue_at(Timestamp::new(5)));
}

#[test]
fn a_full_sync_is_planned_again_one_interval_later() {
    let config = SchedulerConfig::default();
    assert_eq!(config.full_sync_interval, Timestamp::new(300));
    let s = schedule(10, "a", 1);
    let (next, target) = after_sync(s.clone(), Some(Timestamp::new(77)), Timestamp::new(1000), &config);
    assert_eq!(next.when, Timestamp::new(1300));
    assert_eq!(next.last_sync, Timestamp::new(77));
    let target = target.unwrap();
    assert_eq!(target.last_sync, Timestamp::new(77));
    assert_eq!(target.pub_key, PublicKey::from_bytes_unchecked([1; 32]));
    let (again, none) = after_sync(s, None, Timestamp::new(1000), &config);
    assert_eq!(again.when, Timestamp::new(1300));
    assert_eq!(again.last_sync, Timestamp::new(0));
    assert!(none.is_none());
}

#[test]
fn other_syncs_are_planned_again_at_once_from_zero() {
    let s = Schedule {
        when: Timestamp::new(5),
        address: I2PAddress::new(String::from("x")),
        schedule_type: ScheduleType::SyncPost(Topic::from_bytes([1; 64])),
        last_sync: Timestamp::new(9),
    };
    let (next, target) = after_sync(s, None, Timestamp::new(50), &SchedulerConfig::default());
    assert_eq!(next.when, Timestamp::new(50));
    assert_eq!(next.last_sync, Timestamp::new(0));
    assert!(target.is_none());
}

#[test]
fn a_sync_waits_for_its_resources() {
    assert!(matches!(start_sync(schedule(1, "a", 1), false, None), SyncStart::Defer(_)));
    assert!(matches!(start_sync(schedule(1, "a", 1), true, None), SyncStart::Drop));
    assert!(matches!(start_sync(schedule(1, "a", 1), true, Some(SchedulerConfig::default())), SyncStart::Run(_, _)));
}

#[test]
fn resource_states() {
    let mut m: ResourceStateManager<u32, String> = ResourceStateManager::new();
    assert!(m.get_value().is_none());
    assert!(!m.finish_load(Ok(1)));
    assert!(!m.load());
    assert!(m.load());
    assert!(m.finish_load(Ok(5)));
    assert_eq!(m.get_value(), Some(&5));
    assert_eq!(m.state().unwrap_ref(), &5);
    assert!(!m.unload());
    assert!(m.get_value().is_none());
    m.load();
    assert!(m.finish_load(Err(String::from("no"))));
    assert!(matches!(m.state(), ResourceState::Error(e) if e == "no"));
    assert!(!m.force_load(9));
    assert_eq!(m.get_value(), Some(&9));
}

#[test]
fn router_config_defaults_and_setters() {
    let mut c = I2PRouterConfig::default();
    assert!(c.use_embedded_router());
    assert_eq!(c.sam_tcp_port(), DEFAULT_SAM_TCP_PORT);
    assert_eq!(c.sam_udp_port(), DEFAULT_SAM_UDP_PORT);
    c.set_sam_tcp_port(1);
    c.set_sam_udp_port(2);
    c.set_use_embedded_router(false);
    assert_eq!((c.sam_tcp_port(), c.sam_udp_port(), c.use_embedded_router()), (1, 2, false));
}

#[test]
fn node_config_defaults_and_setters() {
    let k = PrivateKey::from_bytes([4; 32]);
    let mut c = AkarekoConfig::with_keypair(KeyPair::new(k.clone()));
    assert_eq!(c.public_key(), &k.public_key());
    assert_eq!(c.private_key().as_bytes(), k.as_bytes());
    assert_eq!(c.max_client_connections(), 8);
    assert!(!c.dev_mode());
    assert!(!c.is_relay());
    assert!(c.eepsite_key().is_empty());
    assert_eq!(c.scheduler_config().full_sync_interval, Timestamp::new(300));
    c.set_dev_mode(true);
    c.set_eepsite_data(I2PAddress::new(String::from("me.b32.i2p")), String::from("KEY"));
    assert!(c.dev_mode());
    assert_eq!(c.eepsite_address().as_str(), "me.b32.i2p");
    assert_eq!(c.eepsite_key(), "KEY");
    assert_eq!(relay_check(&c), Err(ServerError::RelayNotEnabled));
    let d = AkarekoConfig::default().unwrap();
    assert_eq!(d.public_key(), &PrivateKey::from_bytes(*d.private_key().as_bytes()).public_key());
}

#[test]
fn zoom_is_never_zero() {
    let mut s = Settings::default();
    assert_eq!(s.zoom(), 100);
    s.set_zoom(0);
    assert_eq!(s.zoom(), 1);
    s.set_zoom(250);
    assert_eq!(s.image_viewer_preferences().zoom, 250);
}

#[test]
fn a_missing_config_file_is_replaced_by_the_default() {
    assert_eq!(loaded_or_default(ConfigFile::Missing, 1), (1, true));
    assert_eq!(loaded_or_default(ConfigFile::Invalid, 1), (1, false));
    assert_eq!(loaded_or_default(ConfigFile::Parsed(7), 1), (7, false));
}

#[test]
fn pages() {
    assert_eq!(page_offset(3, 10), 20);
    assert_eq!(page_count(25, 10), 3);
    assert_eq!(page_count(20, 10), 3);
    assert_eq!(page_count(0, 10), 1);
}

#[test]
fn full_sync_targets() {
    let k = PublicKey::from_bytes_unchecked([2; 32]);
    let t = FullSyncTarget::new(k, Timestamp::new(4));
    assert_eq!(t.last_sync, Timestamp::new(4));
}

#[test]
fn follows_table() {
    assert_eq!(IndexFollow::<MangaTag>::table_name(), "mangas_follows");
    let f = IndexFollow::<MangaTag>::new(akareko::types::hash::Hash::new([0; 64]), true, Timestamp::new(1));
    let _ = f;
}

#[test]
fn requests_name_their_kind() {
    let _ = GetAllIndexesRequest::new::<MangaTag>(Some(Timestamp::new(1)), None);
    let ok = list_answer::<GetIndexesResponse, u8>(Some(vec![1, 2]), GetIndexesResponse {});
    assert!(ok.status().is_ok());
    let failed = list_answer::<GetIndexesResponse, u8>(None, GetIndexesResponse {});
    assert_eq!(failed.status().code(), 500);
    assert!(post_content_answer(true).status().is_ok());
    assert_eq!(post_content_answer(false).status().code(), 500);
}

fn attributes() -> MangaAttributes {
    MangaAttributes {
        title: HashMap::new(),
        alt_titles: vec![],
        description: HashMap::new(),
        is_locked: false,
        links: None,
        official_links: None,
        original_language: String::from("ja"),
        last_volume: None,
        last_chapter: None,
        publication_demographic: None,
        status: String::from("ongoing"),
        year: Some(1997),
        content_rating: String::from("safe"),
        tags: vec![],
        state: String::from("published"),
        created_at: String::new(),
        updated_at: String::new(),
        version: 1,
    }
}

#[test]
fn the_first_cover_art_is_the_cover() {
    let data = MangaData {
        id: String::from("m"),
        data_type: String::from("manga"),
        attributes: attributes(),
        relationships: vec![
            Relationship { id: String::from("a1"), rel_type: RelationType::Author },
            Relationship { id: String::from("c1"), rel_type: RelationType::CoverArt },
            Relationship { id: String::from("c2"), rel_type: RelationType::CoverArt },
        ],
    };
    assert_eq!(data.cover_id().map(|s| s.as_str()), Some("c1"));
    let none = MangaData { id: String::new(), data_type: String::new(), attributes: attributes(), relationships: vec![] };
    assert!(none.cover_id().is_none());
}
