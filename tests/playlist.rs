use ktv_casting::playlist_manager::{heartbeat_secs, sync_mode, sync_mode_for_upper, SyncMode};
use ktv_casting::engine::{cast_plan, CastStep};
use ktv_casting::error::EngineError;
use ktv_casting::playlist_manager::{
    next_song_outcome, should_reconcile, update_hash, PlaylistManager, SongChangeTracker,
    SongListReply, EMPTY_LIST_HASH,
};

fn reply(queued: &[&str], singing: Option<&str>, hash: &str) -> SongListReply {
    SongListReply {
        changed: Some(true),
        hash: Some(hash.to_string()),
        queued_urls: queued.iter().map(|u| Some(u.to_string())).collect(),
        singing_url: singing.map(|s| s.to_string()),
    }
}

fn unchanged() -> SongListReply {
    SongListReply { changed: Some(false), hash: None, queued_urls: vec![], singing_url: None }
}

const A: &str = "bilibili://video/BV1AAAAAAAAA";
const B: &str = "bilibili://video/BV1BBBBBBBBB?page=2";

#[test]
fn song_list_url_uses_sentinel_then_hash() {
    let mut pm = PlaylistManager::new("http://127.0.0.1:1145", "102".to_string());
    assert_eq!(
        pm.song_list_url(),
        format!("http://127.0.0.1:1145/api/songListInfo?roomId=102&lastHash={}", EMPTY_LIST_HASH)
    );
    pm.apply_song_list(&reply(&[A], Some(A), "h1"));
    assert_eq!(pm.song_list_url(), "http://127.0.0.1:1145/api/songListInfo?roomId=102&lastHash=h1");
    assert_eq!(pm.next_song_url(), "http://127.0.0.1:1145/api/nextSong?roomId=102");
    assert_eq!(pm.next_song_hash(), "h1");
}

#[test]
fn first_song_is_cast_once() {
    let mut pm = PlaylistManager::new("http://h", "1".to_string());
    let mut tracker = SongChangeTracker::new();
    let singing = pm.apply_song_list(&reply(&[A, B], Some(A), "h1"));
    assert_eq!(singing, Some("BV1AAAAAAAAA".to_string()));
    assert_eq!(pm.playlist(), vec!["BV1AAAAAAAAA".to_string(), "BV1BBBBBBBBB-page2".to_string()]);
    let fired = tracker.observe(singing);
    assert_eq!(fired, Some("BV1AAAAAAAAA".to_string()));
    let plan = cast_plan(&fired.unwrap(), 0xC0A8_0105, 8080);
    assert_eq!(
        plan,
        vec![
            CastStep::Stop,
            CastStep::SetUri {
                uri: "http://192.168.1.5:8080/BV1AAAAAAAAA".to_string(),
                metadata: String::new()
            },
            CastStep::Play,
        ]
    );
}

#[test]
fn skip_casts_next_song_once() {
    let mut pm = PlaylistManager::new("http://h", "1".to_string());
    let mut tracker = SongChangeTracker::new();
    let s1 = pm.apply_song_list(&reply(&[A, B], Some(A), "h1"));
    assert!(tracker.observe(s1).is_some());
    assert_eq!(next_song_outcome(Some(true)), Ok(()));
    let s2 = pm.apply_song_list(&reply(&[B], Some(B), "h2"));
    assert_eq!(tracker.observe(s2.clone()), Some("BV1BBBBBBBBB-page2".to_string()));
    assert_eq!(tracker.observe(s2), None);
    assert_eq!(pm.hash(), Some("h2".to_string()));
}

#[test]
fn skip_rejected_by_room() {
    assert_eq!(next_song_outcome(Some(false)), Err(EngineError::UpstreamRejected));
    assert_eq!(next_song_outcome(None), Err(EngineError::UpstreamRejected));
}

#[test]
fn spurious_hash_change_casts_nothing() {
    let mut pm = PlaylistManager::new("http://h", "1".to_string());
    let mut tracker = SongChangeTracker::new();
    let s1 = pm.apply_song_list(&reply(&[A, B], Some(A), "h1"));
    tracker.observe(s1);
    let announced = update_hash(Some("UPDATE"), Some("h3")).unwrap();
    assert!(should_reconcile(&announced, &pm.hash()));
    let s = pm.apply_song_list(&reply(&[A, B], Some(A), "h3"));
    assert_eq!(tracker.observe(s), None);
    assert_eq!(pm.hash(), Some("h3".to_string()));
    assert!(!should_reconcile("h3", &pm.hash()));
}

#[test]
fn unchanged_reply_keeps_state() {
    let mut pm = PlaylistManager::new("http://h", "1".to_string());
    pm.apply_song_list(&reply(&[A, B], Some(A), "h1"));
    let s = pm.apply_song_list(&unchanged());
    assert_eq!(s, Some("BV1AAAAAAAAA".to_string()));
    assert_eq!(pm.hash(), Some("h1".to_string()));
    assert_eq!(pm.playlist().len(), 2);
}

#[test]
fn reply_without_hash_or_urls() {
    let mut pm = PlaylistManager::new("http://h", "1".to_string());
    let r = SongListReply {
        changed: Some(true),
        hash: None,
        queued_urls: vec![None, Some(A.to_string())],
        singing_url: None,
    };
    assert_eq!(pm.apply_song_list(&r), None);
    assert_eq!(pm.hash(), Some(EMPTY_LIST_HASH.to_string()));
    assert_eq!(pm.playlist(), vec!["BV1AAAAAAAAA".to_string()]);
    assert_eq!(pm.get_song_playing(), None);
}

#[test]
fn casts_count_changes_of_song() {
    let keys = [Some("a"), Some("a"), None, Some("a"), Some("b"), Some("b"), None, None, Some("c")];
    let mut tracker = SongChangeTracker::new();
    let mut fired = 0;
    for k in keys.iter() {
        if tracker.observe(k.map(|s| s.to_string())).is_some() {
            fired += 1;
        }
    }
    assert_eq!(fired, 4);
}

#[test]
fn reconnect_with_same_song_casts_nothing() {
    let mut tracker = SongChangeTracker::starting_from(Some("k".to_string()));
    for _ in 0..3 {
        assert_eq!(tracker.observe(Some("k".to_string())), None);
    }
}

#[test]
fn update_frames() {
    assert_eq!(update_hash(Some("UPDATE"), Some("abc")), Some("abc".to_string()));
    assert_eq!(update_hash(Some("UPDATE"), None), Some(String::new()));
    assert_eq!(update_hash(Some("PING"), Some("abc")), None);
    assert_eq!(update_hash(None, Some("abc")), None);
    assert!(!should_reconcile("", &None));
    assert!(should_reconcile("x", &None));
}

#[test]
fn websocket_address() {
    let pm = PlaylistManager::new("https://ktv.example.com/", "102".to_string());
    assert_eq!(pm.ws_url("小明 a"), "wss://ktv.example.com/api/ws?roomId=102&nickname=%E5%B0%8F%E6%98%8E%20a");
    let pm = PlaylistManager::new("http://127.0.0.1:1145", "7".to_string());
    assert_eq!(pm.ws_url(""), "ws://127.0.0.1:1145/api/ws?roomId=7&nickname=");
}

#[test]
fn websocket_address_unparsable_base() {
    let pm = PlaylistManager::new("no scheme", "7".to_string());
    assert_eq!(pm.ws_url("a"), "no scheme/api/ws?roomId=7&nickname=a");
}

#[test]
fn sync_settings() {
    assert_eq!(sync_mode(None), SyncMode::WebSocket);
    assert_eq!(sync_mode(Some("polling")), SyncMode::Polling);
    assert_eq!(sync_mode(Some("WS")), SyncMode::WebSocket);
    assert_eq!(sync_mode_for_upper("POLLING"), SyncMode::Polling);
    assert_eq!(sync_mode_for_upper("polling"), SyncMode::WebSocket);
    assert_eq!(heartbeat_secs(None), 30);
    assert_eq!(heartbeat_secs(Some("12")), 12);
    assert_eq!(heartbeat_secs(Some("soon")), 30);
}

#[test]
fn websocket_address_is_normalized_by_parsing() {
    let pm = PlaylistManager::new("HTTPS://KTV.Example.COM", "1".to_string());
    assert_eq!(pm.ws_url(""), "wss://ktv.example.com/api/ws?roomId=1&nickname=");
}

#[test]
fn skip_result_reaches_the_tracker() {
    let mut pm = PlaylistManager::new("http://h", "1".to_string());
    let mut tracker = SongChangeTracker::new();
    assert_eq!(pm.take_reply(&mut tracker, &reply(&[A, B], Some(A), "h1")), Some("BV1AAAAAAAAA".to_string()));
    // The skip's own fetch brings song B and hash h2.
    assert_eq!(pm.take_reply(&mut tracker, &reply(&[B], Some(B), "h2")), Some("BV1BBBBBBBBB-page2".to_string()));
    // The server's UPDATE h2 then calls for no fetch, and B is not cast twice.
    let announced = update_hash(Some("UPDATE"), Some("h2")).unwrap();
    assert!(!should_reconcile(&announced, &pm.hash()));
    assert_eq!(pm.take_reply(&mut tracker, &unchanged()), None);
}

#[test]
fn song_returning_after_empty_slot_is_cast_again() {
    let mut pm = PlaylistManager::new("http://h", "1".to_string());
    let mut tracker = SongChangeTracker::new();
    assert!(pm.take_reply(&mut tracker, &reply(&[A], Some(A), "h1")).is_some());
    assert_eq!(pm.take_reply(&mut tracker, &reply(&[], None, "h2")), None);
    assert_eq!(pm.take_reply(&mut tracker, &reply(&[A], Some(A), "h3")), Some("BV1AAAAAAAAA".to_string()));
}
