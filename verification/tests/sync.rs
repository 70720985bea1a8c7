use fuo_client::app::{App, DecodeError};
use fuo_client::player::{PlayerMetadata, PlayerState};
use fuo_client::rpc::{subscription_commands, request_line, Message};

const STATUS_PLAYING: &[u8] = br#"{
    "song": {"title": "Song", "album_name": "Album", "artists_name": "Artist"},
    "duration": 300.0,
    "position": 42.5,
    "state": "playing"
}"#;

#[test]
fn full_sync_applies_every_field() {
    let mut app = App::new(0);
    app.inner.apply_status(STATUS_PLAYING, 1_000).unwrap();
    assert_eq!(app.inner.metadata.title, "Song");
    assert_eq!(app.inner.metadata.album, Some("Album".to_string()));
    assert_eq!(app.inner.metadata.artists, vec!["Artist".to_string()]);
    assert_eq!(app.inner.duration_ms, 300_000);
    assert_eq!(app.inner.state, PlayerState::Playing);
    assert!(!app.inner.progress.paused);
    assert_eq!(app.inner.progress.current(1_000), 42_500);
    assert_eq!(app.inner.progress.current(2_000), 43_500);
}

#[test]
fn sync_paused_freezes_at_position() {
    let body = br#"{"song":{"title":"T","album_name":"A","artists_name":"R"},
        "duration":10.0,"position":3.25,"state":"paused"}"#;
    let mut app = App::new(0);
    app.inner.apply_status(body, 500).unwrap();
    assert_eq!(app.inner.state, PlayerState::Paused);
    assert!(app.inner.progress.paused);
    assert_eq!(app.inner.progress.current(99_999), 3_250);
}

#[test]
fn sync_stopped_freezes_too() {
    let body = br#"{"song":{"title":"T","album_name":"A","artists_name":"R"},
        "duration":10.0,"position":3.0,"state":"stopped"}"#;
    let mut app = App::new(0);
    app.inner.apply_status(body, 500).unwrap();
    assert_eq!(app.inner.state, PlayerState::Stopped);
    assert!(app.inner.progress.paused);
}

#[test]
fn sync_unknown_state_defaults_to_stopped_frozen() {
    let body = br#"{"song":{"title":"T","album_name":"A","artists_name":"R"},
        "duration":10.0,"position":3.0,"state":"warming-up"}"#;
    let mut app = App::new(0);
    app.inner.apply_status(body, 500).unwrap();
    assert_eq!(app.inner.state, PlayerState::Stopped);
    assert!(app.inner.progress.paused);
    assert_eq!(app.inner.progress.current(9_000), 3_000);
}

#[test]
fn failed_sync_leaves_state_untouched() {
    let mut app = App::new(0);
    app.inner.apply_status(STATUS_PLAYING, 1_000).unwrap();
    let missing_field = br#"{"song":{"title":"X","album_name":"Y"},"duration":1.0,
        "position":0.5,"state":"paused"}"#;
    let err = app.inner.apply_status(missing_field, 2_000).unwrap_err();
    assert_eq!(err, DecodeError::Malformed);
    assert_eq!(app.inner.metadata.title, "Song");
    assert_eq!(app.inner.state, PlayerState::Playing);
    assert_eq!(app.inner.progress.anchor_ms, 1_000);

    let err = app.inner.apply_status(b"not json at all", 3_000).unwrap_err();
    assert_eq!(err, DecodeError::Malformed);
    assert_eq!(app.inner.metadata.title, "Song");
}

#[test]
fn stale_metadata_push_overrides_synced_position() {
    // Last writer wins: a metadata change arriving after a full sync
    // resets the position to 0, whatever the sync reported.
    let mut app = App::new(0);
    app.inner.apply_status(STATUS_PLAYING, 1_000).unwrap();
    assert_eq!(app.inner.progress.position_ms, 42_500);
    let push = Message {
        topic: "player.metadata_changed".to_string(),
        body: br#"[{"title":"Next","artists":["B"],"album":null}]"#.to_vec(),
    };
    app.inner.on_message(&push, 2_000).unwrap();
    assert_eq!(app.inner.metadata.title, "Next");
    assert_eq!(app.inner.progress.position_ms, 0);
    assert_eq!(app.inner.progress.anchor_ms, 2_000);
}

#[test]
fn apply_sync_orders_seek_before_freeze() {
    let mut app = App::new(0);
    let word = "paused".to_string();
    app.inner.apply_sync(PlayerMetadata::new(), 7_000, 60_000, &word, 123);
    assert_eq!(app.inner.progress.position_ms, 7_000);
    assert_eq!(app.inner.progress.anchor_ms, 123);
    assert!(app.inner.progress.paused);
}

#[test]
fn subscription_commands_cover_all_topics() {
    let topics = vec!["player.*".to_string(), "live_lyric.*".to_string()];
    let cmds = subscription_commands(&topics);
    assert_eq!(cmds.len(), 3);
    assert_eq!(cmds[0], b"set --pubsub-version 2.0\n".to_vec());
    assert_eq!(cmds[1], b"sub player.*\n".to_vec());
    assert_eq!(cmds[2], b"sub live_lyric.*\n".to_vec());
}

#[test]
fn request_lines_end_with_newline() {
    assert_eq!(request_line("status --format=json"), b"status --format=json\n".to_vec());
}
