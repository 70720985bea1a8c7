use fuo_client::app::{App, DecodeError};
use fuo_client::player::PlayerState;
use fuo_client::rpc::Message;

fn msg(topic: &str, body: &[u8]) -> Message {
    Message { topic: topic.to_string(), body: body.to_vec() }
}

fn fresh() -> App {
    App::new(0)
}

#[test]
fn state_changed_paused_freezes_clock() {
    let mut app = fresh();
    app.inner.on_message(&msg("player.seeked", b"[10.0]"), 1_000).unwrap();
    app.inner.on_message(&msg("player.state_changed", b"[1]"), 2_000).unwrap();
    assert_eq!(app.inner.state, PlayerState::Paused);
    assert_eq!(app.inner.progress.current(50_000), 11_000);
}

#[test]
fn state_changed_stopped_rewinds() {
    let mut app = fresh();
    app.inner.on_message(&msg("player.seeked", b"[10.0]"), 1_000).unwrap();
    app.inner.on_message(&msg("player.state_changed", b"[0]"), 2_000).unwrap();
    assert_eq!(app.inner.state, PlayerState::Stopped);
    assert_eq!(app.inner.progress.position_ms, 0);
}

#[test]
fn state_changed_playing_resumes() {
    let mut app = fresh();
    app.inner.on_message(&msg("player.state_changed", b"[1]"), 1_000).unwrap();
    app.inner.on_message(&msg("player.state_changed", b"[2]"), 5_000).unwrap();
    assert_eq!(app.inner.state, PlayerState::Playing);
    let at_resume = app.inner.progress.current(5_000);
    assert_eq!(app.inner.progress.current(6_000), at_resume + 1_000);
}

#[test]
fn unknown_state_code_is_rejected_and_skipped() {
    let mut app = fresh();
    let before = app.inner.progress.position_ms;
    let err = app.inner.on_message(&msg("player.state_changed", b"[7]"), 1_000).unwrap_err();
    assert_eq!(err, DecodeError::UnknownState);
    assert_eq!(app.inner.state, PlayerState::Stopped);
    assert_eq!(app.inner.progress.position_ms, before);
}

#[test]
fn malformed_state_payload_is_rejected() {
    let mut app = fresh();
    let err = app.inner.on_message(&msg("player.state_changed", b"[true]"), 1_000).unwrap_err();
    assert_eq!(err, DecodeError::Malformed);
    let err = app.inner.on_message(&msg("player.state_changed", b"not json"), 1_000).unwrap_err();
    assert_eq!(err, DecodeError::Malformed);
}

#[test]
fn seeked_event_anchors_position() {
    let mut app = fresh();
    app.inner.on_message(&msg("player.seeked", b"[12.5]"), 3_000).unwrap();
    assert_eq!(app.inner.progress.position_ms, 12_500);
    assert_eq!(app.inner.progress.anchor_ms, 3_000);
    assert_eq!(app.inner.progress.current(4_000), 13_500);
}

#[test]
fn seeked_accepts_exponent_numbers_through_json() {
    // The JSON layer canonicalizes 1e3 into plain decimal notation.
    let mut app = fresh();
    app.inner.on_message(&msg("player.seeked", b"[1e3]"), 0).unwrap();
    assert_eq!(app.inner.progress.position_ms, 1_000_000);
}

#[test]
fn seeked_truncates_to_milliseconds() {
    let mut app = fresh();
    app.inner.on_message(&msg("player.seeked", b"[0.0005]"), 0).unwrap();
    assert_eq!(app.inner.progress.position_ms, 0);
}

#[test]
fn negative_seek_is_rejected() {
    let mut app = fresh();
    let err = app.inner.on_message(&msg("player.seeked", b"[-1.0]"), 0).unwrap_err();
    assert_eq!(err, DecodeError::Malformed);
}

#[test]
fn duration_changed_sets_duration() {
    let mut app = fresh();
    app.inner.on_message(&msg("player.duration_changed", b"[301.5]"), 0).unwrap();
    assert_eq!(app.inner.duration_ms, 301_500);
}

#[test]
fn integer_durations_work_too() {
    let mut app = fresh();
    app.inner.on_message(&msg("player.duration_changed", b"[300]"), 0).unwrap();
    assert_eq!(app.inner.duration_ms, 300_000);
}

#[test]
fn metadata_changed_replaces_and_rewinds() {
    let mut app = fresh();
    app.inner.on_message(&msg("player.seeked", b"[99.0]"), 1_000).unwrap();
    app.inner
        .on_message(
            &msg(
                "player.metadata_changed",
                br#"[{"title":"Song","artists":["A","B"],"album":"Album"}]"#,
            ),
            2_000,
        )
        .unwrap();
    assert_eq!(app.inner.metadata.title, "Song");
    assert_eq!(app.inner.metadata.artists, vec!["A".to_string(), "B".to_string()]);
    assert_eq!(app.inner.metadata.album, Some("Album".to_string()));
    assert_eq!(app.inner.progress.position_ms, 0);
    assert_eq!(app.inner.progress.anchor_ms, 2_000);
}

#[test]
fn metadata_album_may_be_null_or_absent() {
    let mut app = fresh();
    app.inner
        .on_message(
            &msg("player.metadata_changed", br#"[{"title":"T","artists":[],"album":null}]"#),
            0,
        )
        .unwrap();
    assert_eq!(app.inner.metadata.album, None);
    app.inner
        .on_message(&msg("player.metadata_changed", br#"[{"title":"U","artists":[]}]"#), 0)
        .unwrap();
    assert_eq!(app.inner.metadata.title, "U");
    assert_eq!(app.inner.metadata.album, None);
}

#[test]
fn metadata_missing_title_is_rejected() {
    let mut app = fresh();
    let err = app
        .inner
        .on_message(&msg("player.metadata_changed", br#"[{"artists":[]}]"#), 0)
        .unwrap_err();
    assert_eq!(err, DecodeError::Malformed);
}

#[test]
fn lyric_sentence_changes() {
    let mut app = fresh();
    app.inner.on_message(&msg("live_lyric.sentence_changed", br#"["la la"]"#), 0).unwrap();
    assert_eq!(app.inner.lyric_s, "la la");
}

#[test]
fn empty_lyric_payload_is_ignored() {
    let mut app = fresh();
    let before = app.inner.lyric_s.clone();
    app.inner.on_message(&msg("live_lyric.sentence_changed", b""), 0).unwrap();
    assert_eq!(app.inner.lyric_s, before);
}

#[test]
fn unknown_topics_are_ignored() {
    let mut app = fresh();
    let lyric = app.inner.lyric_s.clone();
    app.inner.on_message(&msg("player.playlist_changed", b"[1,2,3]"), 0).unwrap();
    assert_eq!(app.inner.lyric_s, lyric);
    assert_eq!(app.inner.state, PlayerState::Stopped);
    assert_eq!(app.inner.duration_ms, 0);
}

#[test]
fn new_app_has_default_values() {
    let mut app = App::new(7);
    assert_eq!(app.inner.lyric_s, "暂无歌词");
    assert_eq!(app.inner.metadata.title, "");
    assert_eq!(app.inner.state, PlayerState::Stopped);
    assert_eq!(app.inner.duration_ms, 0);
    assert_eq!(app.inner.progress.anchor_ms, 7);
    assert!(!app.inner.progress.paused);
    app.on_tick();
    assert_eq!(app.inner.lyric_s, "暂无歌词");
}

#[test]
fn snapshot_copies_the_state() {
    let mut app = fresh();
    app.inner.on_message(&msg("player.seeked", b"[5.0]"), 100).unwrap();
    let snap = app.snapshot();
    assert_eq!(snap.lyric_s, app.inner.lyric_s);
    assert_eq!(snap.metadata.title, app.inner.metadata.title);
    assert_eq!(snap.metadata.artists, app.inner.metadata.artists);
    assert_eq!(snap.metadata.album, app.inner.metadata.album);
    assert_eq!(snap.progress.position_ms, 5_000);
    assert_eq!(snap.duration_ms, app.inner.duration_ms);
    assert_eq!(snap.state, app.inner.state);
}
