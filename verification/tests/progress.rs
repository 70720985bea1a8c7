use fuo_client::player::{PlayerMetadata, PlayerState, Progress};
use fuo_client::ui::fmt_duration;

#[test]
fn fresh_clock_runs_from_zero() {
    let p = Progress::new(1_000);
    assert_eq!(p.current(1_000), 0);
    assert_eq!(p.current(4_500), 3_500);
}

#[test]
fn seek_then_resume_then_read() {
    // Seek to 30 s, resume, let 5 s pass: the position reads 35 s.
    let mut p = Progress::new(0);
    p.on_seeked(10_000, 30_000);
    p.resume(10_000);
    assert_eq!(p.current(15_000), 35_000);
}

#[test]
fn pause_freezes_the_position() {
    let mut p = Progress::new(0);
    p.on_seeked(1_000, 20_000);
    p.pause(3_000);
    assert_eq!(p.current(3_000), 22_000);
    assert_eq!(p.current(60_000), 22_000);
}

#[test]
fn pause_twice_is_idempotent() {
    let mut p = Progress::new(0);
    p.on_seeked(1_000, 20_000);
    p.pause(2_000);
    let frozen = p.current(5_000);
    p.pause(5_000);
    assert_eq!(p.current(5_000), frozen);
    assert_eq!(p.current(90_000), frozen);
}

#[test]
fn reads_are_monotone_while_playing() {
    let mut p = Progress::new(0);
    p.on_seeked(1_000, 5_000);
    let mut last = p.current(1_000);
    for t in [1_500u64, 2_000, 2_000, 7_777] {
        let c = p.current(t);
        assert!(c >= last);
        last = c;
    }
}

#[test]
fn seek_keeps_the_mode() {
    let mut p = Progress::new(0);
    p.pause(1_000);
    p.on_seeked(2_000, 40_000);
    assert_eq!(p.current(9_000), 40_000);
    p.resume(9_000);
    p.on_seeked(10_000, 1_000);
    assert_eq!(p.current(10_500), 1_500);
}

#[test]
fn resume_banks_elapsed_time() {
    let mut p = Progress::new(0);
    p.on_seeked(0, 10_000);
    p.resume(4_000);
    assert_eq!(p.current(4_000), 14_000);
    assert_eq!(p.current(5_000), 15_000);
}

#[test]
fn state_codes_decode() {
    assert_eq!(PlayerState::try_from(0), Ok(PlayerState::Stopped));
    assert_eq!(PlayerState::try_from(1), Ok(PlayerState::Paused));
    assert_eq!(PlayerState::try_from(2), Ok(PlayerState::Playing));
    assert_eq!(PlayerState::try_from(3), Err(()));
    assert_eq!(PlayerState::try_from(u64::MAX), Err(()));
}

#[test]
fn placeholder_metadata() {
    let m = PlayerMetadata::new();
    assert_eq!(m.title, "");
    assert_eq!(m.artists, vec!["".to_string()]);
    assert_eq!(m.album, Some("".to_string()));
}

#[test]
fn durations_format_zero_padded() {
    assert_eq!(fmt_duration(0), "00:00");
    assert_eq!(fmt_duration(999), "00:00");
    assert_eq!(fmt_duration(1_000), "00:01");
    assert_eq!(fmt_duration(61_000), "01:01");
    assert_eq!(fmt_duration(3_599_000), "59:59");
    assert_eq!(fmt_duration(3_600_000), "01:00:00");
    assert_eq!(fmt_duration(3_661_000), "01:01:01");
    assert_eq!(fmt_duration(36_000_000), "10:00:00");
    assert_eq!(fmt_duration(360_000_000), "100:00:00");
}
