use fuo_client::ascii::{parse_usize_token, tokenize};
use fuo_client::num::millis_from_number_token;

#[test]
fn tokenizer_splits_on_any_whitespace() {
    let toks = tokenize(b"  MSG\tplayer.seeked \r\n 4\r");
    assert_eq!(
        toks,
        vec![b"MSG".to_vec(), b"player.seeked".to_vec(), b"4".to_vec()]
    );
    assert_eq!(tokenize(b""), Vec::<Vec<u8>>::new());
    assert_eq!(tokenize(b" \r\n\t"), Vec::<Vec<u8>>::new());
}

#[test]
fn length_tokens_parse_like_std() {
    assert_eq!(parse_usize_token(b"0"), Some(0));
    assert_eq!(parse_usize_token(b"42"), Some(42));
    assert_eq!(parse_usize_token(b"+42"), Some(42));
    assert_eq!(parse_usize_token(b""), None);
    assert_eq!(parse_usize_token(b"+"), None);
    assert_eq!(parse_usize_token(b"4x"), None);
    assert_eq!(parse_usize_token(b"-4"), None);
    assert_eq!(parse_usize_token(b"18446744073709551615"), Some(usize::MAX));
    assert_eq!(parse_usize_token(b"18446744073709551616"), None);
}

#[test]
fn second_tokens_read_as_milliseconds() {
    assert_eq!(millis_from_number_token(b"12.5"), Some(12_500));
    assert_eq!(millis_from_number_token(b"300"), Some(300_000));
    assert_eq!(millis_from_number_token(b"0"), Some(0));
    assert_eq!(millis_from_number_token(b"0.001"), Some(1));
    assert_eq!(millis_from_number_token(b"0.0005"), Some(0));
    assert_eq!(millis_from_number_token(b"1.23456"), Some(1_234));
}

#[test]
fn negative_seconds_are_rejected_but_negative_zero_reads_zero() {
    assert_eq!(millis_from_number_token(b"-1"), None);
    assert_eq!(millis_from_number_token(b"-0.5"), None);
    assert_eq!(millis_from_number_token(b"-0"), Some(0));
    assert_eq!(millis_from_number_token(b"-0.000"), Some(0));
}

#[test]
fn ill_shaped_number_tokens_are_rejected() {
    assert_eq!(millis_from_number_token(b""), None);
    assert_eq!(millis_from_number_token(b"."), None);
    assert_eq!(millis_from_number_token(b"1."), None);
    assert_eq!(millis_from_number_token(b".5"), None);
    assert_eq!(millis_from_number_token(b"1.2.3"), None);
    assert_eq!(millis_from_number_token(b"1e3"), None);
    assert_eq!(millis_from_number_token(b"abc"), None);
}

#[test]
fn overlarge_seconds_are_rejected() {
    // u64::MAX milliseconds is about 5.8e8 years; anything beyond has no
    // place on a playback clock.
    assert_eq!(millis_from_number_token(b"99999999999999999999"), None);
    assert_eq!(millis_from_number_token(b"18446744073709551.615"), Some(u64::MAX));
    assert_eq!(millis_from_number_token(b"18446744073709551.616"), None);
}
