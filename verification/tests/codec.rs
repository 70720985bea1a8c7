use fuo_client::rpc::{
    decode_frame, encode_message, encode_response, parse_status_line, FrameHeader, ProtocolError,
    RespOrMsg,
};

fn decode_ok(input: &[u8]) -> (RespOrMsg, usize) {
    decode_frame(input).expect("frame should decode")
}

#[test]
fn decode_ack_ok_hello() {
    let (frame, used) = decode_ok(b"ACK OK 5\r\nhello\r\n");
    match frame {
        RespOrMsg::Response(resp) => {
            assert!(resp.ok);
            assert_eq!(resp.body, b"hello".to_vec());
        }
        RespOrMsg::Message(_) => panic!("expected a response"),
    }
    assert_eq!(used, b"ACK OK 5\r\nhello\r\n".len());
}

#[test]
fn decode_ack_failed_is_not_ok() {
    let (frame, _) = decode_ok(b"ACK failed 2\r\nno\r\n");
    match frame {
        RespOrMsg::Response(resp) => {
            assert!(!resp.ok);
            assert_eq!(resp.body, b"no".to_vec());
        }
        RespOrMsg::Message(_) => panic!("expected a response"),
    }
}

#[test]
fn decode_is_case_insensitive() {
    let (frame, _) = decode_ok(b"aCk Ok 1\r\nx\r\n");
    match frame {
        RespOrMsg::Response(resp) => assert!(resp.ok),
        RespOrMsg::Message(_) => panic!("expected a response"),
    }
}

#[test]
fn decode_msg_seeked() {
    let (frame, used) = decode_ok(b"MSG player.seeked 4\r\n12.5\r\n");
    match frame {
        RespOrMsg::Message(m) => {
            assert_eq!(m.topic, "player.seeked");
            assert_eq!(m.body, b"12.5".to_vec());
        }
        RespOrMsg::Response(_) => panic!("expected a message"),
    }
    assert_eq!(used, b"MSG player.seeked 4\r\n12.5\r\n".len());
}

#[test]
fn decode_tolerates_extra_tokens() {
    let (frame, _) = decode_ok(b"MSG topic extra tokens 3\r\nabc\r\n");
    match frame {
        RespOrMsg::Message(m) => {
            assert_eq!(m.topic, "topic");
            assert_eq!(m.body, b"abc".to_vec());
        }
        RespOrMsg::Response(_) => panic!("expected a message"),
    }
}

#[test]
fn decode_body_may_hold_newlines() {
    let (frame, used) = decode_ok(b"ACK OK 5\r\na\nb\nc\r\nrest");
    match frame {
        RespOrMsg::Response(resp) => assert_eq!(resp.body, b"a\nb\nc".to_vec()),
        RespOrMsg::Message(_) => panic!("expected a response"),
    }
    assert_eq!(used, b"ACK OK 5\r\na\nb\nc\r\n".len());
}

#[test]
fn empty_input_is_disconnected() {
    assert_eq!(decode_frame(b""), Err(ProtocolError::Disconnected));
}

#[test]
fn truncated_body_is_disconnected() {
    assert_eq!(decode_frame(b"ACK OK 5\r\nhel"), Err(ProtocolError::Disconnected));
}

#[test]
fn unknown_tag_is_malformed() {
    assert_eq!(decode_frame(b"FOO x 1\r\na\r\n"), Err(ProtocolError::Malformed));
}

#[test]
fn unparsable_length_is_malformed() {
    assert_eq!(decode_frame(b"ACK OK x\r\n"), Err(ProtocolError::Malformed));
    assert_eq!(decode_frame(b"ACK 18446744073709551616\r\n"), Err(ProtocolError::Malformed));
}

#[test]
fn lone_token_line_is_malformed() {
    assert_eq!(decode_frame(b"ACK\r\nrest"), Err(ProtocolError::Malformed));
    assert_eq!(decode_frame(b"\r\nrest"), Err(ProtocolError::Malformed));
}

#[test]
fn response_round_trips() {
    for body in [&b""[..], b"hello", b"line1\nline2", &[0u8, 255, 13, 10]] {
        for ok in [true, false] {
            let encoded = encode_response(ok, body);
            let (frame, used) = decode_ok(&encoded);
            match frame {
                RespOrMsg::Response(resp) => {
                    assert_eq!(resp.ok, ok);
                    assert_eq!(resp.body, body.to_vec());
                }
                RespOrMsg::Message(_) => panic!("expected a response"),
            }
            assert_eq!(used, encoded.len());
        }
    }
}

#[test]
fn message_round_trips() {
    let encoded = encode_message("player.seeked", b"12.5");
    let (frame, used) = decode_ok(&encoded);
    match frame {
        RespOrMsg::Message(m) => {
            assert_eq!(m.topic, "player.seeked");
            assert_eq!(m.body, b"12.5".to_vec());
        }
        RespOrMsg::Response(_) => panic!("expected a message"),
    }
    assert_eq!(used, encoded.len());
}

#[test]
fn message_round_trips_with_wide_topic() {
    let encoded = encode_message("歌词.变更", b"body");
    let (frame, _) = decode_ok(&encoded);
    match frame {
        RespOrMsg::Message(m) => {
            assert_eq!(m.topic, "歌词.变更");
            assert_eq!(m.body, b"body".to_vec());
        }
        RespOrMsg::Response(_) => panic!("expected a message"),
    }
}

#[test]
fn status_line_parses_plus_length() {
    let header: FrameHeader = parse_status_line(b"ACK OK +5\r\n").expect("header");
    assert!(header.is_ack);
    assert_eq!(header.body_len, 5);
    assert_eq!(header.arg, b"OK".to_vec());
}

#[test]
fn empty_line_read_is_disconnected() {
    assert_eq!(
        parse_status_line(b"").expect_err("empty read means the peer left"),
        ProtocolError::Disconnected
    );
}
