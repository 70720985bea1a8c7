//! The wire-level frame codec shared by the control and the push
//! connection, and the line-building rules of both: request framing and
//! the subscription handshake.
//!
//! A frame is one status line, terminated by a line feed, followed by a
//! length-prefixed body and two trailing bytes that are discarded without
//! being checked:
//!
//! ```text
//! <TAG> <arg ...> <bodyLength>\r\n
//! <bodyLength body bytes><2 trailing bytes>
//! ```
//!
//! The status line is tokenized on ASCII whitespace. The first token is
//! the tag, `ACK` or `MSG` in any case; the last token is the body length
//! in decimal; the token right after the tag is the status word of an
//! `ACK` or the topic of a `MSG`. Tokens between that one and the length
//! are tolerated and ignored.

use crate::ascii::{
    folds_to, is_digit, is_ws, lemma_dec_bytes_digits, lemma_dec_bytes_value,
    lemma_tokens_drop_ws, lemma_tokens_prepend, lower, parse_usize_token, push_bytes, push_dec,
    spec_dec_bytes, spec_parse_usize, spec_tokens, tokenize,
};
use vstd::prelude::*;
use vstd::utf8::{decode_utf8, encode_utf8, valid_utf8};

verus! {

/// Why a frame could not be decoded: the peer closed or broke off where
/// bytes were owed, or the bytes read do not form a frame.
#[derive(Clone, Copy, Debug, PartialEq, Eq, Structural)]
pub enum ProtocolError {
    Disconnected,
    Malformed,
}

/// A reply on the request path: the status word said `OK` (in any case),
/// and the body bytes.
#[derive(Debug, PartialEq, Eq)]
pub struct Response {
    pub ok: bool,
    pub body: Vec<u8>,
}

/// A pushed notification: the topic it was published under, and the body
/// bytes.
#[derive(Debug, PartialEq, Eq)]
pub struct Message {
    pub topic: String,
    pub body: Vec<u8>,
}

/// One decoded frame, of either kind.
#[derive(Debug, PartialEq, Eq)]
pub enum RespOrMsg {
    Response(Response),
    Message(Message),
}

/// The multiplexer's routing rule: pushed messages go to the handler,
/// stray responses on the push connection are discarded.
pub fn route_frame(f: RespOrMsg) -> (r: Option<Message>)
    ensures
        match f {
            RespOrMsg::Message(m) => r == Some(m),
            RespOrMsg::Response(_) => r is None,
        },
{
    match f {
        RespOrMsg::Message(m) => Some(m),
        RespOrMsg::Response(_) => None,
    }
}

/// The byte forms the status line is matched against, already folded to
/// lower case.
pub open spec fn ack_bytes() -> Seq<u8> {
    seq![97u8, 99u8, 107u8]
}

pub open spec fn msg_bytes() -> Seq<u8> {
    seq![109u8, 115u8, 103u8]
}

pub open spec fn ok_bytes() -> Seq<u8> {
    seq![111u8, 107u8]
}

/// A status line is well-formed when it has at least two tokens, its
/// first token reads `ack` or `msg` case-insensitively, and its last
/// token is a decimal length that fits in `usize`.
pub open spec fn header_wf(line: Seq<u8>) -> bool {
    let toks = spec_tokens(line);
    &&& line.len() > 0
    &&& toks.len() >= 2
    &&& (folds_to(toks[0], ack_bytes()) || folds_to(toks[0], msg_bytes()))
    &&& spec_parse_usize(toks.last()) is Some
}

pub open spec fn header_is_ack(line: Seq<u8>) -> bool {
    folds_to(spec_tokens(line)[0], ack_bytes())
}

/// The token right after the tag: the status word of an `ACK`, the topic
/// of a `MSG`.
pub open spec fn header_arg(line: Seq<u8>) -> Seq<u8> {
    spec_tokens(line)[1]
}

pub open spec fn header_len(line: Seq<u8>) -> nat {
    spec_parse_usize(spec_tokens(line).last()).unwrap()
}

/// Law: how a status line is read depends on its token list alone. Two
/// lines with the same tokens — however much whitespace stands between
/// them, and whatever extra tokens sit between the tag's argument and
/// the final length — are well-formed together and carry the same tag,
/// argument and body length.
pub proof fn lemma_header_depends_on_tokens(l1: Seq<u8>, l2: Seq<u8>)
    requires
        spec_tokens(l1) == spec_tokens(l2),
        l1.len() > 0,
        l2.len() > 0,
    ensures
        header_wf(l1) == header_wf(l2),
        header_wf(l1) ==> header_is_ack(l1) == header_is_ack(l2) && header_arg(l1) == header_arg(
            l2,
        ) && header_len(l1) == header_len(l2),
{
}

/// The significant parts of one parsed status line.
#[derive(Debug, PartialEq, Eq)]
pub struct FrameHeader {
    pub is_ack: bool,
    pub arg: Vec<u8>,
    pub body_len: usize,
}

/// Parse one status line, stripped of nothing: the trailing `\r` (and
/// even a trailing `\n`) may stay, whitespace carries no meaning beyond
/// separating tokens. An empty line stands for a read that returned no
/// bytes, which means the peer is gone.
pub fn parse_status_line(line: &[u8]) -> (r: Result<FrameHeader, ProtocolError>)
    ensures
        line@.len() == 0 ==> r == Err::<FrameHeader, ProtocolError>(ProtocolError::Disconnected),
        line@.len() > 0 && !header_wf(line@) ==> r == Err::<FrameHeader, ProtocolError>(
            ProtocolError::Malformed,
        ),
        header_wf(line@) ==> r is Ok,
        r matches Ok(h) ==> header_wf(line@) && h.is_ack == header_is_ack(line@) && h.arg@
            == header_arg(line@) && h.body_len as nat == header_len(line@),
{
    if line.len() == 0 {
        return Err(ProtocolError::Disconnected);
    }
    let toks = tokenize(line);
    proof {
        assert(toks.deep_view().len() == toks@.len());
    }
    if toks.len() < 2 {
        return Err(ProtocolError::Malformed);
    }
    proof {
        assert(toks@[0].deep_view() == toks.deep_view()[0]);
        assert(toks@[0].deep_view() =~= toks@[0]@);
        assert(toks@[1].deep_view() =~= toks@[1]@);
        assert(toks@[toks@.len() - 1].deep_view() =~= toks@[toks@.len() - 1]@);
        assert(toks.deep_view().last() == toks.deep_view()[toks@.len() - 1]);
    }
    let is_ack = folds_to3(toks[0].as_slice(), 97, 99, 107);
    let is_msg = folds_to3(toks[0].as_slice(), 109, 115, 103);
    if !is_ack && !is_msg {
        return Err(ProtocolError::Malformed);
    }
    let last = toks.len() - 1;
    let body_len = match parse_usize_token(toks[last].as_slice()) {
        Some(n) => n,
        None => {
            return Err(ProtocolError::Malformed);
        },
    };
    let arg = copy_bytes(toks[1].as_slice());
    Ok(FrameHeader { is_ack, arg, body_len })
}

/// Case-insensitive comparison of a token against three folded bytes.
fn folds_to3(t: &[u8], p0: u8, p1: u8, p2: u8) -> (r: bool)
    ensures
        r == folds_to(t@, seq![p0, p1, p2]),
{
    let ghost m = t@.map_values(|b: u8| lower(b));
    proof {
        assert(m.len() == t@.len());
    }
    if t.len() != 3 {
        return false;
    }
    let r = lower_byte(t[0]) == p0 && lower_byte(t[1]) == p1 && lower_byte(t[2]) == p2;
    proof {
        assert(m[0] == lower(t@[0]) && m[1] == lower(t@[1]) && m[2] == lower(t@[2]));
        if r {
            assert(m =~= seq![p0, p1, p2]);
        }
    }
    r
}

fn lower_byte(b: u8) -> (r: u8)
    ensures
        r == lower(b),
{
    if 65 <= b && b <= 90 {
        b + 32
    } else {
        b
    }
}

fn copy_bytes(t: &[u8]) -> (r: Vec<u8>)
    ensures
        r@ == t@,
{
    let mut out: Vec<u8> = Vec::new();
    push_bytes(&mut out, t);
    out
}

/// Relies on `String::from_utf8`: it returns `Ok` exactly on valid UTF-8
/// input, and the returned string then reads as the decoding of those
/// bytes (its own byte form is the input again).
#[verifier::external_body]
fn bytes_to_string(b: Vec<u8>) -> (r: Option<String>)
    ensures
        r is Some <==> valid_utf8(b@),
        r matches Some(s) ==> s@ == decode_utf8(b@) && encode_utf8(s@) == b@,
{
    String::from_utf8(b).ok()
}

/// Assemble the decoded frame from a parsed status line and the raw
/// bytes read after it: the body plus two trailing bytes, which are
/// dropped without being looked at. An `ACK` frame succeeds when its
/// status word folds to `ok`; a `MSG` frame carries its topic as text,
/// so a topic that is not UTF-8 is malformed.
pub fn finish_frame(header: FrameHeader, raw: Vec<u8>) -> (r: Result<RespOrMsg, ProtocolError>)
    requires
        raw@.len() == header.body_len + 2,
    ensures
        header.is_ack ==> (r matches Ok(f) && f matches RespOrMsg::Response(resp) && resp.ok
            == folds_to(header.arg@, ok_bytes()) && resp.body@ == raw@.take(
            header.body_len as int,
        )),
        !header.is_ack && valid_utf8(header.arg@) ==> (r matches Ok(f) && f
            matches RespOrMsg::Message(m) && m.topic@ == decode_utf8(header.arg@) && m.body@
            == raw@.take(header.body_len as int)),
        !header.is_ack && !valid_utf8(header.arg@) ==> r == Err::<RespOrMsg, ProtocolError>(
            ProtocolError::Malformed,
        ),
{
    let FrameHeader { is_ack, arg, body_len } = header;
    let mut body = raw;
    body.truncate(body_len);
    if is_ack {
        let ok = folds_to2(arg.as_slice(), 111, 107);
        Ok(RespOrMsg::Response(Response { ok, body }))
    } else {
        match bytes_to_string(arg) {
            Some(topic) => Ok(RespOrMsg::Message(Message { topic, body })),
            None => Err(ProtocolError::Malformed),
        }
    }
}

/// Index of the first line feed in `s`, or `s.len()` if there is none.
pub open spec fn first_line_end(s: Seq<u8>) -> nat
    decreases s.len(),
{
    if s.len() == 0 {
        0
    } else if s[0] == 10 {
        0
    } else {
        1 + first_line_end(s.drop_first())
    }
}

proof fn lemma_first_line_end_scan(s: Seq<u8>, k: nat)
    requires
        k <= s.len(),
        forall|j: int| 0 <= j < k ==> s[j] != 10,
        k < s.len() ==> s[k as int] == 10,
    ensures
        first_line_end(s) == k,
    decreases s.len(),
{
    if s.len() == 0 {
    } else if s[0] == 10 {
    } else {
        assert(forall|j: int| 0 <= j < k - 1 ==> s.drop_first()[j] == s[j + 1]);
        if k < s.len() {
            assert(s.drop_first()[k - 1] == s[k as int]);
        }
        lemma_first_line_end_scan(s.drop_first(), (k - 1) as nat);
    }
}

/// Spec-level image of a decoded frame, over views.
pub enum SpecFrame {
    Resp { ok: bool, body: Seq<u8> },
    Msg { topic: Seq<char>, body: Seq<u8> },
}

pub open spec fn frame_matches(f: RespOrMsg, sf: SpecFrame) -> bool {
    match f {
        RespOrMsg::Response(resp) => sf matches SpecFrame::Resp { ok, body } && resp.ok == ok
            && resp.body@ == body,
        RespOrMsg::Message(m) => sf matches SpecFrame::Msg { topic, body } && m.topic@ == topic
            && m.body@ == body,
    }
}

/// What decoding one frame from the front of `input` yields: the frame
/// and the number of bytes it occupied, or the error. An empty input, or
/// one that ends before the promised body does, stands for a peer that
/// closed; everything else unreadable is malformed.
pub open spec fn spec_decode(input: Seq<u8>) -> Result<(SpecFrame, nat), ProtocolError> {
    if input.len() == 0 {
        Err(ProtocolError::Disconnected)
    } else {
        let k = first_line_end(input);
        let line = input.take(k as int);
        let rest_at = if k < input.len() {
            k + 1
        } else {
            k
        };
        let rest = input.skip(rest_at as int);
        if !header_wf(line) {
            Err(ProtocolError::Malformed)
        } else {
            let n = header_len(line);
            if rest.len() < n + 2 {
                Err(ProtocolError::Disconnected)
            } else if header_is_ack(line) {
                Ok(
                    (
                        SpecFrame::Resp {
                            ok: folds_to(header_arg(line), ok_bytes()),
                            body: rest.take(n as int),
                        },
                        rest_at + n + 2,
                    ),
                )
            } else if valid_utf8(header_arg(line)) {
                Ok(
                    (
                        SpecFrame::Msg {
                            topic: decode_utf8(header_arg(line)),
                            body: rest.take(n as int),
                        },
                        rest_at + n + 2,
                    ),
                )
            } else {
                Err(ProtocolError::Malformed)
            }
        }
    }
}

/// Decode one frame from the front of a byte buffer. This is the pure
/// core of reading a frame from a stream: the buffer stands for what the
/// stream yields, an empty buffer for a read that returned no bytes, and
/// a buffer shorter than the promised body for a peer that closed
/// mid-frame. On success the frame is returned with the number of bytes
/// it occupied.
pub fn decode_frame(input: &[u8]) -> (r: Result<(RespOrMsg, usize), ProtocolError>)
    ensures
        spec_decode(input@) matches Err(e) ==> r == Err::<(RespOrMsg, usize), ProtocolError>(e),
        spec_decode(input@) matches Ok(p) ==> (r matches Ok(q) && frame_matches(q.0, p.0)
            && q.1 as nat == p.1),
{
    if input.len() == 0 {
        return Err(ProtocolError::Disconnected);
    }
    let mut k: usize = 0;
    while k < input.len() && input[k] != 10
        invariant
            k <= input@.len(),
            forall|j: int| 0 <= j < k ==> input@[j] != 10,
        decreases input@.len() - k,
    {
        k = k + 1;
    }
    proof {
        lemma_first_line_end_scan(input@, k as nat);
    }
    let line = vstd::slice::slice_subrange(input, 0, k);
    proof {
        assert(line@ =~= input@.take(k as int));
    }
    // Inside a non-empty buffer an unreadable status line is malformed,
    // even when it is empty: only a read that yields no bytes at all
    // means the peer is gone.
    let header = match parse_status_line(line) {
        Ok(h) => h,
        Err(_) => {
            return Err(ProtocolError::Malformed);
        },
    };
    let rest_at = if k < input.len() {
        k + 1
    } else {
        k
    };
    let remaining = input.len() - rest_at;
    proof {
        assert(input@.skip(rest_at as int).len() == remaining);
    }
    if remaining < 2 || remaining - 2 < header.body_len {
        return Err(ProtocolError::Disconnected);
    }
    let take_end = rest_at + header.body_len + 2;
    let raw = copy_bytes(vstd::slice::slice_subrange(input, rest_at, take_end));
    proof {
        assert(raw@ =~= input@.skip(rest_at as int).take(header.body_len + 2));
        assert(raw@.take(header.body_len as int) =~= input@.skip(rest_at as int).take(
            header.body_len as int,
        ));
    }
    match finish_frame(header, raw) {
        Ok(f) => Ok((f, take_end)),
        Err(e) => Err(e),
    }
}

/// The status word a response is encoded with: `OK` for success, a word
/// that does not fold to `ok` otherwise.
pub open spec fn status_bytes(ok: bool) -> Seq<u8> {
    if ok {
        seq![79u8, 75u8]
    } else {
        seq![102u8, 97u8, 105u8, 108u8, 101u8, 100u8]
    }
}

/// `ACK <status> <len>\r\n<body>\r\n`
pub open spec fn spec_encode_response(ok: bool, body: Seq<u8>) -> Seq<u8> {
    seq![65u8, 67u8, 75u8, 32u8] + status_bytes(ok) + seq![32u8] + spec_dec_bytes(body.len())
        + seq![13u8, 10u8] + body + seq![13u8, 10u8]
}

/// `MSG <topic> <len>\r\n<body>\r\n`
pub open spec fn spec_encode_message(topic: Seq<char>, body: Seq<u8>) -> Seq<u8> {
    seq![77u8, 83u8, 71u8, 32u8] + encode_utf8(topic) + seq![32u8] + spec_dec_bytes(body.len())
        + seq![13u8, 10u8] + body + seq![13u8, 10u8]
}

/// Encode a response frame.
pub fn encode_response(ok: bool, body: &[u8]) -> (r: Vec<u8>)
    ensures
        r@ == spec_encode_response(ok, body@),
{
    let mut out: Vec<u8> = Vec::new();
    out.push(65);
    out.push(67);
    out.push(75);
    out.push(32);
    if ok {
        out.push(79);
        out.push(75);
    } else {
        out.push(102);
        out.push(97);
        out.push(105);
        out.push(108);
        out.push(101);
        out.push(100);
    }
    out.push(32);
    push_dec(&mut out, body.len());
    out.push(13);
    out.push(10);
    push_bytes(&mut out, body);
    out.push(13);
    out.push(10);
    proof {
        assert(out@ =~= spec_encode_response(ok, body@));
    }
    out
}

/// Encode a push-message frame.
pub fn encode_message(topic: &str, body: &[u8]) -> (r: Vec<u8>)
    ensures
        r@ == spec_encode_message(topic@, body@),
{
    let mut out: Vec<u8> = Vec::new();
    out.push(77);
    out.push(83);
    out.push(71);
    out.push(32);
    push_bytes(&mut out, topic.as_bytes());
    out.push(32);
    push_dec(&mut out, body.len());
    out.push(13);
    out.push(10);
    push_bytes(&mut out, body);
    out.push(13);
    out.push(10);
    proof {
        assert(out@ =~= spec_encode_message(topic@, body@));
    }
    out
}

/// Tokens of a canonical status line `<tag> <arg> <len>\r`.
proof fn lemma_header_line(tag: Seq<u8>, arg: Seq<u8>, n: nat)
    requires
        tag.len() > 0,
        forall|j: int| 0 <= j < tag.len() ==> !is_ws(tag[j]),
        arg.len() > 0,
        forall|j: int| 0 <= j < arg.len() ==> !is_ws(arg[j]),
    ensures
        spec_tokens(tag + seq![32u8] + arg + seq![32u8] + spec_dec_bytes(n) + seq![13u8]) == seq![
            tag,
            arg,
            spec_dec_bytes(n),
        ],
{
    let dec = spec_dec_bytes(n);
    lemma_dec_bytes_digits(n);
    assert(forall|j: int| 0 <= j < dec.len() ==> is_digit(#[trigger] dec[j]) && !is_ws(dec[j]));
    let line = tag + seq![32u8] + arg + seq![32u8] + dec + seq![13u8];
    let r1 = seq![32u8] + arg + seq![32u8] + dec + seq![13u8];
    let r2 = arg + seq![32u8] + dec + seq![13u8];
    let r3 = seq![32u8] + dec + seq![13u8];
    let r4 = dec + seq![13u8];
    assert(line =~= tag + r1);
    lemma_tokens_prepend(tag, r1);
    lemma_tokens_drop_ws(r1);
    assert(r1.drop_first() =~= r2);
    lemma_tokens_prepend(arg, r3);
    assert(r2 =~= arg + r3);
    lemma_tokens_drop_ws(r3);
    assert(r3.drop_first() =~= r4);
    lemma_tokens_prepend(dec, seq![13u8]);
    assert(r4 =~= dec + seq![13u8]);
    lemma_tokens_drop_ws(seq![13u8]);
    assert(seq![13u8].drop_first() =~= Seq::<u8>::empty());
    assert(spec_tokens(line) =~= seq![tag, arg, dec]);
}

/// Law: encoding a response and decoding the result gives the response
/// back, whatever the body holds, and consumes the whole encoding.
pub proof fn lemma_response_round_trip(ok: bool, body: Seq<u8>)
    requires
        body.len() <= usize::MAX,
    ensures
        ({
            let enc = spec_encode_response(ok, body);
            &&& spec_decode(enc) matches Ok(p)
            &&& spec_decode(enc).unwrap().0 == (SpecFrame::Resp { ok, body })
            &&& spec_decode(enc).unwrap().1 == enc.len()
        }),
{
    let enc = spec_encode_response(ok, body);
    let tag = seq![65u8, 67u8, 75u8];
    let st = status_bytes(ok);
    let dec = spec_dec_bytes(body.len());
    let line = tag + seq![32u8] + st + seq![32u8] + dec + seq![13u8];
    lemma_dec_bytes_digits(body.len());
    lemma_dec_bytes_value(body.len());
    assert(enc =~= line + seq![10u8] + body + seq![13u8, 10u8]);
    assert(forall|j: int| 0 <= j < dec.len() ==> is_digit(#[trigger] dec[j]));
    assert(forall|j: int| 0 <= j < line.len() ==> line[j] != 10);
    assert(enc[line.len() as int] == 10);
    lemma_first_line_end_scan(enc, line.len() as nat);
    assert(enc.take(line.len() as int) =~= line);
    lemma_header_line(tag, st, body.len());
    let toks = spec_tokens(line);
    assert(toks == seq![tag, st, dec]);
    assert(tag.map_values(|b: u8| lower(b)) =~= ack_bytes());
    assert(toks.last() == dec);
    assert(dec[0] != 43);
    assert(spec_parse_usize(dec) == Some(body.len()));
    assert(header_wf(line));
    assert(header_is_ack(line));
    assert(header_arg(line) == st);
    assert(header_len(line) == body.len());
    let rest = enc.skip(line.len() as int + 1);
    assert(rest =~= body + seq![13u8, 10u8]);
    assert(rest.len() == body.len() + 2);
    assert(rest.take(body.len() as int) =~= body);
    if ok {
        assert(st.map_values(|b: u8| lower(b)) =~= ok_bytes());
    } else {
        assert(st.map_values(|b: u8| lower(b)).len() == 6);
    }
    assert(folds_to(header_arg(line), ok_bytes()) == ok);
    assert(spec_decode(enc).unwrap().1 == line.len() + 1 + body.len() + 2);
}

/// Law: encoding a push message and decoding the result gives the topic
/// and the body back exactly, for every topic whose byte form holds no
/// ASCII whitespace, and consumes the whole encoding.
pub proof fn lemma_message_round_trip(topic: Seq<char>, body: Seq<u8>)
    requires
        topic.len() > 0,
        forall|j: int| 0 <= j < encode_utf8(topic).len() ==> !is_ws(#[trigger] encode_utf8(
            topic,
        )[j]),
        body.len() <= usize::MAX,
    ensures
        ({
            let enc = spec_encode_message(topic, body);
            &&& spec_decode(enc) matches Ok(p)
            &&& spec_decode(enc).unwrap().0 == (SpecFrame::Msg { topic, body })
            &&& spec_decode(enc).unwrap().1 == enc.len()
        }),
{
    let enc = spec_encode_message(topic, body);
    let tag = seq![77u8, 83u8, 71u8];
    let tb = encode_utf8(topic);
    let dec = spec_dec_bytes(body.len());
    let line = tag + seq![32u8] + tb + seq![32u8] + dec + seq![13u8];
    lemma_dec_bytes_digits(body.len());
    lemma_dec_bytes_value(body.len());
    assert(tb.len() > 0) by {
        assert(encode_utf8(topic) == vstd::utf8::encode_scalar(topic[0] as u32) + encode_utf8(
            topic.drop_first(),
        ));
        assert(vstd::utf8::encode_scalar(topic[0] as u32).len() >= 1);
    }
    assert(enc =~= line + seq![10u8] + body + seq![13u8, 10u8]);
    assert(forall|j: int| 0 <= j < dec.len() ==> is_digit(#[trigger] dec[j]));
    assert(forall|j: int| 0 <= j < line.len() ==> line[j] != 10);
    assert(enc[line.len() as int] == 10);
    lemma_first_line_end_scan(enc, line.len() as nat);
    assert(enc.take(line.len() as int) =~= line);
    lemma_header_line(tag, tb, body.len());
    let toks = spec_tokens(line);
    assert(toks == seq![tag, tb, dec]);
    assert(tag.map_values(|b: u8| lower(b)) =~= msg_bytes());
    assert(!folds_to(tag, ack_bytes())) by {
        assert(tag.map_values(|b: u8| lower(b))[0] == 109);
        assert(ack_bytes()[0] == 97);
    }
    assert(toks.last() == dec);
    assert(dec[0] != 43);
    assert(spec_parse_usize(dec) == Some(body.len()));
    assert(header_wf(line));
    assert(!header_is_ack(line));
    assert(header_arg(line) == tb);
    assert(header_len(line) == body.len());
    broadcast use vstd::utf8::encode_utf8_valid_utf8, vstd::utf8::encode_utf8_decode_utf8;

    assert(valid_utf8(tb));
    assert(decode_utf8(tb) == topic);
    let rest = enc.skip(line.len() as int + 1);
    assert(rest =~= body + seq![13u8, 10u8]);
    assert(rest.len() == body.len() + 2);
    assert(rest.take(body.len() as int) =~= body);
    assert(spec_decode(enc).unwrap().1 == line.len() + 1 + body.len() + 2);
}

/// The byte form of one request line: the command, UTF-8 encoded,
/// terminated by a line feed.
pub open spec fn spec_request_line(cmd: Seq<char>) -> Seq<u8> {
    encode_utf8(cmd) + seq![10u8]
}

/// Frame one command for the request path.
pub fn request_line(cmd: &str) -> (r: Vec<u8>)
    ensures
        r@ == spec_request_line(cmd@),
{
    let mut out: Vec<u8> = Vec::new();
    push_bytes(&mut out, cmd.as_bytes());
    out.push(10);
    proof {
        assert(out@ =~= spec_request_line(cmd@));
    }
    out
}

/// The one fixed line sent first on the push connection: the
/// protocol-version opt-in.
pub open spec fn version_cmd_bytes() -> Seq<u8> {
    spec_request_line("set --pubsub-version 2.0"@)
}

/// The line that subscribes one topic.
pub open spec fn sub_cmd_bytes(topic: Seq<char>) -> Seq<u8> {
    encode_utf8("sub "@) + encode_utf8(topic) + seq![10u8]
}

/// The lines the multiplexer sends right after the greeting: the
/// protocol-version opt-in, then one subscription per topic, in order.
/// The peer owes one `ACK` per line, so as many acknowledgements are to
/// be read and discarded as the result has elements.
pub fn subscription_commands(topics: &Vec<String>) -> (r: Vec<Vec<u8>>)
    ensures
        r@.len() == topics@.len() + 1,
        r@[0]@ == version_cmd_bytes(),
        forall|i: int| 1 <= i <= topics@.len() ==> (#[trigger] r@[i])@ == sub_cmd_bytes(
            topics@[i - 1]@,
        ),
{
    let mut cmds: Vec<Vec<u8>> = Vec::new();
    cmds.push(request_line("set --pubsub-version 2.0"));
    let mut i: usize = 0;
    while i < topics.len()
        invariant
            i <= topics@.len(),
            cmds@.len() == i + 1,
            cmds@[0]@ == version_cmd_bytes(),
            forall|j: int| 1 <= j <= i ==> (#[trigger] cmds@[j])@ == sub_cmd_bytes(
                topics@[j - 1]@,
            ),
        decreases topics@.len() - i,
    {
        let mut c: Vec<u8> = Vec::new();
        push_bytes(&mut c, "sub ".as_bytes());
        push_bytes(&mut c, topics[i].as_str().as_bytes());
        c.push(10);
        proof {
            assert(c@ =~= sub_cmd_bytes(topics@[i as int]@));
        }
        cmds.push(c);
        i = i + 1;
    }
    cmds
}

/// Case-insensitive comparison of a token against two folded bytes.
fn folds_to2(t: &[u8], p0: u8, p1: u8) -> (r: bool)
    ensures
        r == folds_to(t@, seq![p0, p1]),
{
    let ghost m = t@.map_values(|b: u8| lower(b));
    proof {
        assert(m.len() == t@.len());
    }
    if t.len() != 2 {
        return false;
    }
    let r = lower_byte(t[0]) == p0 && lower_byte(t[1]) == p1;
    proof {
        assert(m[0] == lower(t@[0]) && m[1] == lower(t@[1]));
        if r {
            assert(m =~= seq![p0, p1]);
        }
    }
    r
}

} // verus!
