//! The trusted boundary to `serde_json`. Event payloads and poll bodies
//! arrive as raw JSON bytes; each payload shape has one extractor that
//! performs the whole parse and hands the logic plain values, and one
//! name for its result, so that the callers' contracts can tie what was
//! applied to the bytes that arrived.
//!
//! Every function in this module only calls into `serde_json` and
//! converts the result; all decisions on the values live in verified
//! code. Numbers cross the boundary as their printed text and are read
//! as seconds by the verified reader in `num`.

use crate::player::PlayerMetadata;
use vstd::prelude::*;

verus! {

/// What `serde_json::from_slice::<(u64,)>` yields on the bytes: the one
/// unsigned integer of a one-element JSON array, if the bytes read as
/// exactly that.
pub uninterp spec fn json_u64_arg(bytes: Seq<u8>) -> Option<u64>;

/// What `serde_json::from_slice::<(Number,)>` yields on the bytes, as
/// the number's canonical text: the one number of a one-element JSON
/// array, printed back the way `serde_json` prints numbers.
pub uninterp spec fn json_number_arg(bytes: Seq<u8>) -> Option<Seq<u8>>;

/// What a one-element JSON array of a number yields when the number is
/// read as seconds and brought to whole milliseconds.
pub open spec fn json_millis_arg(bytes: Seq<u8>) -> Option<u64> {
    match json_number_arg(bytes) {
        Some(t) => crate::num::spec_millis_of_token(t),
        None => None,
    }
}

/// What `serde_json::from_slice::<(String,)>` yields on the bytes: the
/// one string of a one-element JSON array.
pub uninterp spec fn json_string_arg(bytes: Seq<u8>) -> Option<Seq<char>>;

/// What a `player.metadata_changed` payload yields: the title, the
/// artist names in order, and the album of the one object of the array,
/// the album absent when the field is missing or null.
pub uninterp spec fn json_metadata_arg(bytes: Seq<u8>) -> Option<
    (Seq<char>, Seq<Seq<char>>, Option<Seq<char>>),
>;

/// What a status-poll body yields: title, album and artist of its song
/// object, the duration and position numbers as their printed text, and
/// the state word.
pub uninterp spec fn json_status_fields(bytes: Seq<u8>) -> Option<
    (Seq<char>, Seq<char>, Seq<char>, Seq<u8>, Seq<u8>, Seq<char>),
>;

/// The views of stored metadata, in payload order: title, artists,
/// album. The contracts on metadata extraction and application speak
/// through this.
pub open spec fn metadata_views(m: PlayerMetadata) -> (
    Seq<char>,
    Seq<Seq<char>>,
    Option<Seq<char>>,
) {
    (
        m.title@,
        m.artists.deep_view(),
        match m.album {
            Some(a) => Some(a@),
            None => None,
        },
    )
}

/// Relies on `serde_json::from_slice::<(u64,)>`: it succeeds exactly on
/// a one-element JSON array holding an unsigned 64-bit integer, and its
/// result depends on the bytes alone.
#[verifier::external_body]
pub(crate) fn parse_u64_arg(body: &[u8]) -> (r: Option<u64>)
    ensures
        r == json_u64_arg(body@),
{
    serde_json::from_slice::<(u64,)>(body).ok().map(|t| t.0)
}

/// Relies on `serde_json::from_slice::<(serde_json::Number,)>` and on
/// `Number`'s display: the one number of a one-element JSON array,
/// handed over as its printed text, so that verified code can read it.
/// The result depends on the bytes alone.
#[verifier::external_body]
pub(crate) fn parse_number_arg(body: &[u8]) -> (r: Option<Vec<u8>>)
    ensures
        r is Some <==> json_number_arg(body@) is Some,
        r matches Some(t) ==> json_number_arg(body@) == Some(t@),
{
    let arg = serde_json::from_slice::<(serde_json::Number,)>(body).ok()?;
    Some(format!("{}", arg.0).into_bytes())
}

/// Relies on `serde_json::from_slice::<(String,)>`: the one string of a
/// one-element JSON array; the result depends on the bytes alone.
#[verifier::external_body]
pub(crate) fn parse_string_arg(body: &[u8]) -> (r: Option<String>)
    ensures
        r is Some <==> json_string_arg(body@) is Some,
        r matches Some(s) ==> json_string_arg(body@) == Some(s@),
{
    serde_json::from_slice::<(String,)>(body).ok().map(|t| t.0)
}

/// Relies on `serde_json::from_slice::<Value>`, `Value::get`,
/// `Value::as_str`, and `serde_json::from_value` for `Vec<String>` and
/// `Option<String>`: the one metadata object of the payload array, with
/// a required string title, a required array of string artists, and an
/// album that may be missing or null. One parse, one named result; the
/// result depends on the bytes alone.
#[verifier::external_body]
pub(crate) fn extract_metadata_arg(body: &[u8]) -> (r: Option<PlayerMetadata>)
    ensures
        r is Some <==> json_metadata_arg(body@) is Some,
        r matches Some(m) ==> json_metadata_arg(body@) == Some(metadata_views(m)),
{
    let v: serde_json::Value = serde_json::from_slice(body).ok()?;
    let obj = v.get(0)?;
    let title = obj.get("title")?.as_str()?.to_owned();
    let artists: Vec<String> = serde_json::from_value(obj.get("artists")?.clone()).ok()?;
    let album: Option<String> = match obj.get("album") {
        None => None,
        Some(a) => serde_json::from_value(a.clone()).ok()?,
    };
    Some(PlayerMetadata { title, artists, album })
}

/// Relies on `serde_json::from_slice::<Value>`, `Value::get`,
/// `Value::as_str` and `Value::as_number` with `Number`'s display: the
/// six fields of a status poll — title, album name and artist name of
/// the song object, the duration and position numbers as their printed
/// text, and the state word. One walk, one named result; the result
/// depends on the bytes alone.
#[verifier::external_body]
pub(crate) fn extract_status_fields(body: &[u8]) -> (r: Option<
    (String, String, String, Vec<u8>, Vec<u8>, String),
>)
    ensures
        r is Some <==> json_status_fields(body@) is Some,
        r matches Some(f) ==> json_status_fields(body@) == Some(
            (f.0@, f.1@, f.2@, f.3@, f.4@, f.5@),
        ),
{
    let v: serde_json::Value = serde_json::from_slice(body).ok()?;
    let song = v.get("song")?;
    Some((
        song.get("title")?.as_str()?.to_owned(),
        song.get("album_name")?.as_str()?.to_owned(),
        song.get("artists_name")?.as_str()?.to_owned(),
        format!("{}", v.get("duration")?.as_number()?).into_bytes(),
        format!("{}", v.get("position")?.as_number()?).into_bytes(),
        v.get("state")?.as_str()?.to_owned(),
    ))
}

} // verus!
