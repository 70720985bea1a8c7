//! The state store: one aggregate of playback state, mutated only by
//! push-event application and by full-sync polls, read out as a copy.

use crate::json::{
    extract_metadata_arg, extract_status_fields, json_metadata_arg, json_millis_arg,
    json_status_fields, json_string_arg, json_u64_arg, metadata_views, parse_number_arg,
    parse_string_arg, parse_u64_arg,
};
use crate::num::{millis_from_number_token, spec_millis_of_token};
use crate::player::{PlayerMetadata, PlayerState, Progress};
use crate::rpc::Message;
use vstd::prelude::*;
use vstd::string::StringExecFns;

verus! {

broadcast use vstd::string::group_string_axioms;

/// Why one event or poll body could not be applied: its payload does not
/// have the shape its topic promises, or a state code lies outside the
/// known ones. Either way the event is dropped and the store is left as
/// it was.
#[derive(Clone, Copy, Debug, PartialEq, Eq, Structural)]
pub enum DecodeError {
    Malformed,
    UnknownState,
}

/// One decoded push event: the topic already routed, the payload already
/// brought to plain values.
pub enum PlayerEvent {
    StateChanged(PlayerState),
    MetadataChanged(PlayerMetadata),
    DurationChanged(u64),
    Seeked(u64),
    LyricChanged(String),
    Ignored,
}

/// The state store's payload: everything the presentation layer reads.
pub struct AppInner {
    pub metadata: PlayerMetadata,
    pub lyric_s: String,
    pub progress: Progress,
    pub duration_ms: u64,
    pub state: PlayerState,
}

/// The topics whose payloads the store understands.
pub open spec fn known_topic(t: Seq<char>) -> bool {
    ||| t == "player.state_changed"@
    ||| t == "player.metadata_changed"@
    ||| t == "player.duration_changed"@
    ||| t == "player.seeked"@
    ||| t == "live_lyric.sentence_changed"@
}

/// The full transition one event makes on the store: a state change also
/// freezes, resets or releases the clock; new metadata resets the clock
/// to position 0 (a new track plays from the start until an event says
/// otherwise); a seek re-anchors the clock; a duration or lyric change
/// touches only its own field.
pub open spec fn spec_apply_event(s: AppInner, ev: PlayerEvent, now_ms: u64) -> AppInner {
    match ev {
        PlayerEvent::StateChanged(st) => {
            let progress = match st {
                PlayerState::Paused => s.progress.spec_paused(now_ms),
                PlayerState::Stopped => s.progress.spec_seeked(now_ms, 0),
                PlayerState::Playing => s.progress.spec_resumed(now_ms),
            };
            AppInner { state: st, progress, ..s }
        },
        PlayerEvent::MetadataChanged(m) => AppInner {
            metadata: m,
            progress: s.progress.spec_seeked(now_ms, 0),
            ..s
        },
        PlayerEvent::DurationChanged(n) => AppInner { duration_ms: n, ..s },
        PlayerEvent::Seeked(n) => AppInner { progress: s.progress.spec_seeked(now_ms, n), ..s },
        PlayerEvent::LyricChanged(l) => AppInner { lyric_s: l, ..s },
        PlayerEvent::Ignored => s,
    }
}

/// The full transition one status poll makes on the store: the metadata
/// is replaced, the clock is re-anchored at the polled position, the
/// duration set, and then the state word decides the mode. `paused` and
/// `stopped` freeze the clock, `playing` releases it, and an unknown
/// word defaults to Stopped and freezes too. Re-anchoring before the
/// freeze or release keeps latency between poll and application from
/// biasing the position.
pub open spec fn spec_apply_sync(
    s: AppInner,
    m: PlayerMetadata,
    position_ms: u64,
    duration_ms: u64,
    state_word: Seq<char>,
    now_ms: u64,
) -> AppInner {
    let anchored = s.progress.spec_seeked(now_ms, position_ms);
    let (state, progress) = if state_word == "paused"@ {
        (PlayerState::Paused, anchored.spec_paused(now_ms))
    } else if state_word == "stopped"@ {
        (PlayerState::Stopped, anchored.spec_paused(now_ms))
    } else if state_word == "playing"@ {
        (PlayerState::Playing, anchored.spec_resumed(now_ms))
    } else {
        (PlayerState::Stopped, anchored.spec_paused(now_ms))
    };
    AppInner { metadata: m, progress, duration_ms, state, ..s }
}

/// Whether a string reads as a given literal.
fn string_is(s: &String, pat: &str) -> (r: bool)
    ensures
        r == (s@ == pat@),
{
    let p = String::from_str(pat);
    s.eq(&p)
}

/// Decode one pushed message into an event. Unknown topics are ignored,
/// an empty lyric payload is ignored too, and a payload that does not
/// fit its topic's shape is an error; a state code outside the known
/// ones is its own error.
pub fn decode_event(msg: &Message) -> (r: Result<PlayerEvent, DecodeError>)
    ensures
        msg.topic@ == "player.state_changed"@ ==> (match json_u64_arg(msg.body@) {
            Some(c) => (match PlayerState::spec_from_code(c) {
                Some(st) => r == Ok::<PlayerEvent, DecodeError>(PlayerEvent::StateChanged(st)),
                None => r == Err::<PlayerEvent, DecodeError>(DecodeError::UnknownState),
            }),
            None => r == Err::<PlayerEvent, DecodeError>(DecodeError::Malformed),
        }),
        msg.topic@ == "player.duration_changed"@ ==> (match json_millis_arg(msg.body@) {
            Some(n) => r == Ok::<PlayerEvent, DecodeError>(PlayerEvent::DurationChanged(n)),
            None => r == Err::<PlayerEvent, DecodeError>(DecodeError::Malformed),
        }),
        msg.topic@ == "player.seeked"@ ==> (match json_millis_arg(msg.body@) {
            Some(n) => r == Ok::<PlayerEvent, DecodeError>(PlayerEvent::Seeked(n)),
            None => r == Err::<PlayerEvent, DecodeError>(DecodeError::Malformed),
        }),
        msg.topic@ == "live_lyric.sentence_changed"@ ==> (if msg.body@.len() == 0 {
            r == Ok::<PlayerEvent, DecodeError>(PlayerEvent::Ignored)
        } else {
            match json_string_arg(msg.body@) {
                Some(l) => r matches Ok(ev) && ev matches PlayerEvent::LyricChanged(s) && s@ == l,
                None => r == Err::<PlayerEvent, DecodeError>(DecodeError::Malformed),
            }
        }),
        msg.topic@ == "player.metadata_changed"@ ==> (match json_metadata_arg(msg.body@) {
            Some(f) => r matches Ok(ev) && ev matches PlayerEvent::MetadataChanged(m)
                && metadata_views(m) == f,
            None => r == Err::<PlayerEvent, DecodeError>(DecodeError::Malformed),
        }),
        !known_topic(msg.topic@) ==> r == Ok::<PlayerEvent, DecodeError>(PlayerEvent::Ignored),
{
    proof {
        reveal_strlit("player.state_changed");
        reveal_strlit("player.metadata_changed");
        reveal_strlit("player.duration_changed");
        reveal_strlit("player.seeked");
        reveal_strlit("live_lyric.sentence_changed");
        // The topics are pairwise distinct: their lengths differ, except
        // for the two 23-byte ones, which differ in their eighth letter.
        assert("player.state_changed"@.len() == 20);
        assert("player.metadata_changed"@.len() == 23);
        assert("player.duration_changed"@.len() == 23);
        assert("player.seeked"@.len() == 13);
        assert("live_lyric.sentence_changed"@.len() == 27);
        assert("player.metadata_changed"@[7] == 'm');
        assert("player.duration_changed"@[7] == 'd');
    }
    if string_is(&msg.topic, "player.state_changed") {
        match parse_u64_arg(msg.body.as_slice()) {
            Some(c) => match PlayerState::try_from(c) {
                Ok(st) => Ok(PlayerEvent::StateChanged(st)),
                Err(_) => Err(DecodeError::UnknownState),
            },
            None => Err(DecodeError::Malformed),
        }
    } else if string_is(&msg.topic, "player.metadata_changed") {
        match extract_metadata_arg(msg.body.as_slice()) {
            Some(m) => Ok(PlayerEvent::MetadataChanged(m)),
            None => Err(DecodeError::Malformed),
        }
    } else if string_is(&msg.topic, "player.duration_changed") {
        match parse_payload_millis(msg.body.as_slice()) {
            Some(n) => Ok(PlayerEvent::DurationChanged(n)),
            None => Err(DecodeError::Malformed),
        }
    } else if string_is(&msg.topic, "player.seeked") {
        match parse_payload_millis(msg.body.as_slice()) {
            Some(n) => Ok(PlayerEvent::Seeked(n)),
            None => Err(DecodeError::Malformed),
        }
    } else if string_is(&msg.topic, "live_lyric.sentence_changed") {
        if msg.body.len() == 0 {
            Ok(PlayerEvent::Ignored)
        } else {
            match parse_string_arg(msg.body.as_slice()) {
                Some(l) => Ok(PlayerEvent::LyricChanged(l)),
                None => Err(DecodeError::Malformed),
            }
        }
    } else {
        Ok(PlayerEvent::Ignored)
    }
}

/// The one number of a payload array, as whole milliseconds of seconds.
fn parse_payload_millis(body: &[u8]) -> (r: Option<u64>)
    ensures
        r == json_millis_arg(body@),
{
    match parse_number_arg(body) {
        Some(tok) => millis_from_number_token(tok.as_slice()),
        None => None,
    }
}

impl AppInner {
    /// Apply one decoded event; the whole transition is pinned by
    /// `spec_apply_event`.
    pub fn apply_event(&mut self, ev: PlayerEvent, now_ms: u64)
        requires
            old(self).progress.can_read_at(now_ms),
        ensures
            *final(self) == spec_apply_event(*old(self), ev, now_ms),
    {
        match ev {
            PlayerEvent::StateChanged(st) => {
                self.state = st;
                match st {
                    PlayerState::Paused => self.progress.pause(now_ms),
                    PlayerState::Stopped => self.progress.on_seeked(now_ms, 0),
                    PlayerState::Playing => self.progress.resume(now_ms),
                }
            },
            PlayerEvent::MetadataChanged(m) => {
                self.metadata = m;
                self.progress.on_seeked(now_ms, 0);
            },
            PlayerEvent::DurationChanged(n) => {
                self.duration_ms = n;
            },
            PlayerEvent::Seeked(n) => {
                self.progress.on_seeked(now_ms, n);
            },
            PlayerEvent::LyricChanged(l) => {
                self.lyric_s = l;
            },
            PlayerEvent::Ignored => {},
        }
    }

    /// Decode and apply one pushed message. On any decode failure the
    /// store is left untouched and the error reported, so one malformed
    /// event never kills the subscription.
    pub fn on_message(&mut self, msg: &Message, now_ms: u64) -> (r: Result<(), DecodeError>)
        requires
            old(self).progress.can_read_at(now_ms),
        ensures
            r is Err ==> *final(self) == *old(self),
            r is Ok ==> exists|ev: PlayerEvent|
                *final(self) == spec_apply_event(*old(self), ev, now_ms),
            msg.topic@ == "player.seeked"@ ==> (match json_millis_arg(msg.body@) {
                Some(n) => r is Ok && *final(self) == spec_apply_event(
                    *old(self),
                    PlayerEvent::Seeked(n),
                    now_ms,
                ),
                None => r == Err::<(), DecodeError>(DecodeError::Malformed),
            }),
            msg.topic@ == "player.duration_changed"@ ==> (match json_millis_arg(msg.body@) {
                Some(n) => r is Ok && *final(self) == spec_apply_event(
                    *old(self),
                    PlayerEvent::DurationChanged(n),
                    now_ms,
                ),
                None => r == Err::<(), DecodeError>(DecodeError::Malformed),
            }),
            msg.topic@ == "player.state_changed"@ ==> (match json_u64_arg(msg.body@) {
                Some(c) => (match PlayerState::spec_from_code(c) {
                    Some(st) => r is Ok && *final(self) == spec_apply_event(
                        *old(self),
                        PlayerEvent::StateChanged(st),
                        now_ms,
                    ),
                    None => r == Err::<(), DecodeError>(DecodeError::UnknownState),
                }),
                None => r == Err::<(), DecodeError>(DecodeError::Malformed),
            }),
            msg.topic@ == "player.metadata_changed"@ ==> (match json_metadata_arg(msg.body@) {
                Some(f) => r is Ok && metadata_views(final(self).metadata) == f && *final(self)
                    == spec_apply_event(
                    *old(self),
                    PlayerEvent::MetadataChanged(final(self).metadata),
                    now_ms,
                ),
                None => r == Err::<(), DecodeError>(DecodeError::Malformed),
            }),
            msg.topic@ == "live_lyric.sentence_changed"@ && msg.body@.len() == 0 ==> r is Ok
                && *final(self) == *old(self),
            msg.topic@ == "live_lyric.sentence_changed"@ && msg.body@.len() > 0 ==> (
            match json_string_arg(msg.body@) {
                Some(l) => r is Ok && final(self).lyric_s@ == l && *final(self) == (AppInner {
                    lyric_s: final(self).lyric_s,
                    ..*old(self)
                }),
                None => r == Err::<(), DecodeError>(DecodeError::Malformed),
            }),
            !known_topic(msg.topic@) ==> r is Ok && *final(self) == *old(self),
    {
        let ev = match decode_event(msg) {
            Ok(ev) => ev,
            Err(e) => {
                return Err(e);
            },
        };
        let ghost gev = ev;
        self.apply_event(ev, now_ms);
        proof {
            assert(*self == spec_apply_event(*old(self), gev, now_ms));
        }
        Ok(())
    }

    /// Apply the plain values of one full-status poll; the whole
    /// transition is pinned by `spec_apply_sync`.
    pub fn apply_sync(
        &mut self,
        m: PlayerMetadata,
        position_ms: u64,
        duration_ms: u64,
        state_word: &String,
        now_ms: u64,
    )
        ensures
            *final(self) == spec_apply_sync(
                *old(self),
                m,
                position_ms,
                duration_ms,
                state_word@,
                now_ms,
            ),
    {
        self.metadata = m;
        self.progress.on_seeked(now_ms, position_ms);
        self.duration_ms = duration_ms;
        if string_is(state_word, "paused") {
            self.state = PlayerState::Paused;
            self.progress.pause(now_ms);
        } else if string_is(state_word, "stopped") {
            self.state = PlayerState::Stopped;
            self.progress.pause(now_ms);
        } else if string_is(state_word, "playing") {
            self.state = PlayerState::Playing;
            self.progress.resume(now_ms);
        } else {
            self.state = PlayerState::Stopped;
            self.progress.pause(now_ms);
        }
    }

    /// Parse the JSON body of one full-status poll and apply it. The
    /// poll carries `song{title, album_name, artists_name}`, `duration`
    /// and `position` in seconds, and a `state` word. On success the
    /// store holds exactly the sync transition built from the body's
    /// own fields; a missing or ill-typed field, or a number that does
    /// not read as milliseconds, leaves the store untouched and reports
    /// the error, so a failed sync never clobbers prior state.
    pub fn apply_status(&mut self, body: &[u8], now_ms: u64) -> (r: Result<(), DecodeError>)
        ensures
            r is Err ==> *final(self) == *old(self),
            (match json_status_fields(body@) {
                None => r == Err::<(), DecodeError>(DecodeError::Malformed),
                Some(f) => (match (spec_millis_of_token(f.3), spec_millis_of_token(f.4)) {
                    (Some(dur), Some(pos)) => r is Ok && metadata_views(final(self).metadata) == (
                    f.0,
                    seq![f.2],
                    Some(f.1),
                    ) && *final(self) == spec_apply_sync(
                        *old(self),
                        final(self).metadata,
                        pos,
                        dur,
                        f.5,
                        now_ms,
                    ),
                    _ => r == Err::<(), DecodeError>(DecodeError::Malformed),
                }),
            }),
    {
        let fields = match extract_status_fields(body) {
            Some(f) => f,
            None => {
                return Err(DecodeError::Malformed);
            },
        };
        let (title, album, artist, dur_tok, pos_tok, state_word) = fields;
        let duration = match millis_from_number_token(dur_tok.as_slice()) {
            Some(n) => n,
            None => {
                return Err(DecodeError::Malformed);
            },
        };
        let position = match millis_from_number_token(pos_tok.as_slice()) {
            Some(n) => n,
            None => {
                return Err(DecodeError::Malformed);
            },
        };
        let mut artists: Vec<String> = Vec::new();
        artists.push(artist);
        let ghost gartist = artists@[0]@;
        proof {
            assert(artists.deep_view() =~~= seq![gartist]);
        }
        let m = PlayerMetadata { title, artists, album: Some(album) };
        let ghost gm = m;
        let ghost gw = state_word@;
        self.apply_sync(m, position, duration, &state_word, now_ms);
        proof {
            assert(*self == spec_apply_sync(*old(self), gm, position, duration, gw, now_ms));
            assert(self.metadata == gm);
        }
        Ok(())
    }
}

/// Whether two store values hold the same playback state, compared by
/// content.
pub open spec fn state_eq(a: AppInner, b: AppInner) -> bool {
    &&& a.metadata.title@ == b.metadata.title@
    &&& a.metadata.artists.deep_view() == b.metadata.artists.deep_view()
    &&& (match (a.metadata.album, b.metadata.album) {
        (Some(x), Some(y)) => x@ == y@,
        (None, None) => true,
        _ => false,
    })
    &&& a.lyric_s@ == b.lyric_s@
    &&& a.progress == b.progress
    &&& a.duration_ms == b.duration_ms
    &&& a.state == b.state
}

/// The state store. The surrounding program wraps it in its lock and
/// hands every call the reading of one monotonic clock in milliseconds.
pub struct App {
    pub inner: AppInner,
}

impl App {
    /// A fresh store: placeholder metadata, a default lyric line, a
    /// running clock at position 0, no duration, mode Stopped.
    pub fn new(now_ms: u64) -> (r: App)
        ensures
            r.inner.metadata.title@ == Seq::<char>::empty(),
            r.inner.metadata.artists@.len() == 1,
            r.inner.metadata.artists@[0]@ == Seq::<char>::empty(),
            r.inner.metadata.album matches Some(a) && a@ == Seq::<char>::empty(),
            r.inner.lyric_s@ == "暂无歌词"@,
            r.inner.progress == (Progress { anchor_ms: now_ms, position_ms: 0u64, paused: false }),
            r.inner.duration_ms == 0,
            r.inner.state == PlayerState::Stopped,
    {
        App {
            inner: AppInner {
                metadata: PlayerMetadata::new(),
                lyric_s: String::from_str("暂无歌词"),
                progress: Progress::new(now_ms),
                duration_ms: 0,
                state: PlayerState::Stopped,
            },
        }
    }

    /// The periodic UI tick reads the clock lazily, so it has nothing to
    /// update here.
    pub fn on_tick(&mut self)
        ensures
            *final(self) == *old(self),
    {
    }

    /// Copy-out read for the presentation layer: one consistent copy of
    /// the whole aggregate, so a reader never observes a torn update.
    pub fn snapshot(&self) -> (r: AppInner)
        ensures
            state_eq(r, self.inner),
    {
        let album = match &self.inner.metadata.album {
            Some(a) => Some(a.clone()),
            None => None,
        };
        let mut artists: Vec<String> = Vec::new();
        proof {
            assert(artists.deep_view() =~~= self.inner.metadata.artists.deep_view().take(0));
        }
        let mut i: usize = 0;
        while i < self.inner.metadata.artists.len()
            invariant
                i <= self.inner.metadata.artists@.len(),
                artists.deep_view() == self.inner.metadata.artists.deep_view().take(i as int),
            decreases self.inner.metadata.artists@.len() - i,
        {
            let ghost prev = artists.deep_view();
            let s = self.inner.metadata.artists[i].clone();
            let ghost gs = s@;
            artists.push(s);
            proof {
                assert(artists.deep_view() =~~= prev.push(gs));
                assert(self.inner.metadata.artists.deep_view()[i as int] == gs);
                assert(prev.push(gs) =~~= self.inner.metadata.artists.deep_view().take(
                    i as int + 1,
                ));
            }
            i = i + 1;
        }
        proof {
            assert(self.inner.metadata.artists.deep_view().take(
                self.inner.metadata.artists@.len() as int,
            ) =~= self.inner.metadata.artists.deep_view());
        }
        AppInner {
            metadata: PlayerMetadata {
                title: self.inner.metadata.title.clone(),
                artists,
                album,
            },
            lyric_s: self.inner.lyric_s.clone(),
            progress: Progress {
                anchor_ms: self.inner.progress.anchor_ms,
                position_ms: self.inner.progress.position_ms,
                paused: self.inner.progress.paused,
            },
            duration_ms: self.inner.duration_ms,
            state: self.inner.state,
        }
    }
}

/// Law: new metadata always resets the clock, even right after a full
/// sync anchored it elsewhere: applying `player.metadata_changed` after
/// a sync leaves the position at 0, whatever position the sync reported.
/// Last writer wins; no event ordering is enforced.
pub proof fn lemma_metadata_overrides_sync(
    s: AppInner,
    m0: PlayerMetadata,
    position_ms: u64,
    duration_ms: u64,
    state_word: Seq<char>,
    t1: u64,
    m1: PlayerMetadata,
    t2: u64,
)
    ensures
        ({
            let synced = spec_apply_sync(s, m0, position_ms, duration_ms, state_word, t1);
            let after = spec_apply_event(synced, PlayerEvent::MetadataChanged(m1), t2);
            after.progress.position_ms == 0 && after.progress.anchor_ms == t2 && after.metadata
                == m1
        }),
{
}


} // verus!
