//! Player mode, track metadata, and the playback-progress clock.

use vstd::prelude::*;

verus! {

/// The mode of the player, as reported by `player.state_changed` push
/// events and by full-status polls. A pure tag: exactly one mode holds at
/// any time, and no order among the modes is meant.
#[derive(Clone, Copy, Debug, PartialEq, Eq, Structural)]
pub enum PlayerState {
    Stopped,
    Paused,
    Playing,
}

impl PlayerState {
    /// Meaning of the wire encoding: the codes 0, 1 and 2 stand for
    /// Stopped, Paused and Playing; every other code is unknown.
    pub open spec fn spec_from_code(v: u64) -> Option<PlayerState> {
        if v == 0 {
            Some(PlayerState::Stopped)
        } else if v == 1 {
            Some(PlayerState::Paused)
        } else if v == 2 {
            Some(PlayerState::Playing)
        } else {
            None
        }
    }

    /// Decode a wire state code; codes outside 0..=2 are rejected.
    pub fn try_from(v: u64) -> (r: Result<PlayerState, ()>)
        ensures
            r matches Ok(s) ==> Self::spec_from_code(v) == Some(s),
            r is Err <==> Self::spec_from_code(v) is None,
    {
        if v == 0 {
            Ok(PlayerState::Stopped)
        } else if v == 1 {
            Ok(PlayerState::Paused)
        } else if v == 2 {
            Ok(PlayerState::Playing)
        } else {
            Err(())
        }
    }
}

/// What is known about the current track. Replaced wholesale on metadata
/// push events and on full syncs, never mutated field by field.
#[derive(Debug, Clone)]
pub struct PlayerMetadata {
    pub title: String,
    pub artists: Vec<String>,
    pub album: Option<String>,
}

impl PlayerMetadata {
    /// The placeholder shown before any sync or push event has arrived:
    /// an empty title, one empty artist name, and an empty album name.
    pub fn new() -> (r: PlayerMetadata)
        ensures
            r.title@ == Seq::<char>::empty(),
            r.artists@.len() == 1,
            r.artists@[0]@ == Seq::<char>::empty(),
            r.album matches Some(a) && a@ == Seq::<char>::empty(),
    {
        let mut artists: Vec<String> = Vec::new();
        artists.push(String::new());
        PlayerMetadata { title: String::new(), artists, album: Some(String::new()) }
    }
}

/// The playback-progress clock: an anchor instant, the position that held
/// at that instant, and a paused flag. The current position is never
/// stored; it is extrapolated from the anchor when read, so reading does
/// not depend on how often events arrive.
///
/// All instants are milliseconds on one monotonic clock that the caller
/// supplies; positions are milliseconds of playback time.
pub struct Progress {
    pub anchor_ms: u64,
    pub position_ms: u64,
    pub paused: bool,
}

impl Progress {
    /// A running clock can be read at `now_ms` when the instant is not
    /// before the anchor and the extrapolated position still fits in
    /// `u64`; a paused clock can be read at any instant.
    pub open spec fn can_read_at(self, now_ms: u64) -> bool {
        self.paused || (self.anchor_ms <= now_ms && self.position_ms + (now_ms
            - self.anchor_ms) <= u64::MAX)
    }

    /// The position at `now_ms`: frozen while paused, else the anchored
    /// position plus the time elapsed since the anchor.
    pub open spec fn spec_current(self, now_ms: u64) -> u64
        recommends
            self.can_read_at(now_ms),
    {
        if self.paused {
            self.position_ms
        } else {
            (self.position_ms + (now_ms - self.anchor_ms)) as u64
        }
    }

    /// Re-anchoring at a new position keeps the mode: a paused clock stays
    /// paused at the new position, a running clock runs on from it.
    pub open spec fn spec_seeked(self, now_ms: u64, position_ms: u64) -> Progress {
        Progress { anchor_ms: now_ms, position_ms, paused: self.paused }
    }

    /// Pausing first banks the extrapolated position, then freezes.
    pub open spec fn spec_paused(self, now_ms: u64) -> Progress
        recommends
            self.can_read_at(now_ms),
    {
        Progress { anchor_ms: now_ms, position_ms: self.spec_current(now_ms), paused: true }
    }

    /// Resuming banks the position the same way, then lets time run.
    pub open spec fn spec_resumed(self, now_ms: u64) -> Progress
        recommends
            self.can_read_at(now_ms),
    {
        Progress { anchor_ms: now_ms, position_ms: self.spec_current(now_ms), paused: false }
    }

    /// A fresh clock: position 0, running, anchored at the given instant.
    pub fn new(now_ms: u64) -> (r: Progress)
        ensures
            r == (Progress { anchor_ms: now_ms, position_ms: 0u64, paused: false }),
    {
        Progress { anchor_ms: now_ms, position_ms: 0, paused: false }
    }

    pub fn on_seeked(&mut self, now_ms: u64, position_ms: u64)
        ensures
            *final(self) == old(self).spec_seeked(now_ms, position_ms),
    {
        self.anchor_ms = now_ms;
        self.position_ms = position_ms;
    }

    pub fn pause(&mut self, now_ms: u64)
        requires
            old(self).can_read_at(now_ms),
        ensures
            *final(self) == old(self).spec_paused(now_ms),
    {
        self.position_ms = self.current(now_ms);
        self.anchor_ms = now_ms;
        self.paused = true;
    }

    pub fn resume(&mut self, now_ms: u64)
        requires
            old(self).can_read_at(now_ms),
        ensures
            *final(self) == old(self).spec_resumed(now_ms),
    {
        self.position_ms = self.current(now_ms);
        self.anchor_ms = now_ms;
        self.paused = false;
    }

    pub fn current(&self, now_ms: u64) -> (r: u64)
        requires
            self.can_read_at(now_ms),
        ensures
            r == self.spec_current(now_ms),
    {
        if self.paused {
            self.position_ms
        } else {
            self.position_ms + (now_ms - self.anchor_ms)
        }
    }
}

/// Law: a single clock state read at two instants never reports a smaller
/// position at the later instant; a paused clock reads constant. Between
/// transitions the clock state is fixed, so reads taken in clock order are
/// non-decreasing until the next `on_seeked`, `pause` or `resume` call,
/// and every read is non-negative by type.
pub proof fn lemma_current_monotonic(p: Progress, t1: u64, t2: u64)
    requires
        p.can_read_at(t1),
        p.can_read_at(t2),
        t1 <= t2,
    ensures
        p.spec_current(t1) <= p.spec_current(t2),
{
}

/// Law: a position read is never negative, whatever sequence of
/// transitions produced the clock state: positions live in `u64`, and
/// extrapolation only adds elapsed time.
pub proof fn lemma_current_non_negative(p: Progress, t: u64)
    requires
        p.can_read_at(t),
    ensures
        p.spec_current(t) >= 0,
        !p.paused ==> p.spec_current(t) >= p.position_ms,
{
}

/// Law: pausing an already-paused clock is a no-op on the position: the
/// second `pause` banks the very value the first one froze, so reads
/// before and after it agree at all instants.
pub proof fn lemma_pause_idempotent(p: Progress, t1: u64, t2: u64, t3: u64)
    requires
        p.can_read_at(t1),
    ensures
        ({
            let once = p.spec_paused(t1);
            let twice = once.spec_paused(t2);
            twice.position_ms == once.position_ms && twice.spec_current(t3) == once.spec_current(
                t2,
            )
        }),
{
}

} // verus!
