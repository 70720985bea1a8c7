//! Data shapes shared with the player service.

use vstd::prelude::*;

verus! {

/// One song of a playlist, each field as the service sends it.
#[derive(Debug, Clone)]
pub struct BriefSong {
    pub provider: String,
    pub identifier: String,
    pub title: String,
    pub album_name: String,
    pub artists_name: String,
    pub duration_ms: String,
}

} // verus!
