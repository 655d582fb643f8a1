//! Messages and modes of the playback collaborator.

use vstd::prelude::*;
use crate::types::Track;

verus! {

/// A command sent to a player.
#[derive(Debug, Clone)]
pub enum PlaybackEvent {
    Play(Track),
    Pause,
    Resume,
    Stop,
    Next,
    Previous,
    /// Seconds to seek by; negative rewinds.
    Seek(i64),
    /// Volume from 0 to 100.
    Volume(u8),
}

/// What happens at the end of a track.
#[derive(Debug, Clone, Copy, PartialEq, Eq, Structural)]
pub enum RepeatMode {
    Off,
    One,
    All,
}

/// Which player plays the audio.
#[derive(Debug, Clone, Copy, PartialEq, Eq, Structural)]
pub enum PlayerBackend {
    Mpv,
    Spotify,
}

} // verus!
