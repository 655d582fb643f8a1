//! The working-playlist pointer: which playlist commands act on when none is
//! named, and the last track played in it.

use vstd::prelude::*;
use crate::config::{join_path, joined};

verus! {

/// What the pointer file holds.
#[derive(Debug, Clone, Default)]
pub struct WorkingState {
    pub playlist_id: String,
    pub last_track_index: Option<usize>,
}

/// Where the pointer file is stored.
pub fn config_path(grit_dir: &str) -> (r: String)
    ensures
        r@ == joined(grit_dir@, "working_playlist.json"@),
{
    join_path(grit_dir, "working_playlist.json")
}

/// The working playlist that a pointer names.
pub fn load(state: &WorkingState) -> (r: String)
    ensures
        r@ == state.playlist_id@,
{
    state.playlist_id.clone()
}

/// The pointer to write when `playlist_id` becomes the working playlist.
pub fn save(playlist_id: &str) -> (r: WorkingState)
    ensures
        r.playlist_id@ == playlist_id@,
        r.last_track_index is None,
{
    WorkingState { playlist_id: playlist_id.to_owned(), last_track_index: None }
}

/// The pointer to write after playing track `track_index`: the stored one
/// (or an empty one where none could be read) with that index.
pub fn save_last_track(stored: Option<WorkingState>, track_index: usize) -> (r: WorkingState)
    ensures
        r.playlist_id@ == match stored {
            Some(s) => s.playlist_id@,
            None => Seq::<char>::empty(),
        },
        r.last_track_index == Some(track_index),
{
    let mut state = match stored {
        Some(s) => s,
        None => WorkingState { playlist_id: String::new(), last_track_index: None },
    };
    state.last_track_index = Some(track_index);
    state
}

} // verus!
