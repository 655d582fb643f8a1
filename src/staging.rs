//! Turning a user's request into a staged change, with the checks made
//! before staging.

use vstd::prelude::*;
use crate::error::GritError;
use crate::journal::count_kind;
use crate::types::{tracks_view, DiffPatch, PlaylistSnapshot, Track, TrackChange, TrackChangeView, TrackView};

verus! {

/// The first position of `s` holding a track with this id, or -1.
pub open spec fn first_pos(s: Seq<TrackView>, id: Seq<char>) -> int
    decreases s.len(),
{
    if s.len() == 0 {
        -1
    } else {
        let p = first_pos(s.drop_last(), id);
        if p >= 0 {
            p
        } else if s.last().id == id {
            s.len() - 1
        } else {
            -1
        }
    }
}

proof fn lemma_first_pos(s: Seq<TrackView>, id: Seq<char>)
    ensures
        -1 <= first_pos(s, id) < s.len(),
        first_pos(s, id) >= 0 ==> s[first_pos(s, id)].id == id,
        forall|q: int| 0 <= q < s.len() && (first_pos(s, id) < 0 || q < first_pos(s, id)) ==> s[q].id != id,
    decreases s.len(),
{
    if s.len() > 0 {
        lemma_first_pos(s.drop_last(), id);
        assert forall|q: int| 0 <= q < s.len() - 1 implies s[q] == s.drop_last()[q] by {}
    }
}

/// The first position of a track with id `id`.
pub fn find_track(tracks: &Vec<Track>, id: &str) -> (r: Option<usize>)
    ensures
        match r {
            Some(p) => p < tracks@.len() && p as int == first_pos(tracks_view(tracks@), id@),
            None => first_pos(tracks_view(tracks@), id@) == -1,
        },
{
    let ghost sv = tracks_view(tracks@);
    let target = id.to_owned();
    let mut k: usize = 0;
    while k < tracks.len()
        invariant
            target@ == id@,
            sv == tracks_view(tracks@),
            k <= sv.len(),
            forall|q: int| 0 <= q < k ==> sv[q].id != id@,
        decreases sv.len() - k,
    {
        if tracks[k].id == target {
            proof {
                lemma_first_pos(sv, id@);
                let p = first_pos(sv, id@);
                if p < 0 || k < p {
                    assert(sv[k as int].id != id@);
                }
                if 0 <= p < k {
                    assert(sv[p].id != id@);
                }
            }
            return Some(k);
        }
        k = k + 1;
    }
    proof {
        lemma_first_pos(sv, id@);
        let p = first_pos(sv, id@);
        if p >= 0 {
            assert(sv[p].id != id@);
        }
    }
    None
}

/// Stage the addition of `track` at the end, after the additions already
/// staged: `ProviderMismatch` where it belongs to another provider than the
/// playlist.
pub fn plan_add(snapshot: &PlaylistSnapshot, staged: &DiffPatch, track: Track) -> (r: Result<TrackChange, GritError>)
    requires
        snapshot.tracks@.len() + staged@.len() <= usize::MAX,
    ensures
        track.provider != snapshot.provider ==> r == Err::<TrackChange, GritError>(
            GritError::ProviderMismatch,
        ),
        track.provider == snapshot.provider ==> (r matches Ok(c) && c@ == (TrackChangeView::Added {
            track: track@,
            index: (snapshot.tracks@.len() + count_kind(staged@, 0)) as usize,
        })),
{
    if track.provider != snapshot.provider {
        return Err(GritError::ProviderMismatch);
    }
    let counts = crate::journal::count_changes(staged);
    proof {
        crate::journal::lemma_count_kind_bound(staged@, 0);
    }
    let index = snapshot.tracks.len() + counts.0;
    Ok(TrackChange::Added { track, index })
}

/// Stage the removal of the first track with id `track_id`:
/// `TrackNotFound` where there is none.
pub fn plan_remove(snapshot: &PlaylistSnapshot, track_id: &str) -> (r: Result<TrackChange, GritError>)
    ensures
        first_pos(snapshot@.tracks, track_id@) < 0 ==> r == Err::<TrackChange, GritError>(
            GritError::TrackNotFound,
        ),
        first_pos(snapshot@.tracks, track_id@) >= 0 ==> (r matches Ok(c) && c@
            == (TrackChangeView::Removed {
            track: snapshot@.tracks[first_pos(snapshot@.tracks, track_id@)],
            index: first_pos(snapshot@.tracks, track_id@) as usize,
        })),
{
    match find_track(&snapshot.tracks, track_id) {
        Some(i) => Ok(TrackChange::Removed { track: snapshot.tracks[i].duplicate(), index: i }),
        None => Err(GritError::TrackNotFound),
    }
}

/// Stage moving the first track with id `track_id` to `new_index`:
/// `TrackNotFound` where there is none, `AlreadyAtPosition` where it is
/// there already, `InvalidIndex` where `new_index` is past the end.
pub fn plan_move(snapshot: &PlaylistSnapshot, track_id: &str, new_index: usize) -> (r: Result<TrackChange, GritError>)
    ensures
        ({
            let p = first_pos(snapshot@.tracks, track_id@);
            &&& p < 0 ==> r == Err::<TrackChange, GritError>(GritError::TrackNotFound)
            &&& p >= 0 && p == new_index ==> r == Err::<TrackChange, GritError>(
                GritError::AlreadyAtPosition,
            )
            &&& p >= 0 && p != new_index && new_index >= snapshot@.tracks.len() ==> r == Err::<
                TrackChange,
                GritError,
            >(GritError::InvalidIndex)
            &&& p >= 0 && p != new_index && new_index < snapshot@.tracks.len() ==> (r matches Ok(c)
                && c@ == (TrackChangeView::Moved {
                track: snapshot@.tracks[p],
                from: p as usize,
                to: new_index,
            }))
        }),
{
    match find_track(&snapshot.tracks, track_id) {
        Some(i) => {
            if i == new_index {
                Err(GritError::AlreadyAtPosition)
            } else if new_index >= snapshot.tracks.len() {
                Err(GritError::InvalidIndex)
            } else {
                Ok(TrackChange::Moved { track: snapshot.tracks[i].duplicate(), from: i, to: new_index })
            }
        },
        None => Err(GritError::TrackNotFound),
    }
}

} // verus!
