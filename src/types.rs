//! The data model: tracks, snapshots, changes and patches, with their views.

use vstd::prelude::*;

verus! {

/// Which remote service owns a playlist or a track.
#[derive(Debug, Clone, Copy, PartialEq, Eq, Structural)]
pub enum ProviderKind {
    Spotify,
    Youtube,
}

/// Mathematical value of a `Track`.
pub struct TrackView {
    pub id: Seq<char>,
    pub name: Seq<char>,
    pub artists: Seq<Seq<char>>,
    pub duration_ms: u64,
    pub provider: ProviderKind,
    pub metadata: Option<Seq<char>>,
}

/// A track as a value object; its identity is `(provider, id)`.
#[derive(Debug, Clone)]
pub struct Track {
    pub id: String,
    pub name: String,
    pub artists: Vec<String>,
    pub duration_ms: u64,
    pub provider: ProviderKind,
    pub metadata: Option<String>,
}

pub open spec fn opt_str_view(o: Option<String>) -> Option<Seq<char>> {
    match o {
        Some(s) => Some(s@),
        None => None,
    }
}

pub open spec fn strings_view(v: Seq<String>) -> Seq<Seq<char>> {
    v.map_values(|s: String| s@)
}

impl View for Track {
    type V = TrackView;

    open spec fn view(&self) -> TrackView {
        TrackView {
            id: self.id@,
            name: self.name@,
            artists: strings_view(self.artists@),
            duration_ms: self.duration_ms,
            provider: self.provider,
            metadata: opt_str_view(self.metadata),
        }
    }
}

/// A copy of an optional string with the same contents.
pub fn copy_opt_string(o: &Option<String>) -> (r: Option<String>)
    ensures
        opt_str_view(r) == opt_str_view(*o),
{
    match o {
        Some(s) => Some(s.clone()),
        None => None,
    }
}

/// A copy of a list of strings with the same contents.
pub fn copy_strings(v: &Vec<String>) -> (r: Vec<String>)
    ensures
        strings_view(r@) == strings_view(v@),
{
    let mut r: Vec<String> = Vec::new();
    let mut i: usize = 0;
    while i < v.len()
        invariant
            i <= v@.len(),
            r@.len() == i,
            forall|j: int| 0 <= j < i ==> #[trigger] r@[j]@ == v@[j]@,
        decreases v@.len() - i,
    {
        r.push(v[i].clone());
        i = i + 1;
    }
    assert(strings_view(r@) =~= strings_view(v@));
    r
}

impl Track {
    /// A copy of this track, equal to it in every field.
    pub fn duplicate(&self) -> (r: Track)
        ensures
            r@ == self@,
    {
        Track {
            id: self.id.clone(),
            name: self.name.clone(),
            artists: copy_strings(&self.artists),
            duration_ms: self.duration_ms,
            provider: self.provider,
            metadata: copy_opt_string(&self.metadata),
        }
    }

    /// Two tracks are the same track when provider and id agree, whatever
    /// their other attributes.
    pub fn same_identity(&self, other: &Track) -> (r: bool)
        ensures
            r == (self.provider == other.provider && self.id@ == other.id@),
    {
        self.provider == other.provider && self.id == other.id
    }
}

pub open spec fn tracks_view(v: Seq<Track>) -> Seq<TrackView> {
    v.map_values(|t: Track| t@)
}

/// Mathematical value of a `PlaylistSnapshot`.
pub struct SnapshotView {
    pub id: Seq<char>,
    pub name: Seq<char>,
    pub description: Option<Seq<char>>,
    pub tracks: Seq<TrackView>,
    pub provider: ProviderKind,
    pub snapshot_hash: Seq<char>,
    pub metadata: Option<Seq<char>>,
}

/// An immutable picture of a playlist: its attributes and its ordered tracks
/// (an id may occur at several positions).
#[derive(Debug, Clone)]
pub struct PlaylistSnapshot {
    pub id: String,
    pub name: String,
    pub description: Option<String>,
    pub tracks: Vec<Track>,
    pub provider: ProviderKind,
    /// The provider's own revision token, not the content hash.
    pub snapshot_hash: String,
    pub metadata: Option<String>,
}

impl View for PlaylistSnapshot {
    type V = SnapshotView;

    open spec fn view(&self) -> SnapshotView {
        SnapshotView {
            id: self.id@,
            name: self.name@,
            description: opt_str_view(self.description),
            tracks: tracks_view(self.tracks@),
            provider: self.provider,
            snapshot_hash: self.snapshot_hash@,
            metadata: opt_str_view(self.metadata),
        }
    }
}

/// Copies of each track, in order.
pub fn copy_tracks(v: &Vec<Track>) -> (r: Vec<Track>)
    ensures
        tracks_view(r@) == tracks_view(v@),
{
    let mut r: Vec<Track> = Vec::new();
    let mut i: usize = 0;
    while i < v.len()
        invariant
            i <= v@.len(),
            r@.len() == i,
            forall|j: int| 0 <= j < i ==> #[trigger] r@[j]@ == v@[j]@,
        decreases v@.len() - i,
    {
        r.push(v[i].duplicate());
        i = i + 1;
    }
    assert(tracks_view(r@) =~= tracks_view(v@));
    r
}

impl PlaylistSnapshot {
    /// A copy of this snapshot, equal to it as a value.
    pub fn duplicate(&self) -> (r: PlaylistSnapshot)
        ensures
            r@ == self@,
    {
        PlaylistSnapshot {
            id: self.id.clone(),
            name: self.name.clone(),
            description: copy_opt_string(&self.description),
            tracks: copy_tracks(&self.tracks),
            provider: self.provider,
            snapshot_hash: self.snapshot_hash.clone(),
            metadata: copy_opt_string(&self.metadata),
        }
    }
}

/// Mathematical value of a `TrackChange`.
pub enum TrackChangeView {
    Added { track: TrackView, index: usize },
    Removed { track: TrackView, index: usize },
    Moved { track: TrackView, from: usize, to: usize },
}

/// One edit of a playlist.
#[derive(Debug, Clone)]
pub enum TrackChange {
    /// `track` takes position `index` in the post-state.
    Added { track: Track, index: usize },
    /// The track at `index` of the pre-state goes; `track` is kept for display.
    Removed { track: Track, index: usize },
    /// The same track sits at `from` before and at `to` after.
    Moved { track: Track, from: usize, to: usize },
}

impl View for TrackChange {
    type V = TrackChangeView;

    open spec fn view(&self) -> TrackChangeView {
        match self {
            TrackChange::Added { track, index } => TrackChangeView::Added {
                track: track@,
                index: *index,
            },
            TrackChange::Removed { track, index } => TrackChangeView::Removed {
                track: track@,
                index: *index,
            },
            TrackChange::Moved { track, from, to } => TrackChangeView::Moved {
                track: track@,
                from: *from,
                to: *to,
            },
        }
    }
}

pub open spec fn changes_view(v: Seq<TrackChange>) -> Seq<TrackChangeView> {
    v.map_values(|c: TrackChange| c@)
}

/// An edit script; the order of its changes carries no meaning of its own.
#[derive(Debug, Clone)]
pub struct DiffPatch {
    pub changes: Vec<TrackChange>,
}

impl View for DiffPatch {
    type V = Seq<TrackChangeView>;

    open spec fn view(&self) -> Seq<TrackChangeView> {
        changes_view(self.changes@)
    }
}

impl DiffPatch {
    /// The patch without changes.
    pub fn empty() -> (r: DiffPatch)
        ensures
            r@ == Seq::<TrackChangeView>::empty(),
    {
        let r = DiffPatch { changes: Vec::new() };
        assert(r@ =~= Seq::<TrackChangeView>::empty());
        r
    }
}

/// Credentials of one provider.
#[derive(Debug, Clone)]
pub struct OAuthToken {
    pub access_token: String,
    pub refresh_token: Option<String>,
    /// Absolute expiry in Unix seconds.
    pub expires_at: Option<u64>,
    pub token_type: String,
    pub scope: Option<String>,
}

} // verus!
