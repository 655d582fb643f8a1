//! The Spotify adapter's own logic: authorization URL, credentials header,
//! token handling, page assembly and the mapping of a patch onto the
//! sequence of Web API mutations (with the insert-before reorder rule).

use vstd::prelude::*;
use vstd::string::StringExecFns;
use vstd::utf8::encode_utf8;
use base64::Engine;
use crate::error::GritError;
use crate::types::{
    changes_view, opt_str_view, strings_view, tracks_view, DiffPatch, OAuthToken, ProviderKind,
    Track, TrackChange, TrackChangeView, TrackView,
};

verus! {

/// The authorization endpoint.
pub const AUTH_URL: &'static str = "https://accounts.spotify.com/authorize";

/// The token endpoint.
pub const TOKEN_URL: &'static str = "https://accounts.spotify.com/api/token";

/// The root of the Web API.
pub const API_BASE: &'static str = "https://api.spotify.com/v1";

/// The scopes asked for, separated by spaces.
pub const SCOPES: &'static str = "playlist-read-private playlist-read-collaborative playlist-modify-public playlist-modify-private";

/// What a track URI starts with.
pub const TRACK_URI_PREFIX: &'static str = "spotify:track:";

// ---------------------------------------------------------------------------
// Outside encoders
// ---------------------------------------------------------------------------

/// Bytes that percent-encoding leaves as they are.
pub open spec fn url_safe(b: u8) -> bool {
    (48 <= b <= 57) || (65 <= b <= 90) || (97 <= b <= 122) || b == 45 || b == 46 || b == 95 || b
        == 126
}

/// Uppercase hexadecimal digit of a value below 16.
pub open spec fn upper_hex_char(d: int) -> char {
    "0123456789ABCDEF"@[d]
}

/// Percent-encoding of a byte string.
pub open spec fn url_encoded(b: Seq<u8>) -> Seq<char>
    decreases b.len(),
{
    if b.len() == 0 {
        Seq::empty()
    } else {
        let x = b.last();
        url_encoded(b.drop_last()) + if url_safe(x) {
            seq![x as char]
        } else {
            seq!['%', upper_hex_char(x as int / 16), upper_hex_char(x as int % 16)]
        }
    }
}

/// Relies on `urlencoding::encode`: each byte of the UTF-8 form is kept when
/// it is an ASCII letter or digit or one of `-`, `.`, `_`, `~`, and is
/// otherwise written as `%` and two uppercase hex digits.
#[verifier::external_body]
fn url_encode(s: &str) -> (r: String)
    ensures
        r@ == url_encoded(encode_utf8(s@)),
{
    urlencoding::encode(s).into_owned()
}

/// Standard base64 (with padding) of a byte string.
pub uninterp spec fn base64_standard_of(b: Seq<u8>) -> Seq<char>;

/// Relies on `base64::engine::general_purpose::STANDARD.encode`: the
/// standard-alphabet, padded base64 text of the bytes, four characters for
/// each started group of three bytes.
#[verifier::external_body]
fn base64_standard(b: &[u8]) -> (r: String)
    ensures
        r@ == base64_standard_of(b@),
        r@.len() == 4 * ((b@.len() + 2) / 3),
{
    base64::engine::general_purpose::STANDARD.encode(b)
}

// ---------------------------------------------------------------------------
// Provider state
// ---------------------------------------------------------------------------

/// The Spotify client's credentials and, once authenticated, its token.
#[derive(Debug, Clone)]
pub struct SpotifyProvider {
    pub client_id: String,
    pub client_secret: String,
    pub access_token: Option<String>,
}

/// The authorization-code URL for these arguments.
pub open spec fn oauth_url_of(client_id: Seq<char>, redirect_uri: Seq<char>, state: Seq<char>) -> Seq<char> {
    AUTH_URL@ + "?client_id="@ + url_encoded(encode_utf8(client_id))
        + "&response_type=code&redirect_uri="@ + url_encoded(encode_utf8(redirect_uri))
        + "&scope="@ + url_encoded(encode_utf8(SCOPES@)) + "&state="@ + url_encoded(
        encode_utf8(state),
    )
}

/// The URI by which Spotify names a track.
pub open spec fn track_uri(id: Seq<char>) -> Seq<char> {
    TRACK_URI_PREFIX@ + id
}

fn make_track_uri(id: &String) -> (r: String)
    ensures
        r@ == track_uri(id@),
{
    String::from_str(TRACK_URI_PREFIX).concat(id.as_str())
}

impl SpotifyProvider {
    /// A provider that is not authenticated yet.
    pub fn new(client_id: String, client_secret: String) -> (r: SpotifyProvider)
        ensures
            r.client_id == client_id,
            r.client_secret == client_secret,
            r.access_token is None,
    {
        SpotifyProvider { client_id, client_secret, access_token: None }
    }

    /// The same provider, authenticated with `token`'s access token.
    pub fn with_token(self, token: &OAuthToken) -> (r: SpotifyProvider)
        ensures
            r.client_id == self.client_id,
            r.client_secret == self.client_secret,
            r.access_token == Some(token.access_token),
    {
        SpotifyProvider { access_token: Some(token.access_token.clone()), ..self }
    }

    pub fn kind(&self) -> (r: ProviderKind)
        ensures
            r == ProviderKind::Spotify,
    {
        ProviderKind::Spotify
    }

    /// The access token, or `NotAuthenticated`.
    pub fn get_token(&self) -> (r: Result<String, GritError>)
        ensures
            match self.access_token {
                Some(t) => r == Ok::<String, GritError>(t),
                None => r == Err::<String, GritError>(GritError::NotAuthenticated),
            },
    {
        match &self.access_token {
            Some(t) => Ok(t.clone()),
            None => Err(GritError::NotAuthenticated),
        }
    }

    /// Base64 of `client_id:client_secret`, for the token endpoint's Basic
    /// authorization.
    pub fn basic_auth_header(&self) -> (r: String)
        ensures
            r@ == base64_standard_of(encode_utf8(self.client_id@ + ":"@ + self.client_secret@)),
    {
        let credentials = self.client_id.clone().concat(":").concat(self.client_secret.as_str());
        let bytes = credentials.as_str().as_bytes();
        base64_standard(bytes)
    }

    /// The authorization-code URL with the scopes this tool needs.
    pub fn oauth_url(&self, redirect_uri: &str, state: &str) -> (r: String)
        ensures
            r@ == oauth_url_of(self.client_id@, redirect_uri@, state@),
    {
        let url = String::from_str(AUTH_URL).concat("?client_id=");
        let url = url.concat(url_encode(self.client_id.as_str()).as_str());
        let url = url.concat("&response_type=code&redirect_uri=");
        let url = url.concat(url_encode(redirect_uri).as_str());
        let url = url.concat("&scope=");
        let url = url.concat(url_encode(SCOPES).as_str());
        let url = url.concat("&state=");
        let url = url.concat(url_encode(state).as_str());
        assert(url@ =~= oauth_url_of(self.client_id@, redirect_uri@, state@));
        url
    }

    /// The URI that the playback collaborator takes for a track.
    pub fn playable_url(&self, track: &Track) -> (r: String)
        ensures
            r@ == track_uri(track.id@),
    {
        make_track_uri(&track.id)
    }
}

// ---------------------------------------------------------------------------
// Tokens
// ---------------------------------------------------------------------------

/// What the token endpoint answers.
#[derive(Debug, Clone)]
pub struct SpotifyTokenResponse {
    pub access_token: String,
    pub token_type: String,
    pub expires_in: u64,
    pub refresh_token: Option<String>,
    pub scope: Option<String>,
}

impl SpotifyTokenResponse {
    /// The token, expiring `expires_in` seconds after `now_secs` (Unix time).
    pub fn into_oauth_token(self, now_secs: u64) -> (r: OAuthToken)
        requires
            now_secs + self.expires_in <= u64::MAX,
        ensures
            r.access_token == self.access_token,
            r.refresh_token == self.refresh_token,
            r.expires_at == Some((now_secs + self.expires_in) as u64),
            r.token_type == self.token_type,
            r.scope == self.scope,
    {
        OAuthToken {
            access_token: self.access_token,
            refresh_token: self.refresh_token,
            expires_at: Some(now_secs + self.expires_in),
            token_type: self.token_type,
            scope: self.scope,
        }
    }
}

/// The token must be refreshed before use: it has an expiry and that
/// moment (Unix seconds) is not after `now_secs`.
pub fn is_expired(token: &OAuthToken, now_secs: u64) -> (r: bool)
    ensures
        r == (token.expires_at matches Some(t) && t <= now_secs),
{
    match token.expires_at {
        Some(t) => t <= now_secs,
        None => false,
    }
}

/// The refresh token to send, or `NoRefreshToken`.
pub fn refresh_grant(token: &OAuthToken) -> (r: Result<String, GritError>)
    ensures
        match token.refresh_token {
            Some(t) => r == Ok::<String, GritError>(t),
            None => r == Err::<String, GritError>(GritError::NoRefreshToken),
        },
{
    match &token.refresh_token {
        Some(t) => Ok(t.clone()),
        None => Err(GritError::NoRefreshToken),
    }
}

/// A refreshed token; where the answer carries no new refresh token, the old
/// one is kept.
pub fn carry_refresh_token(fresh: OAuthToken, previous: &OAuthToken) -> (r: OAuthToken)
    ensures
        r.access_token == fresh.access_token,
        r.expires_at == fresh.expires_at,
        r.token_type == fresh.token_type,
        r.scope == fresh.scope,
        opt_str_view(r.refresh_token) == if fresh.refresh_token is Some {
            opt_str_view(fresh.refresh_token)
        } else {
            opt_str_view(previous.refresh_token)
        },
{
    let mut t = fresh;
    if t.refresh_token.is_none() {
        t.refresh_token = crate::types::copy_opt_string(&previous.refresh_token);
    }
    t
}

// ---------------------------------------------------------------------------
// Pages of a playlist
// ---------------------------------------------------------------------------

/// A track as the Web API describes it, artists reduced to their names.
#[derive(Debug, Clone)]
pub struct SpotifyTrackObject {
    pub id: String,
    pub name: String,
    pub duration_ms: u64,
    pub artists: Vec<String>,
}

pub open spec fn spotify_track_view(o: SpotifyTrackObject) -> TrackView {
    TrackView {
        id: o.id@,
        name: o.name@,
        artists: strings_view(o.artists@),
        duration_ms: o.duration_ms,
        provider: ProviderKind::Spotify,
        metadata: None,
    }
}

/// The tracks of a page, in order; entries without a track are left out.
pub open spec fn present_tracks(items: Seq<Option<SpotifyTrackObject>>) -> Seq<TrackView>
    decreases items.len(),
{
    if items.len() == 0 {
        Seq::empty()
    } else {
        let before = present_tracks(items.drop_last());
        match items.last() {
            Some(o) => before.push(spotify_track_view(o)),
            None => before,
        }
    }
}

impl SpotifyTrackObject {
    /// The library's track for this object.
    pub fn to_track(&self) -> (r: Track)
        ensures
            r@ == spotify_track_view(*self),
    {
        Track {
            id: self.id.clone(),
            name: self.name.clone(),
            artists: crate::types::copy_strings(&self.artists),
            duration_ms: self.duration_ms,
            provider: ProviderKind::Spotify,
            metadata: None,
        }
    }
}

/// Append the tracks of one page to those gathered so far.
pub fn collect_page(all: &mut Vec<Track>, items: &Vec<Option<SpotifyTrackObject>>)
    ensures
        tracks_view(final(all)@) == tracks_view(old(all)@) + present_tracks(items@),
{
    let ghost start = tracks_view(all@);
    let mut i: usize = 0;
    while i < items.len()
        invariant
            i <= items@.len(),
            tracks_view(all@) == start + present_tracks(items@.take(i as int)),
        decreases items@.len() - i,
    {
        let ghost before = all@;
        match &items[i] {
            Some(o) => {
                all.push(o.to_track());
                assert(tracks_view(all@) =~= tracks_view(before).push(all@.last()@));
            },
            None => {},
        }
        assert(items@.take(i + 1).drop_last() =~= items@.take(i as int));
        i = i + 1;
        assert(tracks_view(all@) =~= start + present_tracks(items@.take(i as int)));
    }
    assert(items@.take(i as int) =~= items@);
}

// ---------------------------------------------------------------------------
// Pushing a patch
// ---------------------------------------------------------------------------

/// `insert_before` of Spotify's reorder call for a move from `from` to `to`:
/// one past the target when moving forward, the target otherwise.
pub open spec fn reorder_target(from: usize, to: usize) -> int {
    if from < to {
        to + 1
    } else {
        to as int
    }
}

/// The reorder position for a single move.
pub fn insert_before(from: usize, to: usize) -> (r: usize)
    requires
        from < to ==> to < usize::MAX,
    ensures
        r == reorder_target(from, to),
{
    if from < to {
        to + 1
    } else {
        to
    }
}

/// Mathematical value of a `SpotifyRequest`.
pub enum SpotifyRequestView {
    RemoveTrack { uri: Seq<char> },
    AddTrack { uri: Seq<char>, position: usize },
    Reorder { range_start: usize, insert_before: usize, range_length: usize },
}

/// One mutation call of the Web API.
#[derive(Debug, Clone)]
pub enum SpotifyRequest {
    /// Delete the track with this URI.
    RemoveTrack { uri: String },
    /// Insert the track with this URI at `position`.
    AddTrack { uri: String, position: usize },
    /// Move `range_length` tracks from `range_start` to before `insert_before`.
    Reorder { range_start: usize, insert_before: usize, range_length: usize },
}

impl View for SpotifyRequest {
    type V = SpotifyRequestView;

    open spec fn view(&self) -> SpotifyRequestView {
        match self {
            SpotifyRequest::RemoveTrack { uri } => SpotifyRequestView::RemoveTrack { uri: uri@ },
            SpotifyRequest::AddTrack { uri, position } => SpotifyRequestView::AddTrack {
                uri: uri@,
                position: *position,
            },
            SpotifyRequest::Reorder { range_start, insert_before, range_length } =>
                SpotifyRequestView::Reorder {
                range_start: *range_start,
                insert_before: *insert_before,
                range_length: *range_length,
            },
        }
    }
}

pub open spec fn requests_view(v: Seq<SpotifyRequest>) -> Seq<SpotifyRequestView> {
    v.map_values(|r: SpotifyRequest| r@)
}

/// The call for one change of the given kind (0: removal, 1: addition,
/// 2: move), if the change is of that kind.
pub open spec fn request_for(c: TrackChangeView, kind: int) -> Option<SpotifyRequestView> {
    match c {
        TrackChangeView::Removed { track, .. } => if kind == 0 {
            Some(SpotifyRequestView::RemoveTrack { uri: track_uri(track.id) })
        } else {
            None
        },
        TrackChangeView::Added { track, index } => if kind == 1 {
            Some(SpotifyRequestView::AddTrack { uri: track_uri(track.id), position: index })
        } else {
            None
        },
        TrackChangeView::Moved { from, to, .. } => if kind == 2 {
            Some(
                SpotifyRequestView::Reorder {
                    range_start: from,
                    insert_before: reorder_target(from, to) as usize,
                    range_length: 1,
                },
            )
        } else {
            None
        },
    }
}

/// The calls for the changes of one kind, in the patch's order.
pub open spec fn requests_of_kind(cs: Seq<TrackChangeView>, kind: int) -> Seq<SpotifyRequestView>
    decreases cs.len(),
{
    if cs.len() == 0 {
        Seq::empty()
    } else {
        let before = requests_of_kind(cs.drop_last(), kind);
        match request_for(cs.last(), kind) {
            Some(r) => before.push(r),
            None => before,
        }
    }
}

/// All calls for a patch: removals, then additions, then moves, one move per
/// call.
pub open spec fn spotify_requests(cs: Seq<TrackChangeView>) -> Seq<SpotifyRequestView> {
    requests_of_kind(cs, 0) + requests_of_kind(cs, 1) + requests_of_kind(cs, 2)
}

/// No move targets the last representable position.
pub open spec fn moves_representable(cs: Seq<TrackChangeView>) -> bool {
    forall|k: int|
        0 <= k < cs.len() ==> match #[trigger] cs[k] {
            TrackChangeView::Moved { to, .. } => to < usize::MAX,
            _ => true,
        }
}

/// No move of the patch targets the last representable position, so that
/// its reorder position can be written.
pub fn moves_fit(patch: &DiffPatch) -> (r: bool)
    ensures
        r == moves_representable(patch@),
{
    let ghost cv = patch@;
    let mut k: usize = 0;
    while k < patch.changes.len()
        invariant
            cv == changes_view(patch.changes@),
            k <= cv.len(),
            forall|q: int|
                0 <= q < k ==> match #[trigger] cv[q] {
                    TrackChangeView::Moved { to, .. } => to < usize::MAX,
                    _ => true,
                },
        decreases cv.len() - k,
    {
        assert(cv[k as int] == patch.changes@[k as int]@);
        match &patch.changes[k] {
            TrackChange::Moved { to, .. } => {
                if *to == usize::MAX {
                    return false;
                }
            },
            _ => {},
        }
        k = k + 1;
    }
    true
}

fn request_for_change(c: &TrackChange, kind: u8) -> (r: Option<SpotifyRequest>)
    requires
        kind <= 2,
        match c@ {
            TrackChangeView::Moved { to, .. } => to < usize::MAX,
            _ => true,
        },
    ensures
        match r {
            Some(q) => request_for(c@, kind as int) == Some(q@),
            None => request_for(c@, kind as int) is None,
        },
{
    match c {
        TrackChange::Removed { track, .. } => {
            if kind == 0 {
                Some(SpotifyRequest::RemoveTrack { uri: make_track_uri(&track.id) })
            } else {
                None
            }
        },
        TrackChange::Added { track, index } => {
            if kind == 1 {
                Some(SpotifyRequest::AddTrack { uri: make_track_uri(&track.id), position: *index })
            } else {
                None
            }
        },
        TrackChange::Moved { from, to, .. } => {
            if kind == 2 {
                Some(
                    SpotifyRequest::Reorder {
                        range_start: *from,
                        insert_before: insert_before(*from, *to),
                        range_length: 1,
                    },
                )
            } else {
                None
            }
        },
    }
}

/// The Web API calls that push `patch`, in the order they must be made.
pub fn apply_requests(patch: &DiffPatch) -> (r: Vec<SpotifyRequest>)
    requires
        moves_representable(patch@),
    ensures
        requests_view(r@) == spotify_requests(patch@),
{
    let ghost cv = patch@;
    let mut out: Vec<SpotifyRequest> = Vec::new();
    let mut kind: u8 = 0;
    while kind < 3
        invariant
            kind <= 3,
            cv == changes_view(patch.changes@),
            moves_representable(cv),
            requests_view(out@) == (if kind == 0 {
                Seq::empty()
            } else if kind == 1 {
                requests_of_kind(cv, 0)
            } else if kind == 2 {
                requests_of_kind(cv, 0) + requests_of_kind(cv, 1)
            } else {
                spotify_requests(cv)
            }),
        decreases 3 - kind,
    {
        let ghost start = requests_view(out@);
        let mut j: usize = 0;
        while j < patch.changes.len()
            invariant
                kind < 3,
                j <= cv.len(),
                cv == changes_view(patch.changes@),
                moves_representable(cv),
                requests_view(out@) == start + requests_of_kind(cv.take(j as int), kind as int),
            decreases cv.len() - j,
        {
            let ghost before = out@;
            assert(cv[j as int] == patch.changes@[j as int]@);
            match request_for_change(&patch.changes[j], kind) {
                Some(q) => {
                    out.push(q);
                    assert(requests_view(out@) =~= requests_view(before).push(q@));
                },
                None => {},
            }
            assert(cv.take(j + 1).drop_last() =~= cv.take(j as int));
            j = j + 1;
            assert(requests_view(out@) =~= start + requests_of_kind(cv.take(j as int), kind as int));
        }
        assert(cv.take(j as int) =~= cv);
        kind = kind + 1;
    }
    out
}

/// A patch of a single move is pushed as a single reorder call of one
/// track, whose insert-before position is one past the target when the move
/// goes forward and the target itself when it goes backward.
pub proof fn single_move_reorder_call(patch: DiffPatch, track: Track, from: usize, to: usize)
    requires
        patch@ == seq![TrackChangeView::Moved { track: track@, from, to }],
        to < usize::MAX,
    ensures
        spotify_requests(patch@) == seq![
            SpotifyRequestView::Reorder {
                range_start: from,
                insert_before: if from < to { (to + 1) as usize } else { to },
                range_length: 1,
            },
        ],
{
    let cs = patch@;
    let e = Seq::<TrackChangeView>::empty();
    assert(cs.drop_last() =~= e);
    assert(requests_of_kind(e, 0) == Seq::<SpotifyRequestView>::empty());
    assert(requests_of_kind(e, 1) == Seq::<SpotifyRequestView>::empty());
    assert(requests_of_kind(e, 2) == Seq::<SpotifyRequestView>::empty());
    assert(cs.last() == TrackChangeView::Moved { track: track@, from, to });
    assert(requests_of_kind(cs, 0) == Seq::<SpotifyRequestView>::empty());
    assert(requests_of_kind(cs, 1) == Seq::<SpotifyRequestView>::empty());
    assert(requests_of_kind(cs, 2) =~= seq![
        SpotifyRequestView::Reorder {
            range_start: from,
            insert_before: if from < to { (to + 1) as usize } else { to },
            range_length: 1,
        },
    ]);
    assert(spotify_requests(cs) =~= seq![
        SpotifyRequestView::Reorder {
            range_start: from,
            insert_before: if from < to { (to + 1) as usize } else { to },
            range_length: 1,
        },
    ]);
}

} // verus!
