use grit::config::{join_path, journal_path, object_path, snapshot_path};
use grit::diff::{apply_patch, diff};
use grit::hash::{canonical_bytes, compute_hash};
use grit::history::PlaylistHistory;
use grit::init::{detect_provider, extract_id, is_album_url, resolve_playlist};
use grit::journal::{count_changes, JournalEntry, Operation};
use grit::playback::RepeatMode;
use grit::spotify::{
    apply_requests, carry_refresh_token, insert_before, moves_fit, refresh_grant, SpotifyProvider,
    SpotifyRequest, SpotifyTokenResponse,
};
use grit::staging::{plan_add, plan_move, plan_remove};
use grit::text::{contains, text_after, text_before};
use grit::working_playlist;
use grit::{Config, DiffPatch, GritError, OAuthToken, PlaylistSnapshot, ProviderKind, Track, TrackChange};

fn track(id: &str) -> Track {
    Track {
        id: id.to_string(),
        name: format!("Song {}", id),
        artists: vec![format!("Artist {}", id)],
        duration_ms: 180_000,
        provider: ProviderKind::Spotify,
        metadata: None,
    }
}

fn snapshot(ids: &[&str]) -> PlaylistSnapshot {
    PlaylistSnapshot {
        id: "pl1".to_string(),
        name: "Mix".to_string(),
        description: None,
        tracks: ids.iter().map(|i| track(i)).collect(),
        provider: ProviderKind::Spotify,
        snapshot_hash: "rev".to_string(),
        metadata: None,
    }
}

fn ids(s: &PlaylistSnapshot) -> Vec<String> {
    s.tracks.iter().map(|t| t.id.clone()).collect()
}

fn token(refresh: Option<&str>) -> OAuthToken {
    OAuthToken {
        access_token: "acc".to_string(),
        refresh_token: refresh.map(|s| s.to_string()),
        expires_at: Some(100),
        token_type: "Bearer".to_string(),
        scope: None,
    }
}

// ----- diff -----

#[test]
fn diff_of_equal_snapshots_is_empty() {
    let a = snapshot(&["A", "B", "C"]);
    assert!(diff(&a, &a.clone()).changes.is_empty());
    let e = snapshot(&[]);
    assert!(diff(&e, &e).changes.is_empty());
}

#[test]
fn diff_classifies_each_id() {
    let old = snapshot(&["A", "B", "C"]);
    let new = snapshot(&["C", "B", "D"]);
    let p = diff(&old, &new);
    assert_eq!(p.changes.len(), 3);
    match &p.changes[0] {
        TrackChange::Removed { track, index } => assert_eq!((track.id.as_str(), *index), ("A", 0)),
        _ => panic!("removal first"),
    }
    match &p.changes[1] {
        TrackChange::Added { track, index } => assert_eq!((track.id.as_str(), *index), ("D", 2)),
        _ => panic!("then addition"),
    }
    match &p.changes[2] {
        TrackChange::Moved { track, from, to } => assert_eq!((track.id.as_str(), *from, *to), ("C", 2, 0)),
        _ => panic!("then moves"),
    }
    assert_eq!(count_changes(&p), (1, 1, 1));
}

#[test]
fn diff_represents_duplicates_by_last_occurrence() {
    let old = snapshot(&["A", "B", "A"]);
    let new = snapshot(&["B", "A"]);
    let p = diff(&old, &new);
    // A: last at 2 before, 1 after; B: 1 before, 0 after.
    let mut moves: Vec<(String, usize, usize)> = p
        .changes
        .iter()
        .map(|c| match c {
            TrackChange::Moved { track, from, to } => (track.id.clone(), *from, *to),
            _ => panic!("only moves expected"),
        })
        .collect();
    moves.sort();
    assert_eq!(moves, vec![("A".to_string(), 2, 1), ("B".to_string(), 1, 0)]);
}

#[test]
fn round_trip_when_positions_are_kept() {
    let a = snapshot(&["A", "B", "C", "D"]);
    let b = snapshot(&["A", "X", "C"]);
    let mut s = a.clone();
    apply_patch(&mut s, &diff(&a, &b)).unwrap();
    assert_eq!(ids(&s), ids(&b));
}

// ----- apply -----

#[test]
fn empty_patch_is_a_no_op() {
    let mut s = snapshot(&["A", "B"]);
    apply_patch(&mut s, &DiffPatch::empty()).unwrap();
    assert_eq!(ids(&s), vec!["A", "B"]);
}

#[test]
fn removals_at_two_five_seven_leave_seven_tracks() {
    let names = ["t0", "t1", "t2", "t3", "t4", "t5", "t6", "t7", "t8", "t9"];
    let orders = [[2usize, 5, 7], [7, 2, 5], [5, 7, 2]];
    for order in orders {
        let mut s = snapshot(&names);
        let changes = order
            .iter()
            .map(|i| TrackChange::Removed { track: track(names[*i]), index: *i })
            .collect();
        apply_patch(&mut s, &DiffPatch { changes }).unwrap();
        assert_eq!(s.tracks.len(), 7);
        assert_eq!(ids(&s), vec!["t0", "t1", "t3", "t4", "t6", "t8", "t9"]);
    }
}

#[test]
fn out_of_range_changes_are_absorbed() {
    let mut s = snapshot(&["A", "B"]);
    let changes = vec![
        TrackChange::Removed { track: track("Z"), index: 9 },
        TrackChange::Added { track: track("C"), index: 7 },
        TrackChange::Moved { track: track("A"), from: 0, to: 5 },
    ];
    apply_patch(&mut s, &DiffPatch { changes }).unwrap();
    assert_eq!(ids(&s), vec!["A", "B", "C"]);
}

#[test]
fn repeated_removal_index_removes_once() {
    let mut s = snapshot(&["A", "B", "C"]);
    let changes = vec![
        TrackChange::Removed { track: track("B"), index: 1 },
        TrackChange::Removed { track: track("B"), index: 1 },
    ];
    apply_patch(&mut s, &DiffPatch { changes }).unwrap();
    assert_eq!(ids(&s), vec!["A", "C"]);
}

// ----- hash -----

#[test]
fn hash_has_exact_value() {
    assert_eq!(compute_hash(&snapshot(&["A"])).unwrap(), "8ff9a431576d");
    assert_eq!(compute_hash(&snapshot(&[])).unwrap(), "68cf2573521e");
}

#[test]
fn canonical_form_is_fixed() {
    let bytes = canonical_bytes(&snapshot(&["A"]));
    let expected = "i3:pl1\nn3:Mix\nd-\np0\nh3:rev\nm-\nc1\ni1:A\nn6:Song A\nr1\na8:Artist A\nl180000\np0\nm-\n";
    assert_eq!(String::from_utf8(bytes).unwrap(), expected);
}

#[test]
fn hash_is_deterministic_and_tells_snapshots_apart() {
    let a = snapshot(&["A", "B"]);
    let h = compute_hash(&a).unwrap();
    assert_eq!(h.len(), 12);
    assert!(h.chars().all(|c| c.is_ascii_hexdigit() && !c.is_ascii_uppercase()));
    assert_eq!(h, compute_hash(&a.clone()).unwrap());
    assert_ne!(h, compute_hash(&snapshot(&["B", "A"])).unwrap());
}

// ----- history -----

#[test]
fn init_records_head_hash() {
    let s = snapshot(&["A", "B"]);
    let h = PlaylistHistory::init(s.clone(), 5);
    assert_eq!(h.journal.len(), 1);
    assert_eq!(h.journal[0].operation, Operation::Init);
    assert_eq!(h.journal[0].added, 2);
    assert_eq!(h.journal[0].snapshot_hash, compute_hash(&s).unwrap());
    assert_eq!(h.objects.len(), 1);
}

#[test]
fn commit_without_staged_changes_does_nothing() {
    let mut h = PlaylistHistory::init(snapshot(&["A"]), 5);
    assert_eq!(h.commit("nothing", 6), None);
    assert_eq!(h.journal.len(), 1);
}

#[test]
fn pull_apply_push_keep_head_hash() {
    let mut h = PlaylistHistory::init(snapshot(&["A", "B"]), 5);
    let hash = h.pull(snapshot(&["B", "C"]), 6);
    assert_eq!(hash, compute_hash(&h.head).unwrap());
    let last = h.journal.last().unwrap();
    assert_eq!(last.operation, Operation::Pull);
    assert_eq!((last.added, last.removed, last.moved), (1, 1, 1));
    let patch = DiffPatch { changes: vec![TrackChange::Added { track: track("D"), index: 0 }] };
    let hash = h.apply(&patch, Some("m".to_string()), 7);
    assert_eq!(ids(&h.head), vec!["D", "B", "C"]);
    assert_eq!(h.journal.last().unwrap().snapshot_hash, hash);
    h.record_push(&patch, 8);
    assert_eq!(h.journal.len(), 4);
    assert_eq!(h.journal.last().unwrap().operation, Operation::Push);
    assert_eq!(h.journal.last().unwrap().snapshot_hash, compute_hash(&h.head).unwrap());
}

#[test]
fn revert_to_unknown_hash_fails() {
    let mut h = PlaylistHistory::init(snapshot(&["A"]), 5);
    assert_eq!(h.revert("000000000000", 6), Err(GritError::UnknownRevision));
    assert_eq!(h.journal.len(), 1);
}

#[test]
fn from_parts_checks_consistency() {
    let s = snapshot(&["A"]);
    let r = PlaylistHistory::from_parts(s.clone(), Vec::new(), Vec::new(), DiffPatch::empty());
    assert_eq!(r.err(), Some(GritError::NotInitialized));
    let wrong = vec![JournalEntry::new_at(Operation::Init, "abcdefabcdef".to_string(), 1, 0, 0, 1)];
    let r = PlaylistHistory::from_parts(s, wrong, Vec::new(), DiffPatch::empty());
    assert_eq!(r.err(), Some(GritError::HashMismatch));
}

#[test]
fn reset_discards_staged_changes() {
    let mut h = PlaylistHistory::init(snapshot(&["A"]), 5);
    h.stage_change(TrackChange::Removed { track: track("A"), index: 0 });
    assert_eq!(h.reset(), 1);
    assert!(h.staged.changes.is_empty());
}

// ----- staging -----

#[test]
fn plan_add_counts_prior_additions() {
    let s = snapshot(&["A", "B"]);
    let staged = DiffPatch { changes: vec![TrackChange::Added { track: track("C"), index: 2 }] };
    match plan_add(&s, &staged, track("D")).unwrap() {
        TrackChange::Added { index, .. } => assert_eq!(index, 3),
        _ => panic!("expected an addition"),
    }
    let mut yt = track("Y");
    yt.provider = ProviderKind::Youtube;
    assert_eq!(plan_add(&s, &staged, yt).err().map(|_| ()), Some(()));
}

#[test]
fn plan_add_rejects_other_provider() {
    let s = snapshot(&["A"]);
    let mut yt = track("Y");
    yt.provider = ProviderKind::Youtube;
    assert!(matches!(plan_add(&s, &DiffPatch::empty(), yt), Err(GritError::ProviderMismatch)));
}

#[test]
fn plan_remove_and_move_errors() {
    let s = snapshot(&["A", "B", "C"]);
    assert!(matches!(plan_remove(&s, "Z"), Err(GritError::TrackNotFound)));
    match plan_remove(&s, "B").unwrap() {
        TrackChange::Removed { track, index } => assert_eq!((track.id.as_str(), index), ("B", 1)),
        _ => panic!("expected a removal"),
    }
    assert!(matches!(plan_move(&s, "Z", 0), Err(GritError::TrackNotFound)));
    assert!(matches!(plan_move(&s, "B", 1), Err(GritError::AlreadyAtPosition)));
    assert!(matches!(plan_move(&s, "B", 3), Err(GritError::InvalidIndex)));
    match plan_move(&s, "B", 0).unwrap() {
        TrackChange::Moved { from, to, .. } => assert_eq!((from, to), (1, 0)),
        _ => panic!("expected a move"),
    }
}

// ----- spotify -----

#[test]
fn insert_before_rule() {
    assert_eq!(insert_before(0, 2), 3);
    assert_eq!(insert_before(3, 1), 1);
    assert_eq!(insert_before(2, 2), 2);
}

#[test]
fn requests_come_removals_additions_moves() {
    let patch = DiffPatch {
        changes: vec![
            TrackChange::Moved { track: track("M"), from: 1, to: 4 },
            TrackChange::Added { track: track("N"), index: 2 },
            TrackChange::Removed { track: track("R"), index: 0 },
        ],
    };
    assert!(moves_fit(&patch));
    let reqs = apply_requests(&patch);
    assert_eq!(reqs.len(), 3);
    assert!(matches!(&reqs[0], SpotifyRequest::RemoveTrack { uri } if uri == "spotify:track:R"));
    assert!(matches!(&reqs[1], SpotifyRequest::AddTrack { uri, position: 2 } if uri == "spotify:track:N"));
    assert!(matches!(&reqs[2], SpotifyRequest::Reorder { range_start: 1, insert_before: 5, range_length: 1 }));
}

#[test]
fn moves_fit_rejects_last_position() {
    let patch = DiffPatch { changes: vec![TrackChange::Moved { track: track("M"), from: 0, to: usize::MAX }] };
    assert!(!moves_fit(&patch));
}

#[test]
fn oauth_url_is_percent_encoded() {
    let p = SpotifyProvider::new("my id".to_string(), "secret".to_string());
    let url = p.oauth_url("http://localhost:8888/callback", "st~a.b");
    assert_eq!(
        url,
        "https://accounts.spotify.com/authorize?client_id=my%20id&response_type=code&redirect_uri=http%3A%2F%2Flocalhost%3A8888%2Fcallback&scope=playlist-read-private%20playlist-read-collaborative%20playlist-modify-public%20playlist-modify-private&state=st~a.b"
    );
}

#[test]
fn basic_auth_header_is_base64() {
    let p = SpotifyProvider::new("id".to_string(), "secret".to_string());
    assert_eq!(p.basic_auth_header(), "aWQ6c2VjcmV0");
}

#[test]
fn provider_token_handling() {
    let p = SpotifyProvider::new("id".to_string(), "s".to_string());
    assert_eq!(p.get_token(), Err(GritError::NotAuthenticated));
    let p = p.with_token(&token(None));
    assert_eq!(p.get_token(), Ok("acc".to_string()));
    assert_eq!(p.kind(), ProviderKind::Spotify);
    assert_eq!(p.playable_url(&track("X")), "spotify:track:X");
}

#[test]
fn refresh_keeps_old_refresh_token() {
    assert_eq!(refresh_grant(&token(None)), Err(GritError::NoRefreshToken));
    assert_eq!(refresh_grant(&token(Some("r1"))), Ok("r1".to_string()));
    let merged = carry_refresh_token(token(None), &token(Some("r1")));
    assert_eq!(merged.refresh_token.as_deref(), Some("r1"));
    let merged = carry_refresh_token(token(Some("r2")), &token(Some("r1")));
    assert_eq!(merged.refresh_token.as_deref(), Some("r2"));
}

#[test]
fn token_response_expiry() {
    let r = SpotifyTokenResponse {
        access_token: "a".to_string(),
        token_type: "Bearer".to_string(),
        expires_in: 3600,
        refresh_token: None,
        scope: Some("s".to_string()),
    };
    let t = r.into_oauth_token(1_000);
    assert_eq!(t.expires_at, Some(4_600));
    assert_eq!(t.access_token, "a");
}

// ----- input -----

#[test]
fn extract_ids_from_urls() {
    assert_eq!(extract_id("https://open.spotify.com/playlist/37i9dQZF?si=abc"), "37i9dQZF");
    assert_eq!(extract_id("https://open.spotify.com/album/4aawyAB9?x=1"), "4aawyAB9");
    assert_eq!(extract_id("https://www.youtube.com/playlist?list=PLxyz&index=2"), "PLxyz");
    assert_eq!(extract_id("https://youtu.be/abc?list=PL9"), "PL9");
    assert_eq!(extract_id("https://www.youtube.com/watch?v=1"), "https://www.youtube.com/watch?v=1");
    assert_eq!(extract_id("37i9dQZF"), "37i9dQZF");
    assert!(is_album_url("https://open.spotify.com/album/4aawyAB9"));
    assert!(!is_album_url("https://open.spotify.com/playlist/4aawyAB9"));
}

#[test]
fn detect_provider_by_host() {
    assert_eq!(detect_provider("https://open.spotify.com/playlist/x"), Some(ProviderKind::Spotify));
    assert_eq!(detect_provider("https://youtu.be/x"), Some(ProviderKind::Youtube));
    assert_eq!(detect_provider("https://music.youtube.com/x"), Some(ProviderKind::Youtube));
    assert_eq!(detect_provider("plain-id"), None);
}

#[test]
fn resolve_playlist_fallbacks() {
    let s = |x: &str| Some(x.to_string());
    assert_eq!(resolve_playlist(s("a"), s("b"), s("c")), Ok("a".to_string()));
    assert_eq!(resolve_playlist(None, s("b"), s("c")), Ok("b".to_string()));
    assert_eq!(resolve_playlist(None, None, s("c")), Ok("c".to_string()));
    assert_eq!(resolve_playlist(None, None, None), Err(GritError::PlaylistRequired));
}

#[test]
fn substring_helpers() {
    assert!(contains("abcabc", "cab"));
    assert!(!contains("abc", "abcd"));
    assert!(contains("abc", ""));
    assert_eq!(text_after("a=b=c", "="), "b=c");
    assert_eq!(text_after("abc", "="), "");
    assert_eq!(text_before("a=b=c", "="), "a");
    assert_eq!(text_before("abc", "="), "abc");
    assert_eq!(text_after("héllo wörld", "o w"), "örld");
}

// ----- paths and pointer -----

#[test]
fn layout_paths() {
    assert_eq!(snapshot_path(".grit", "mix1"), ".grit/playlists/mix1/playlist.yaml");
    assert_eq!(journal_path(".grit/", "mix1"), ".grit/playlists/mix1/journal.log");
    assert_eq!(JournalEntry::journal_path(".grit", "mix1"), ".grit/playlists/mix1/journal.log");
    assert_eq!(object_path(".grit", "mix1", "abc"), ".grit/playlists/mix1/objects/abc.yaml");
    assert_eq!(join_path("", "x"), "x");
}

#[test]
fn config_paths() {
    let c = Config::default();
    assert_eq!(c.plr_dir, ".plr");
    assert!(c.default_provider.is_none());
    assert_eq!(c.config_path(), ".plr/config.toml");
    assert_eq!(c.credentials_dir(), ".plr/credentials");
    assert_eq!(c.playlists_dir(), ".plr/playlists");
}

#[test]
fn working_pointer() {
    assert_eq!(working_playlist::config_path(".grit"), ".grit/working_playlist.json");
    let st = working_playlist::save("mix1");
    assert_eq!(working_playlist::load(&st), "mix1");
    assert_eq!(st.last_track_index, None);
    let st2 = working_playlist::save_last_track(Some(st), 4);
    assert_eq!((st2.playlist_id.as_str(), st2.last_track_index), ("mix1", Some(4)));
    let st3 = working_playlist::save_last_track(None, 2);
    assert_eq!((st3.playlist_id.as_str(), st3.last_track_index), ("", Some(2)));
}

#[test]
fn journal_entry_constructors() {
    let e = JournalEntry::new(Operation::Pull, "h".to_string(), 1, 2, 3);
    assert_eq!((e.added, e.removed, e.moved), (1, 2, 3));
    assert!(e.message.is_none());
    let e = JournalEntry::new_with_message(Operation::Commit, "h".to_string(), 0, 0, 0, "m".to_string());
    assert_eq!(e.message.as_deref(), Some("m"));
    assert_ne!(RepeatMode::Off, RepeatMode::All);
}

#[test]
fn replaying_a_swap_keeps_old_order() {
    // Moves are recorded with old positions but performed one after another,
    // so a swap does not replay to its target.
    let a = snapshot(&["X", "Y"]);
    let b = snapshot(&["Y", "X"]);
    let p = diff(&a, &b);
    assert_eq!(p.changes.len(), 2);
    let mut s = a.clone();
    apply_patch(&mut s, &p).unwrap();
    assert_eq!(ids(&s), vec!["X", "Y"]);
}

#[test]
fn round_trip_with_tail_changes() {
    let a = snapshot(&["A", "B"]);
    let b = snapshot(&["A", "B", "C", "D"]);
    let mut s = a.clone();
    apply_patch(&mut s, &diff(&a, &b)).unwrap();
    assert_eq!(ids(&s), ids(&b));
    let mut s = b.clone();
    apply_patch(&mut s, &diff(&b, &a)).unwrap();
    assert_eq!(ids(&s), ids(&a));
}

#[test]
fn expiry_check() {
    let t = token(None);
    assert!(!grit::spotify::is_expired(&t, 99));
    assert!(grit::spotify::is_expired(&t, 100));
    let mut forever = token(None);
    forever.expires_at = None;
    assert!(!grit::spotify::is_expired(&forever, u64::MAX));
}
