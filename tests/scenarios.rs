use grit::diff::apply_patch;
use grit::history::{PlaylistHistory, StoredSnapshot};
use grit::journal::{JournalEntry, Operation};
use grit::spotify::{apply_requests, collect_page, SpotifyRequest, SpotifyTrackObject};
use grit::staging::plan_add;
use grit::{compute_hash, DiffPatch, PlaylistSnapshot, ProviderKind, Track, TrackChange};

fn track(id: &str) -> Track {
    Track {
        id: id.to_string(),
        name: format!("Song {}", id),
        artists: vec![format!("Artist {}", id)],
        duration_ms: 180_000,
        provider: ProviderKind::Spotify,
        metadata: None,
    }
}

fn snapshot(ids: &[&str]) -> PlaylistSnapshot {
    PlaylistSnapshot {
        id: "pl1".to_string(),
        name: "Mix".to_string(),
        description: None,
        tracks: ids.iter().map(|i| track(i)).collect(),
        provider: ProviderKind::Spotify,
        snapshot_hash: "rev".to_string(),
        metadata: None,
    }
}

fn ids(s: &PlaylistSnapshot) -> Vec<String> {
    s.tracks.iter().map(|t| t.id.clone()).collect()
}

#[test]
fn basic_add_commit() {
    let mut h = PlaylistHistory::init(snapshot(&["A", "B", "C"]), 1_700_000_000);
    let change = plan_add(&h.head, &h.staged, track("D")).unwrap();
    match &change {
        TrackChange::Added { index, .. } => assert_eq!(*index, 3),
        _ => panic!("expected an addition"),
    }
    h.stage_change(change);
    let hash = h.commit("add D", 1_700_000_100).expect("something was staged");
    assert_eq!(ids(&h.head), vec!["A", "B", "C", "D"]);
    assert_eq!(h.journal.len(), 2);
    let last = h.journal.last().unwrap();
    assert_eq!(last.operation, Operation::Commit);
    assert_eq!((last.added, last.removed, last.moved), (1, 0, 0));
    assert_eq!(last.message.as_deref(), Some("add D"));
    assert_eq!(last.snapshot_hash, hash);
    assert_eq!(compute_hash(&h.head).unwrap(), hash);
    assert!(h.staged.changes.is_empty());
}

#[test]
fn removal_order_safety() {
    let orders: Vec<Vec<TrackChange>> = vec![
        vec![
            TrackChange::Removed { track: track("B"), index: 1 },
            TrackChange::Removed { track: track("D"), index: 3 },
            TrackChange::Added { track: track("F"), index: 0 },
        ],
        vec![
            TrackChange::Added { track: track("F"), index: 0 },
            TrackChange::Removed { track: track("D"), index: 3 },
            TrackChange::Removed { track: track("B"), index: 1 },
        ],
        vec![
            TrackChange::Removed { track: track("D"), index: 3 },
            TrackChange::Added { track: track("F"), index: 0 },
            TrackChange::Removed { track: track("B"), index: 1 },
        ],
    ];
    for changes in orders {
        let mut s = snapshot(&["A", "B", "C", "D", "E"]);
        apply_patch(&mut s, &DiffPatch { changes }).unwrap();
        assert_eq!(ids(&s), vec!["F", "A", "C", "E"]);
    }
}

#[test]
fn move_forward() {
    let mut s = snapshot(&["A", "B", "C", "D"]);
    let patch = DiffPatch { changes: vec![TrackChange::Moved { track: track("A"), from: 0, to: 2 }] };
    apply_patch(&mut s, &patch).unwrap();
    assert_eq!(ids(&s), vec!["B", "C", "A", "D"]);
    let reqs = apply_requests(&patch);
    assert_eq!(reqs.len(), 1);
    match &reqs[0] {
        SpotifyRequest::Reorder { range_start, insert_before, range_length } => {
            assert_eq!((*range_start, *insert_before, *range_length), (0, 3, 1));
        }
        _ => panic!("expected a reorder"),
    }
}

#[test]
fn move_backward() {
    let mut s = snapshot(&["A", "B", "C", "D"]);
    let patch = DiffPatch { changes: vec![TrackChange::Moved { track: track("D"), from: 3, to: 1 }] };
    apply_patch(&mut s, &patch).unwrap();
    assert_eq!(ids(&s), vec!["A", "D", "B", "C"]);
    let reqs = apply_requests(&patch);
    assert_eq!(reqs.len(), 1);
    match &reqs[0] {
        SpotifyRequest::Reorder { range_start, insert_before, range_length } => {
            assert_eq!((*range_start, *insert_before, *range_length), (3, 1, 1));
        }
        _ => panic!("expected a reorder"),
    }
}

fn page(from: usize, to: usize) -> Vec<Option<SpotifyTrackObject>> {
    (from..to)
        .map(|i| {
            Some(SpotifyTrackObject {
                id: format!("t{}", i),
                name: format!("Song {}", i),
                duration_ms: 1000 * i as u64,
                artists: vec!["Someone".to_string()],
            })
        })
        .collect()
}

#[test]
fn pagination_follows_every_page() {
    let mut all: Vec<Track> = Vec::new();
    collect_page(&mut all, &page(0, 100));
    collect_page(&mut all, &page(100, 175));
    assert_eq!(all.len(), 175);
    for (i, t) in all.iter().enumerate() {
        assert_eq!(t.id, format!("t{}", i));
        assert_eq!(t.provider, ProviderKind::Spotify);
    }
}

#[test]
fn page_entries_without_track_are_skipped() {
    let mut all: Vec<Track> = Vec::new();
    let mut items = page(0, 3);
    items.insert(1, None);
    collect_page(&mut all, &items);
    let got: Vec<String> = all.iter().map(|t| t.id.clone()).collect();
    assert_eq!(got, vec!["t0", "t1", "t2"]);
}

#[test]
fn revert_to_first_commit() {
    let s1 = snapshot(&["A"]);
    let s2 = snapshot(&["A", "B"]);
    let s3 = snapshot(&["A", "B", "C"]);
    let h1 = compute_hash(&s1).unwrap();
    let h2 = compute_hash(&s2).unwrap();
    let h3 = compute_hash(&s3).unwrap();
    let journal = vec![
        JournalEntry::new_at(Operation::Commit, h1.clone(), 1, 0, 0, 10),
        JournalEntry::new_at(Operation::Commit, h2.clone(), 1, 0, 0, 20),
        JournalEntry::new_at(Operation::Commit, h3.clone(), 1, 0, 0, 30),
    ];
    let objects = vec![
        StoredSnapshot { hash: h1.clone(), snapshot: s1.clone() },
        StoredSnapshot { hash: h2.clone(), snapshot: s2.clone() },
        StoredSnapshot { hash: h3.clone(), snapshot: s3.clone() },
    ];
    let staged = DiffPatch { changes: vec![TrackChange::Removed { track: track("A"), index: 0 }] };
    let mut h = PlaylistHistory::from_parts(s3, journal, objects, staged).expect("consistent history");
    h.revert(&h1, 40).unwrap();
    assert_eq!(h.journal.len(), 4);
    let last = h.journal.last().unwrap();
    assert_eq!(last.operation, Operation::Revert);
    assert_eq!(last.snapshot_hash, h1);
    assert_eq!(compute_hash(&h.head).unwrap(), h1);
    assert_eq!(ids(&h.head), vec!["A"]);
    assert!(h.staged.changes.is_empty());
}
