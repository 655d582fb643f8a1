//! The journal: one record per operation, each naming the content hash of
//! the snapshot that the operation left as head.

use vstd::prelude::*;
use crate::config::{joined, playlist_dir_of};
use crate::types::TrackChangeView;

verus! {

/// The kinds of operation that the journal records.
#[derive(Debug, Clone, Copy, PartialEq, Eq, Structural)]
pub enum Operation {
    Init,
    Pull,
    Push,
    Commit,
    Apply,
    Revert,
}

/// One journal record.
#[derive(Debug, Clone)]
pub struct JournalEntry {
    /// Seconds since the Unix epoch, UTC.
    pub timestamp: i64,
    pub operation: Operation,
    /// Content hash of the snapshot the operation resulted in.
    pub snapshot_hash: String,
    pub added: usize,
    pub removed: usize,
    pub moved: usize,
    pub message: Option<String>,
}

/// Relies on `chrono::Utc::now`: the current time as Unix seconds. Nothing
/// is known of its value.
#[verifier::external_body]
fn unix_now() -> (r: i64) {
    chrono::Utc::now().timestamp()
}

impl JournalEntry {
    /// A record without message, stamped with the current time.
    pub fn new(op: Operation, hash: String, added: usize, removed: usize, moved: usize) -> (r: JournalEntry)
        ensures
            r.operation == op,
            r.snapshot_hash == hash,
            r.added == added,
            r.removed == removed,
            r.moved == moved,
            r.message is None,
    {
        JournalEntry::new_at(op, hash, added, removed, moved, unix_now())
    }

    /// A record without message, stamped with `timestamp`.
    pub fn new_at(
        op: Operation,
        hash: String,
        added: usize,
        removed: usize,
        moved: usize,
        timestamp: i64,
    ) -> (r: JournalEntry)
        ensures
            r.timestamp == timestamp,
            r.operation == op,
            r.snapshot_hash == hash,
            r.added == added,
            r.removed == removed,
            r.moved == moved,
            r.message is None,
    {
        JournalEntry { timestamp, operation: op, snapshot_hash: hash, added, removed, moved, message: None }
    }

    /// A record with a message, stamped with the current time.
    pub fn new_with_message(
        op: Operation,
        hash: String,
        added: usize,
        removed: usize,
        moved: usize,
        message: String,
    ) -> (r: JournalEntry)
        ensures
            r.operation == op,
            r.snapshot_hash == hash,
            r.added == added,
            r.removed == removed,
            r.moved == moved,
            r.message == Some(message),
    {
        let mut e = JournalEntry::new(op, hash, added, removed, moved);
        e.message = Some(message);
        e
    }

    /// Where a playlist's journal is stored.
    pub fn journal_path(plr_dir: &str, playlist_id: &str) -> (r: String)
        ensures
            r@ == joined(playlist_dir_of(plr_dir@, playlist_id@), "journal.log"@),
    {
        crate::config::journal_path(plr_dir, playlist_id)
    }
}

// ---------------------------------------------------------------------------
// Counting changes
// ---------------------------------------------------------------------------

/// How many changes of a kind (0: added, 1: removed, 2: moved) a list holds.
pub open spec fn count_kind(cs: Seq<TrackChangeView>, kind: int) -> nat
    decreases cs.len(),
{
    if cs.len() == 0 {
        0
    } else {
        count_kind(cs.drop_last(), kind) + if kind_of(cs.last()) == kind {
            1nat
        } else {
            0nat
        }
    }
}

pub open spec fn kind_of(c: TrackChangeView) -> int {
    match c {
        TrackChangeView::Added { .. } => 0,
        TrackChangeView::Removed { .. } => 1,
        TrackChangeView::Moved { .. } => 2,
    }
}

/// A list holds no more changes of a kind than changes.
pub proof fn lemma_count_kind_bound(cs: Seq<TrackChangeView>, kind: int)
    ensures
        count_kind(cs, kind) <= cs.len(),
    decreases cs.len(),
{
    if cs.len() > 0 {
        lemma_count_kind_bound(cs.drop_last(), kind);
    }
}

/// The numbers of additions, removals and moves in a patch.
pub fn count_changes(patch: &crate::types::DiffPatch) -> (r: (usize, usize, usize))
    ensures
        r.0 == count_kind(patch@, 0),
        r.1 == count_kind(patch@, 1),
        r.2 == count_kind(patch@, 2),
{
    let ghost cv = patch@;
    let mut added: usize = 0;
    let mut removed: usize = 0;
    let mut moved: usize = 0;
    let mut i: usize = 0;
    while i < patch.changes.len()
        invariant
            cv == crate::types::changes_view(patch.changes@),
            i <= cv.len(),
            added == count_kind(cv.take(i as int), 0),
            removed == count_kind(cv.take(i as int), 1),
            moved == count_kind(cv.take(i as int), 2),
        decreases cv.len() - i,
    {
        proof {
            lemma_count_kind_bound(cv.take(i as int), 0);
            lemma_count_kind_bound(cv.take(i as int), 1);
            lemma_count_kind_bound(cv.take(i as int), 2);
            assert(cv.take(i + 1).drop_last() =~= cv.take(i as int));
            assert(cv[i as int] == patch.changes@[i as int]@);
        }
        match &patch.changes[i] {
            crate::types::TrackChange::Added { .. } => added = added + 1,
            crate::types::TrackChange::Removed { .. } => removed = removed + 1,
            crate::types::TrackChange::Moved { .. } => moved = moved + 1,
        }
        i = i + 1;
    }
    assert(cv.take(i as int) =~= cv);
    (added, removed, moved)
}

} // verus!
