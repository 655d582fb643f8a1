//! The per-playlist state machine that ties the head snapshot, the staged
//! patch, the journal and the pool of snapshots stored by content hash.
//! Every operation keeps the journal's last record naming the head's
//! content hash, and every pooled snapshot stored under its own hash.

use vstd::prelude::*;
use crate::diff::{apply_patch, diff, diff_changes, patched};
use crate::error::GritError;
use crate::hash::{content_hash, snapshot_hash_of};
use crate::journal::{count_changes, count_kind, JournalEntry, Operation};
use crate::types::{DiffPatch, PlaylistSnapshot, TrackChange, TrackChangeView};

verus! {

/// A snapshot kept in the pool under a content hash.
#[derive(Debug, Clone)]
pub struct StoredSnapshot {
    pub hash: String,
    pub snapshot: PlaylistSnapshot,
}

/// The whole local state of one tracked playlist.
#[derive(Debug, Clone)]
pub struct PlaylistHistory {
    pub head: PlaylistSnapshot,
    pub journal: Vec<JournalEntry>,
    pub objects: Vec<StoredSnapshot>,
    pub staged: DiffPatch,
}

/// A pooled snapshot is stored under its own content hash.
pub open spec fn stored_soundly(o: StoredSnapshot) -> bool {
    o.hash@ == content_hash(o.snapshot@)
}

/// The last record of the journal.
pub open spec fn last_entry(j: Seq<JournalEntry>) -> JournalEntry {
    j[j.len() - 1]
}

/// The record that an operation appends.
pub open spec fn appended(
    before: Seq<JournalEntry>,
    after: Seq<JournalEntry>,
    op: Operation,
    hash: Seq<char>,
    timestamp: i64,
) -> bool {
    &&& after.len() == before.len() + 1
    &&& after.drop_last() == before
    &&& last_entry(after).operation == op
    &&& last_entry(after).snapshot_hash@ == hash
    &&& last_entry(after).timestamp == timestamp
}

/// The counts of a record are those of a list of changes.
pub open spec fn counts_of(e: JournalEntry, cs: Seq<TrackChangeView>) -> bool {
    e.added == count_kind(cs, 0) && e.removed == count_kind(cs, 1) && e.moved == count_kind(cs, 2)
}

impl PlaylistHistory {
    /// The journal is not empty, its last record names the head's content
    /// hash, and each pooled snapshot is stored under its own hash.
    pub open spec fn wf(&self) -> bool {
        &&& self.journal@.len() > 0
        &&& last_entry(self.journal@).snapshot_hash@ == content_hash(self.head@)
        &&& forall|k: int|
            0 <= k < self.objects@.len() ==> stored_soundly(#[trigger] self.objects@[k])
    }

    /// A new history for a freshly fetched snapshot: one `Init` record
    /// counting all its tracks as added, the snapshot pooled, nothing staged.
    pub fn init(snapshot: PlaylistSnapshot, timestamp: i64) -> (r: PlaylistHistory)
        ensures
            r.wf(),
            r.head@ == snapshot@,
            r.journal@.len() == 1,
            r.journal@[0].operation == Operation::Init,
            r.journal@[0].snapshot_hash@ == content_hash(snapshot@),
            r.journal@[0].timestamp == timestamp,
            r.journal@[0].added == snapshot.tracks@.len(),
            r.journal@[0].removed == 0,
            r.journal@[0].moved == 0,
            r.objects@.len() == 1,
            r.objects@[0].snapshot@ == snapshot@,
            r.staged@.len() == 0,
    {
        let hash = snapshot_hash_of(&snapshot);
        let n = snapshot.tracks.len();
        let entry = JournalEntry::new_at(Operation::Init, hash.clone(), n, 0, 0, timestamp);
        let stored = StoredSnapshot { hash, snapshot: snapshot.duplicate() };
        let mut journal: Vec<JournalEntry> = Vec::new();
        journal.push(entry);
        let mut objects: Vec<StoredSnapshot> = Vec::new();
        objects.push(stored);
        let r = PlaylistHistory { head: snapshot, journal, objects, staged: DiffPatch::empty() };
        assert(stored_soundly(r.objects@[0]));
        r
    }

    /// A history assembled from stored parts, checked: `NotInitialized`
    /// where the journal is empty, `HashMismatch` where the head does not
    /// hash to the journal's last record or a pooled snapshot does not hash
    /// to its name.
    pub fn from_parts(
        head: PlaylistSnapshot,
        journal: Vec<JournalEntry>,
        objects: Vec<StoredSnapshot>,
        staged: DiffPatch,
    ) -> (r: Result<PlaylistHistory, GritError>)
        ensures
            journal@.len() == 0 ==> r == Err::<PlaylistHistory, GritError>(
                GritError::NotInitialized,
            ),
            journal@.len() > 0 ==> (r is Ok <==> (last_entry(journal@).snapshot_hash@
                == content_hash(head@) && forall|k: int|
                0 <= k < objects@.len() ==> stored_soundly(#[trigger] objects@[k]))),
            journal@.len() > 0 && r is Err ==> r == Err::<PlaylistHistory, GritError>(
                GritError::HashMismatch,
            ),
            r matches Ok(h) ==> h.wf() && h.head == head && h.journal == journal && h.objects
                == objects && h.staged == staged,
    {
        let n = journal.len();
        if n == 0 {
            return Err(GritError::NotInitialized);
        }
        let h = snapshot_hash_of(&head);
        if h != journal[n - 1].snapshot_hash {
            return Err(GritError::HashMismatch);
        }
        let mut k: usize = 0;
        while k < objects.len()
            invariant
                n == journal@.len(),
                n > 0,
                last_entry(journal@).snapshot_hash@ == content_hash(head@),
                k <= objects@.len(),
                forall|q: int| 0 <= q < k ==> stored_soundly(#[trigger] objects@[q]),
            decreases objects@.len() - k,
        {
            let hk = snapshot_hash_of(&objects[k].snapshot);
            if hk != objects[k].hash {
                return Err(GritError::HashMismatch);
            }
            k = k + 1;
        }
        Ok(PlaylistHistory { head, journal, objects, staged })
    }

    /// Add a change to the staged patch. Staging does not validate: the
    /// applier absorbs stale positions at commit.
    pub fn stage_change(&mut self, change: TrackChange)
        requires
            old(self).wf(),
        ensures
            final(self).wf(),
            final(self).staged@ == old(self).staged@.push(change@),
            final(self).head == old(self).head,
            final(self).journal == old(self).journal,
            final(self).objects == old(self).objects,
    {
        let ghost before = self.staged.changes@;
        let ghost c = change@;
        self.staged.changes.push(change);
        assert(self.staged@ =~= crate::types::changes_view(before).push(c));
    }

    /// Discard the staged patch; answers how many changes were discarded.
    pub fn reset(&mut self) -> (r: usize)
        requires
            old(self).wf(),
        ensures
            final(self).wf(),
            r == old(self).staged@.len(),
            final(self).staged@.len() == 0,
            final(self).head == old(self).head,
            final(self).journal == old(self).journal,
            final(self).objects == old(self).objects,
    {
        let n = self.staged.changes.len();
        self.staged = DiffPatch::empty();
        n
    }

    /// Make `snapshot` the head: pool it and record `op` with its hash.
    fn advance(
        &mut self,
        snapshot: PlaylistSnapshot,
        op: Operation,
        counts: (usize, usize, usize),
        message: Option<String>,
        timestamp: i64,
    ) -> (r: String)
        requires
            old(self).wf(),
        ensures
            final(self).wf(),
            r@ == content_hash(snapshot@),
            final(self).head == snapshot,
            appended(old(self).journal@, final(self).journal@, op, r@, timestamp),
            last_entry(final(self).journal@).added == counts.0,
            last_entry(final(self).journal@).removed == counts.1,
            last_entry(final(self).journal@).moved == counts.2,
            last_entry(final(self).journal@).message == message,
            final(self).objects@.drop_last() == old(self).objects@,
            final(self).objects@.last().snapshot@ == snapshot@,
            final(self).staged == old(self).staged,
    {
        let hash = snapshot_hash_of(&snapshot);
        let mut entry = JournalEntry::new_at(op, hash.clone(), counts.0, counts.1, counts.2, timestamp);
        entry.message = message;
        let stored = StoredSnapshot { hash: hash.clone(), snapshot: snapshot.duplicate() };
        let ghost j0 = self.journal@;
        let ghost o0 = self.objects@;
        self.journal.push(entry);
        self.objects.push(stored);
        self.head = snapshot;
        assert(self.journal@.drop_last() =~= j0);
        assert(self.objects@.drop_last() =~= o0);
        assert forall|k: int| 0 <= k < self.objects@.len() implies stored_soundly(
            #[trigger] self.objects@[k],
        ) by {
            if k < o0.len() {
                assert(self.objects@[k] == o0[k]);
            }
        }
        hash
    }

    /// Commit the staged patch with `message`. With nothing staged nothing
    /// happens and the answer is `None`. Otherwise the head becomes the
    /// patched head, it is pooled, a `Commit` record with the patch's counts
    /// and the message is appended, the staging is cleared, and the answer
    /// is the new content hash.
    pub fn commit(&mut self, message: &str, timestamp: i64) -> (r: Option<String>)
        requires
            old(self).wf(),
        ensures
            final(self).wf(),
            old(self).staged@.len() == 0 ==> r is None && *final(self) == *old(self),
            old(self).staged@.len() > 0 ==> {
                &&& r matches Some(h) && h@ == content_hash(final(self).head@)
                &&& final(self).head@.tracks == patched(old(self).head@.tracks, old(self).staged@)
                &&& final(self).head@.id == old(self).head@.id
                &&& final(self).head@.name == old(self).head@.name
                &&& appended(
                    old(self).journal@,
                    final(self).journal@,
                    Operation::Commit,
                    content_hash(final(self).head@),
                    timestamp,
                )
                &&& counts_of(last_entry(final(self).journal@), old(self).staged@)
                &&& last_entry(final(self).journal@).message matches Some(m) && m@ == message@
                &&& final(self).objects@.drop_last() == old(self).objects@
                &&& final(self).objects@.last().snapshot@ == final(self).head@
                &&& final(self).staged@.len() == 0
            },
    {
        if self.staged.changes.len() == 0 {
            return None;
        }
        let counts = count_changes(&self.staged);
        let mut next = self.head.duplicate();
        let _ = apply_patch(&mut next, &self.staged);
        let hash = self.advance(next, Operation::Commit, counts, Some(message.to_owned()), timestamp);
        self.staged = DiffPatch::empty();
        Some(hash)
    }

    /// Apply a patch read from elsewhere, as a commit would, and record it
    /// as `Apply`; the staging is left as it is.
    pub fn apply(&mut self, patch: &DiffPatch, message: Option<String>, timestamp: i64) -> (r: String)
        requires
            old(self).wf(),
        ensures
            final(self).wf(),
            r@ == content_hash(final(self).head@),
            final(self).head@.tracks == patched(old(self).head@.tracks, patch@),
            final(self).head@.id == old(self).head@.id,
            final(self).head@.name == old(self).head@.name,
            appended(old(self).journal@, final(self).journal@, Operation::Apply, r@, timestamp),
            counts_of(last_entry(final(self).journal@), patch@),
            last_entry(final(self).journal@).message == message,
            final(self).objects@.drop_last() == old(self).objects@,
            final(self).objects@.last().snapshot@ == final(self).head@,
            final(self).staged == old(self).staged,
    {
        let counts = count_changes(patch);
        let mut next = self.head.duplicate();
        let _ = apply_patch(&mut next, patch);
        self.advance(next, Operation::Apply, counts, message, timestamp)
    }

    /// Replace the head by the remote snapshot and record `Pull` with the
    /// counts of the diff from the old head to it.
    pub fn pull(&mut self, remote: PlaylistSnapshot, timestamp: i64) -> (r: String)
        requires
            old(self).wf(),
        ensures
            final(self).wf(),
            r@ == content_hash(remote@),
            final(self).head == remote,
            appended(old(self).journal@, final(self).journal@, Operation::Pull, r@, timestamp),
            counts_of(
                last_entry(final(self).journal@),
                diff_changes(old(self).head@.tracks, remote@.tracks),
            ),
            final(self).objects@.drop_last() == old(self).objects@,
            final(self).objects@.last().snapshot@ == remote@,
            final(self).staged == old(self).staged,
    {
        let changes = diff(&self.head, &remote);
        let counts = count_changes(&changes);
        self.advance(remote, Operation::Pull, counts, None, timestamp)
    }

    /// Record that `pushed` was sent upstream; the head is unchanged.
    pub fn record_push(&mut self, pushed: &DiffPatch, timestamp: i64)
        requires
            old(self).wf(),
        ensures
            final(self).wf(),
            final(self).head == old(self).head,
            appended(
                old(self).journal@,
                final(self).journal@,
                Operation::Push,
                content_hash(old(self).head@),
                timestamp,
            ),
            counts_of(last_entry(final(self).journal@), pushed@),
            final(self).objects == old(self).objects,
            final(self).staged == old(self).staged,
    {
        let counts = count_changes(pushed);
        let hash = snapshot_hash_of(&self.head);
        let entry = JournalEntry::new_at(Operation::Push, hash, counts.0, counts.1, counts.2, timestamp);
        let ghost j0 = self.journal@;
        self.journal.push(entry);
        assert(self.journal@.drop_last() =~= j0);
    }

    /// Go back to the pooled snapshot stored under `hash`: it becomes the
    /// head, a `Revert` record naming `hash` is appended and the staging is
    /// cleared. `UnknownRevision`, with nothing changed, where no pooled
    /// snapshot has that hash.
    pub fn revert(&mut self, hash: &str, timestamp: i64) -> (r: Result<(), GritError>)
        requires
            old(self).wf(),
        ensures
            final(self).wf(),
            r is Ok <==> exists|k: int|
                0 <= k < old(self).objects@.len() && (#[trigger] old(self).objects@[k]).hash@
                    == hash@,
            r is Err ==> r == Err::<(), GritError>(GritError::UnknownRevision) && *final(self)
                == *old(self),
            r is Ok ==> {
                &&& content_hash(final(self).head@) == hash@
                &&& exists|k: int|
                    0 <= k < old(self).objects@.len() && (#[trigger] old(self).objects@[k]).hash@
                        == hash@ && final(self).head@ == old(self).objects@[k].snapshot@
                &&& appended(
                    old(self).journal@,
                    final(self).journal@,
                    Operation::Revert,
                    hash@,
                    timestamp,
                )
                &&& final(self).objects == old(self).objects
                &&& final(self).staged@.len() == 0
            },
    {
        let target = hash.to_owned();
        let mut k: usize = 0;
        while k < self.objects.len()
            invariant
                target@ == hash@,
                *self == *old(self),
                self.wf(),
                k <= self.objects@.len(),
                forall|q: int| 0 <= q < k ==> (#[trigger] self.objects@[q]).hash@ != hash@,
            decreases self.objects@.len() - k,
        {
            if self.objects[k].hash == target {
                assert(self.objects@[k as int].hash@ == hash@);
                let snapshot = self.objects[k].snapshot.duplicate();
                assert(stored_soundly(self.objects@[k as int]));
                let entry = JournalEntry::new_at(Operation::Revert, target, 0, 0, 0, timestamp);
                let ghost j0 = self.journal@;
                self.journal.push(entry);
                assert(self.journal@.drop_last() =~= j0);
                self.head = snapshot;
                self.staged = DiffPatch::empty();
                return Ok(());
            }
            k = k + 1;
        }
        Err(GritError::UnknownRevision)
    }
}

/// Whatever operation last succeeded, the head hashes to the content hash
/// that the journal's last record names.
pub proof fn head_matches_journal(h: PlaylistHistory)
    requires
        h.wf(),
    ensures
        content_hash(h.head@) == last_entry(h.journal@).snapshot_hash@,
{
}

} // verus!
