//! The diff engine and the local patch applier.

use vstd::prelude::*;
use vstd::set_lib::{lemma_int_range, lemma_len_intersect, set_int_range};
use crate::error::GritError;
use crate::types::{
    changes_view, tracks_view, DiffPatch, PlaylistSnapshot, Track, TrackChange, TrackChangeView,
    TrackView,
};

verus! {

// ---------------------------------------------------------------------------
// What applying a patch means
// ---------------------------------------------------------------------------

/// `c` removes the track at pre-state position `i`.
pub open spec fn is_removal_at(c: TrackChangeView, i: int) -> bool {
    match c {
        TrackChangeView::Removed { index, .. } => index as int == i,
        _ => false,
    }
}

/// The pre-state positions that a list of changes removes.
pub open spec fn removal_indices(cs: Seq<TrackChangeView>) -> Set<int> {
    Set::new(|i: int| exists|k: int| 0 <= k < cs.len() && #[trigger] is_removal_at(cs[k], i))
}

/// `s` without the elements at the positions in `r`, the others kept in order.
pub open spec fn without_positions<T>(s: Seq<T>, r: Set<int>) -> Seq<T>
    decreases s.len(),
{
    if s.len() == 0 {
        Seq::empty()
    } else {
        let rest = without_positions(s.drop_last(), r);
        if r.contains(s.len() - 1) {
            rest
        } else {
            rest.push(s.last())
        }
    }
}

/// Insert `t` at `index`, or append it where `index` is past the end.
pub open spec fn insert_clamped<T>(s: Seq<T>, index: usize, t: T) -> Seq<T> {
    if index as int <= s.len() {
        s.insert(index as int, t)
    } else {
        s.push(t)
    }
}

/// The additions of `cs`, performed in their order.
pub open spec fn apply_additions(s: Seq<TrackView>, cs: Seq<TrackChangeView>) -> Seq<TrackView>
    decreases cs.len(),
{
    if cs.len() == 0 {
        s
    } else {
        let before = apply_additions(s, cs.drop_last());
        match cs.last() {
            TrackChangeView::Added { track, index } => insert_clamped(before, index, track),
            _ => before,
        }
    }
}

/// Take the element at `from` out and put it back at `to`; nothing happens
/// where either position is out of range.
pub open spec fn move_within<T>(s: Seq<T>, from: usize, to: usize) -> Seq<T> {
    if (from as int) < s.len() && (to as int) < s.len() {
        s.remove(from as int).insert(to as int, s[from as int])
    } else {
        s
    }
}

/// The moves of `cs`, performed in their order.
pub open spec fn apply_moves(s: Seq<TrackView>, cs: Seq<TrackChangeView>) -> Seq<TrackView>
    decreases cs.len(),
{
    if cs.len() == 0 {
        s
    } else {
        let before = apply_moves(s, cs.drop_last());
        match cs.last() {
            TrackChangeView::Moved { from, to, .. } => move_within(before, from, to),
            _ => before,
        }
    }
}

/// The tracks after a patch: removals first (all positions of the
/// pre-state), then additions in order, then moves in order.
pub open spec fn patched(s: Seq<TrackView>, cs: Seq<TrackChangeView>) -> Seq<TrackView> {
    apply_moves(apply_additions(without_positions(s, removal_indices(cs)), cs), cs)
}

proof fn lemma_removal_indices_step(cs: Seq<TrackChangeView>, j: int, i: int)
    requires
        0 <= j < cs.len(),
    ensures
        removal_indices(cs.take(j + 1)).contains(i) == (removal_indices(cs.take(j)).contains(i)
            || is_removal_at(cs[j], i)),
{
    let a = cs.take(j + 1);
    let b = cs.take(j);
    if removal_indices(a).contains(i) {
        let k = choose|k: int| 0 <= k < a.len() && #[trigger] is_removal_at(a[k], i);
        if k < j {
            assert(is_removal_at(b[k], i));
        }
    }
    if removal_indices(b).contains(i) {
        let k = choose|k: int| 0 <= k < b.len() && #[trigger] is_removal_at(b[k], i);
        assert(is_removal_at(a[k], i));
    }
    if is_removal_at(cs[j], i) {
        assert(is_removal_at(a[j], i));
    }
}

/// The tracks of `tracks` whose positions `changes` does not remove.
fn kept_tracks(tracks: &Vec<Track>, changes: &Vec<TrackChange>) -> (r: Vec<Track>)
    ensures
        tracks_view(r@) == without_positions(
            tracks_view(tracks@),
            removal_indices(changes_view(changes@)),
        ),
{
    let ghost cv = changes_view(changes@);
    let ghost sv = tracks_view(tracks@);
    let n = tracks.len();
    let mut keep: Vec<bool> = vec![true; n];
    let mut j: usize = 0;
    while j < changes.len()
        invariant
            n == tracks@.len(),
            cv == changes_view(changes@),
            keep@.len() == n,
            j <= changes@.len(),
            forall|i: int| 0 <= i < n ==> #[trigger] keep@[i] == !removal_indices(cv.take(j as int)).contains(i),
        decreases changes@.len() - j,
    {
        match &changes[j] {
            TrackChange::Removed { index, .. } => {
                if *index < n {
                    keep[*index] = false;
                }
            },
            _ => {},
        }
        proof {
            assert forall|i: int| 0 <= i < n implies #[trigger] keep@[i] == !removal_indices(
                cv.take(j + 1),
            ).contains(i) by {
                lemma_removal_indices_step(cv, j as int, i);
            }
        }
        j = j + 1;
    }
    assert(cv.take(j as int) =~= cv);
    let ghost r = removal_indices(cv);
    let mut out: Vec<Track> = Vec::new();
    let mut i: usize = 0;
    while i < n
        invariant
            n == tracks@.len(),
            sv == tracks_view(tracks@),
            keep@.len() == n,
            i <= n,
            forall|k: int| 0 <= k < n ==> #[trigger] keep@[k] == !r.contains(k),
            tracks_view(out@) == without_positions(sv.take(i as int), r),
        decreases n - i,
    {
        let ghost before = out@;
        if keep[i] {
            out.push(tracks[i].duplicate());
            assert(tracks_view(out@) =~= tracks_view(before).push(sv[i as int]));
        }
        assert(sv.take(i + 1).drop_last() =~= sv.take(i as int));
        i = i + 1;
    }
    assert(sv.take(n as int) =~= sv);
    out
}

/// Perform the additions of `changes` on `tracks`, in order.
fn add_tracks(tracks: &mut Vec<Track>, changes: &Vec<TrackChange>)
    ensures
        tracks_view(final(tracks)@) == apply_additions(
            tracks_view(old(tracks)@),
            changes_view(changes@),
        ),
{
    let ghost cv = changes_view(changes@);
    let ghost base = tracks_view(tracks@);
    let mut j: usize = 0;
    while j < changes.len()
        invariant
            cv == changes_view(changes@),
            j <= changes@.len(),
            tracks_view(tracks@) == apply_additions(base, cv.take(j as int)),
        decreases changes@.len() - j,
    {
        assert(cv.take(j + 1).drop_last() =~= cv.take(j as int));
        let ghost before = tracks@;
        match &changes[j] {
            TrackChange::Added { track, index } => {
                let t = track.duplicate();
                if *index <= tracks.len() {
                    tracks.insert(*index, t);
                    assert(tracks_view(tracks@) =~= tracks_view(before).insert(*index as int, t@));
                } else {
                    tracks.push(t);
                    assert(tracks_view(tracks@) =~= tracks_view(before).push(t@));
                }
            },
            _ => {},
        }
        j = j + 1;
    }
    assert(cv.take(j as int) =~= cv);
}

/// Perform the moves of `changes` on `tracks`, in order.
fn move_tracks(tracks: &mut Vec<Track>, changes: &Vec<TrackChange>)
    ensures
        tracks_view(final(tracks)@) == apply_moves(tracks_view(old(tracks)@), changes_view(changes@)),
{
    let ghost cv = changes_view(changes@);
    let ghost base = tracks_view(tracks@);
    let mut j: usize = 0;
    while j < changes.len()
        invariant
            cv == changes_view(changes@),
            j <= changes@.len(),
            tracks_view(tracks@) == apply_moves(base, cv.take(j as int)),
        decreases changes@.len() - j,
    {
        assert(cv.take(j + 1).drop_last() =~= cv.take(j as int));
        let ghost before = tracks@;
        match &changes[j] {
            TrackChange::Moved { from, to, .. } => {
                if *from < tracks.len() && *to < tracks.len() {
                    let t = tracks.remove(*from);
                    tracks.insert(*to, t);
                    assert(tracks_view(tracks@) =~= tracks_view(before).remove(*from as int).insert(
                        *to as int,
                        tracks_view(before)[*from as int],
                    ));
                }
            },
            _ => {},
        }
        j = j + 1;
    }
    assert(cv.take(j as int) =~= cv);
}

/// Apply `patch` to `snapshot` in place: the removals, each at its position
/// in the pre-state (as removing them from the highest position down does),
/// then the additions in the order given (past the end they append), then
/// the moves in the order given (a move with a position out of range is
/// skipped). Only the tracks change.
pub fn apply_patch(snapshot: &mut PlaylistSnapshot, patch: &DiffPatch) -> (r: Result<(), GritError>)
    ensures
        r is Ok,
        final(snapshot)@.tracks == patched(old(snapshot)@.tracks, patch@),
        final(snapshot).id == old(snapshot).id,
        final(snapshot).name == old(snapshot).name,
        final(snapshot).description == old(snapshot).description,
        final(snapshot).provider == old(snapshot).provider,
        final(snapshot).snapshot_hash == old(snapshot).snapshot_hash,
        final(snapshot).metadata == old(snapshot).metadata,
{
    let mut tracks = kept_tracks(&snapshot.tracks, &patch.changes);
    add_tracks(&mut tracks, &patch.changes);
    move_tracks(&mut tracks, &patch.changes);
    snapshot.tracks = tracks;
    Ok(())
}


// ---------------------------------------------------------------------------
// What a diff is
// ---------------------------------------------------------------------------

/// The last position of `s` that holds a track with this id, or -1. An id
/// that occurs more than once is represented by its last occurrence.
pub open spec fn last_pos(s: Seq<TrackView>, id: Seq<char>) -> int
    decreases s.len(),
{
    if s.len() == 0 {
        -1
    } else if s.last().id == id {
        s.len() - 1
    } else {
        last_pos(s.drop_last(), id)
    }
}

/// Position `i` is the occurrence of its id that a diff takes into account.
pub open spec fn represents(s: Seq<TrackView>, i: int) -> bool {
    last_pos(s, s[i].id) == i
}

/// Removals of the first `n` positions of `old`: each represented id that
/// `new` lacks, at its old position.
pub open spec fn removed_part(old: Seq<TrackView>, new: Seq<TrackView>, n: nat) -> Seq<TrackChangeView>
    decreases n,
{
    if n == 0 {
        Seq::empty()
    } else {
        let prev = removed_part(old, new, (n - 1) as nat);
        let i = n - 1;
        if represents(old, i) && last_pos(new, old[i].id) < 0 {
            prev.push(TrackChangeView::Removed { track: old[i], index: i as usize })
        } else {
            prev
        }
    }
}

/// Additions of the first `n` positions of `new`: each represented id that
/// `old` lacks, at its new position.
pub open spec fn added_part(old: Seq<TrackView>, new: Seq<TrackView>, n: nat) -> Seq<TrackChangeView>
    decreases n,
{
    if n == 0 {
        Seq::empty()
    } else {
        let prev = added_part(old, new, (n - 1) as nat);
        let j = n - 1;
        if represents(new, j) && last_pos(old, new[j].id) < 0 {
            prev.push(TrackChangeView::Added { track: new[j], index: j as usize })
        } else {
            prev
        }
    }
}

/// Moves of the first `n` positions of `new`: each represented id that `old`
/// has at another position.
pub open spec fn moved_part(old: Seq<TrackView>, new: Seq<TrackView>, n: nat) -> Seq<TrackChangeView>
    decreases n,
{
    if n == 0 {
        Seq::empty()
    } else {
        let prev = moved_part(old, new, (n - 1) as nat);
        let j = n - 1;
        let p = last_pos(old, new[j].id);
        if represents(new, j) && p >= 0 && p != j {
            prev.push(TrackChangeView::Moved { track: new[j], from: p as usize, to: j as usize })
        } else {
            prev
        }
    }
}

/// The edit script from `old` to `new`: removals, then additions, then moves.
pub open spec fn diff_changes(old: Seq<TrackView>, new: Seq<TrackView>) -> Seq<TrackChangeView> {
    removed_part(old, new, old.len()) + added_part(old, new, new.len()) + moved_part(
        old,
        new,
        new.len(),
    )
}

/// What `last_pos` is: the last position with the id, or -1 where none has it.
pub proof fn lemma_last_pos(s: Seq<TrackView>, id: Seq<char>)
    ensures
        -1 <= last_pos(s, id) < s.len(),
        last_pos(s, id) >= 0 ==> s[last_pos(s, id)].id == id,
        forall|q: int| last_pos(s, id) < q < s.len() ==> s[q].id != id,
    decreases s.len(),
{
    if s.len() > 0 && s.last().id != id {
        lemma_last_pos(s.drop_last(), id);
        assert forall|q: int| last_pos(s, id) < q < s.len() implies s[q].id != id by {
            if q < s.len() - 1 {
                assert(s[q] == s.drop_last()[q]);
            }
        }
    }
}

/// The last position of `tracks` whose id is `id`.
fn last_position(tracks: &Vec<Track>, id: &String) -> (r: Option<usize>)
    ensures
        match r {
            Some(p) => p as int == last_pos(tracks_view(tracks@), id@),
            None => last_pos(tracks_view(tracks@), id@) == -1,
        },
{
    let ghost sv = tracks_view(tracks@);
    proof {
        lemma_last_pos(sv, id@);
    }
    let mut k: usize = tracks.len();
    while k > 0
        invariant
            k <= tracks@.len(),
            sv == tracks_view(tracks@),
            forall|q: int| k <= q < sv.len() ==> sv[q].id != id@,
        decreases k,
    {
        if tracks[k - 1].id == *id {
            proof {
                lemma_last_pos(sv, id@);
                let p = last_pos(sv, id@);
                assert(sv[k - 1].id == id@);
                if p < k - 1 {
                    assert(sv[k - 1].id != id@);
                }
                if p >= k {
                    assert(sv[p].id != id@);
                }
            }
            return Some(k - 1);
        }
        k = k - 1;
    }
    proof {
        let p = last_pos(sv, id@);
        if p >= 0 {
            assert(sv[p].id != id@);
        }
    }
    None
}

/// Compute the edit script from `old` to `new`. Each id is classified by its
/// last occurrence in each snapshot: present in `old` only, a removal at its
/// old position; in `new` only, an addition at its new position; in both at
/// different positions, a move; at the same position, nothing. The patch
/// lists the removals, then the additions, then the moves.
pub fn diff(old: &PlaylistSnapshot, new: &PlaylistSnapshot) -> (r: DiffPatch)
    ensures
        r@ == diff_changes(old@.tracks, new@.tracks),
{
    let ghost ov = old@.tracks;
    let ghost nv = new@.tracks;
    let mut changes: Vec<TrackChange> = Vec::new();
    let mut i: usize = 0;
    while i < old.tracks.len()
        invariant
            ov == tracks_view(old.tracks@),
            nv == tracks_view(new.tracks@),
            i <= ov.len(),
            changes_view(changes@) == removed_part(ov, nv, i as nat),
        decreases ov.len() - i,
    {
        let t = &old.tracks[i];
        let here = last_position(&old.tracks, &t.id);
        let there = last_position(&new.tracks, &t.id);
        let ghost before = changes@;
        if here == Some(i) && there.is_none() {
            changes.push(TrackChange::Removed { track: t.duplicate(), index: i });
            assert(changes_view(changes@) =~= changes_view(before).push(changes@.last()@));
        }
        i = i + 1;
    }
    let ghost removed = changes_view(changes@);
    let mut j: usize = 0;
    while j < new.tracks.len()
        invariant
            ov == tracks_view(old.tracks@),
            nv == tracks_view(new.tracks@),
            removed == removed_part(ov, nv, ov.len()),
            j <= nv.len(),
            changes_view(changes@) == removed + added_part(ov, nv, j as nat),
        decreases nv.len() - j,
    {
        let t = &new.tracks[j];
        let here = last_position(&new.tracks, &t.id);
        let there = last_position(&old.tracks, &t.id);
        let ghost before = changes@;
        if here == Some(j) && there.is_none() {
            changes.push(TrackChange::Added { track: t.duplicate(), index: j });
            assert(changes_view(changes@) =~= changes_view(before).push(changes@.last()@));
            assert(removed + added_part(ov, nv, (j + 1) as nat) =~= (removed + added_part(
                ov,
                nv,
                j as nat,
            )).push(changes@.last()@));
        }
        j = j + 1;
    }
    let ghost added = changes_view(changes@);
    let mut j: usize = 0;
    while j < new.tracks.len()
        invariant
            ov == tracks_view(old.tracks@),
            nv == tracks_view(new.tracks@),
            added == removed_part(ov, nv, ov.len()) + added_part(ov, nv, nv.len()),
            j <= nv.len(),
            changes_view(changes@) == added + moved_part(ov, nv, j as nat),
        decreases nv.len() - j,
    {
        let t = &new.tracks[j];
        let here = last_position(&new.tracks, &t.id);
        let there = last_position(&old.tracks, &t.id);
        let ghost before = changes@;
        if here == Some(j) {
            match there {
                Some(p) => {
                    if p != j {
                        changes.push(TrackChange::Moved { track: t.duplicate(), from: p, to: j });
                        assert(changes_view(changes@) =~= changes_view(before).push(
                            changes@.last()@,
                        ));
                        assert(added + moved_part(ov, nv, (j + 1) as nat) =~= (added + moved_part(
                            ov,
                            nv,
                            j as nat,
                        )).push(changes@.last()@));
                    }
                },
                None => {},
            }
        }
        j = j + 1;
    }
    DiffPatch { changes }
}

// ---------------------------------------------------------------------------
// Laws
// ---------------------------------------------------------------------------

proof fn lemma_diff_parts_of_itself(a: Seq<TrackView>, n: nat)
    requires
        n <= a.len(),
    ensures
        removed_part(a, a, n) == Seq::<TrackChangeView>::empty(),
        added_part(a, a, n) == Seq::<TrackChangeView>::empty(),
        moved_part(a, a, n) == Seq::<TrackChangeView>::empty(),
    decreases n,
{
    if n > 0 {
        lemma_diff_parts_of_itself(a, (n - 1) as nat);
    }
}

/// A snapshot compared with itself yields no change at all.
pub proof fn diff_of_itself_is_empty(a: PlaylistSnapshot)
    ensures
        diff_changes(a@.tracks, a@.tracks) == Seq::<TrackChangeView>::empty(),
{
    lemma_diff_parts_of_itself(a@.tracks, a@.tracks.len());
    assert(diff_changes(a@.tracks, a@.tracks) =~= Seq::<TrackChangeView>::empty());
}

/// Every change of the list is a removal.
pub open spec fn only_removals(cs: Seq<TrackChangeView>) -> bool {
    forall|k: int| 0 <= k < cs.len() ==> (#[trigger] cs[k]) is Removed
}

proof fn lemma_removals_leave_additions_and_moves(s: Seq<TrackView>, cs: Seq<TrackChangeView>)
    requires
        only_removals(cs),
    ensures
        apply_additions(s, cs) == s,
        apply_moves(s, cs) == s,
    decreases cs.len(),
{
    if cs.len() > 0 {
        let init = cs.drop_last();
        assert(only_removals(init)) by {
            assert forall|k: int| 0 <= k < init.len() implies (#[trigger] init[k]) is Removed by {
                assert(init[k] == cs[k]);
            }
        }
        assert(cs.last() == cs[cs.len() - 1]);
        lemma_removals_leave_additions_and_moves(s, init);
    }
}

/// The positions of `r` that lie in `s`.
pub open spec fn removed_in_range<T>(s: Seq<T>, r: Set<int>) -> Set<int> {
    set_int_range(0, s.len() as int).intersect(r)
}

/// Removing positions shortens the tracks by the number of distinct
/// positions removed that lie in range.
pub proof fn lemma_without_positions_len<T>(s: Seq<T>, r: Set<int>)
    ensures
        removed_in_range(s, r).finite(),
        without_positions(s, r).len() == s.len() - removed_in_range(s, r).len(),
    decreases s.len(),
{
    lemma_int_range(0, s.len() as int);
    lemma_len_intersect(set_int_range(0, s.len() as int), r);
    if s.len() > 0 {
        let init = s.drop_last();
        lemma_without_positions_len(init, r);
        let a = removed_in_range(init, r);
        let b = removed_in_range(s, r);
        let last = s.len() - 1;
        assert(!a.contains(last));
        if r.contains(last) {
            assert(b =~= a.insert(last));
        } else {
            assert(b =~= a);
        }
    } else {
        assert(removed_in_range(s, r) =~= Set::<int>::empty());
    }
}

/// A patch of removals only leaves the tracks whose positions it does not
/// name, whatever the order in which it lists them: two such patches with the
/// same changes in any order give the same tracks, and the result is shorter
/// by the number of distinct in-range positions removed.
pub proof fn removal_order_is_irrelevant(s: PlaylistSnapshot, first: DiffPatch, second: DiffPatch)
    requires
        only_removals(first@),
        first@.to_multiset() == second@.to_multiset(),
    ensures
        patched(s@.tracks, first@) == patched(s@.tracks, second@),
        patched(s@.tracks, first@) == without_positions(s@.tracks, removal_indices(first@)),
        patched(s@.tracks, first@).len() == s@.tracks.len() - removed_in_range(
            s@.tracks,
            removal_indices(first@),
        ).len(),
{
    let c1 = first@;
    let c2 = second@;
    broadcast use vstd::seq_lib::group_to_multiset_ensures;
    assert forall|x: TrackChangeView| c1.contains(x) <==> c2.contains(x) by {
        assert(c1.contains(x) <==> c1.to_multiset().count(x) > 0);
        assert(c2.contains(x) <==> c2.to_multiset().count(x) > 0);
    }
    assert(only_removals(c2)) by {
        assert forall|k: int| 0 <= k < c2.len() implies (#[trigger] c2[k]) is Removed by {
            assert(c2.contains(c2[k]));
            let k1 = choose|k1: int| 0 <= k1 < c1.len() && c1[k1] == c2[k];
            assert(c1[k1] is Removed);
        }
    }
    assert(removal_indices(c1) =~= removal_indices(c2)) by {
        assert forall|i: int| removal_indices(c1).contains(i) implies removal_indices(c2).contains(i) by {
            let k = choose|k: int| 0 <= k < c1.len() && #[trigger] is_removal_at(c1[k], i);
            assert(c2.contains(c1[k]));
            let k2 = choose|k2: int| 0 <= k2 < c2.len() && c2[k2] == c1[k];
            assert(is_removal_at(c2[k2], i));
        }
        assert forall|i: int| removal_indices(c2).contains(i) implies removal_indices(c1).contains(i) by {
            let k = choose|k: int| 0 <= k < c2.len() && #[trigger] is_removal_at(c2[k], i);
            assert(c1.contains(c2[k]));
            let k1 = choose|k1: int| 0 <= k1 < c1.len() && c1[k1] == c2[k];
            assert(is_removal_at(c1[k1], i));
        }
    }
    let kept = without_positions(s@.tracks, removal_indices(c1));
    lemma_removals_leave_additions_and_moves(kept, c1);
    lemma_removals_leave_additions_and_moves(kept, c2);
    lemma_without_positions_len(s@.tracks, removal_indices(c1));
}

} // verus!
