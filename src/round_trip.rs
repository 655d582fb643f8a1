//! When applying a diff reproduces its target.
//!
//! The applier performs moves after removals and additions, while the diff
//! records each move with its position in the old snapshot; once removals or
//! additions shift positions, replaying the diff generally does not
//! reproduce the new snapshot (`[x, y]` to `[y, x]` replays to `[x, y]`).
//! What is proved here is the round trip for snapshots without repeated ids
//! in which every shared id keeps its position and its track.

use vstd::prelude::*;
use crate::diff::{
    added_part, apply_additions, apply_moves, diff_changes, is_removal_at, last_pos,
    lemma_last_pos, moved_part, patched, removal_indices, removed_part, without_positions,
};
use crate::types::{PlaylistSnapshot, TrackChangeView, TrackView};

verus! {

/// No id occurs twice.
pub open spec fn no_repeated_ids(s: Seq<TrackView>) -> bool {
    forall|i: int, j: int| 0 <= i < j < s.len() ==> s[i].id != s[j].id
}

/// Every track of `a` whose id `b` also holds sits in `b` at the same
/// position, as the same track.
pub open spec fn shared_tracks_in_place(a: Seq<TrackView>, b: Seq<TrackView>) -> bool {
    forall|i: int|
        0 <= i < a.len() && last_pos(b, #[trigger] a[i].id) >= 0 ==> i < b.len() && b[i] == a[i]
}

proof fn lemma_unique_pos(s: Seq<TrackView>, i: int)
    requires
        no_repeated_ids(s),
        0 <= i < s.len(),
    ensures
        last_pos(s, s[i].id) == i,
{
    lemma_last_pos(s, s[i].id);
    let p = last_pos(s, s[i].id);
    if p < i {
        assert(s[i].id != s[i].id);
    }
    if p > i {
        assert(s[i].id != s[p].id);
    }
}

proof fn lemma_absent(s: Seq<TrackView>, id: Seq<char>, i: int)
    requires
        0 <= i < s.len(),
        s[i].id == id,
    ensures
        last_pos(s, id) >= 0,
{
    lemma_last_pos(s, id);
}

/// Under the round-trip conditions, a track of `b` whose id `a` holds sits
/// in `a` at its own position.
proof fn lemma_shared_from_b(a: Seq<TrackView>, b: Seq<TrackView>, j: int)
    requires
        no_repeated_ids(a),
        no_repeated_ids(b),
        shared_tracks_in_place(a, b),
        0 <= j < b.len(),
        last_pos(a, b[j].id) >= 0,
    ensures
        last_pos(a, b[j].id) == j,
        j < a.len(),
        a[j] == b[j],
{
    lemma_last_pos(a, b[j].id);
    let p = last_pos(a, b[j].id);
    lemma_unique_pos(b, j);
    assert(last_pos(b, a[p].id) >= 0);
    assert(p < b.len() && b[p] == a[p]);
    if p != j {
        if p < j {
            assert(b[p].id != b[j].id);
        } else {
            assert(b[j].id != b[p].id);
        }
    }
}

proof fn lemma_moved_part_empty(a: Seq<TrackView>, b: Seq<TrackView>, n: nat)
    requires
        no_repeated_ids(a),
        no_repeated_ids(b),
        shared_tracks_in_place(a, b),
        n <= b.len(),
    ensures
        moved_part(a, b, n) == Seq::<TrackChangeView>::empty(),
    decreases n,
{
    if n > 0 {
        lemma_moved_part_empty(a, b, (n - 1) as nat);
        let j = n - 1;
        if last_pos(a, b[j].id) >= 0 {
            lemma_shared_from_b(a, b, j);
        }
    }
}

/// Positions of `a` whose id `b` lacks.
pub open spec fn dropped_from(a: Seq<TrackView>, b: Seq<TrackView>) -> Set<int> {
    Set::new(|i: int| 0 <= i < a.len() && last_pos(b, a[i].id) < 0)
}

proof fn lemma_removals_of_removed_part(a: Seq<TrackView>, b: Seq<TrackView>, n: nat, i: int)
    requires
        no_repeated_ids(a),
        n <= a.len(),
        a.len() <= usize::MAX,
    ensures
        removal_indices(removed_part(a, b, n)).contains(i) <==> (0 <= i < n && last_pos(b, a[i].id)
            < 0),
    decreases n,
{
    let cs = removed_part(a, b, n);
    if n > 0 {
        lemma_removals_of_removed_part(a, b, (n - 1) as nat, i);
        let prev = removed_part(a, b, (n - 1) as nat);
        let k = n - 1;
        lemma_unique_pos(a, k);
        if removal_indices(cs).contains(i) {
            let q = choose|q: int| 0 <= q < cs.len() && #[trigger] is_removal_at(cs[q], i);
            if q < prev.len() {
                assert(cs[q] == prev[q]);
                assert(removal_indices(prev).contains(i));
            }
        }
        if 0 <= i < n && last_pos(b, a[i].id) < 0 {
            if i < k {
                assert(removal_indices(prev).contains(i));
                let q = choose|q: int| 0 <= q < prev.len() && #[trigger] is_removal_at(prev[q], i);
                assert(cs[q] == prev[q]);
                assert(is_removal_at(cs[q], i));
            } else {
                assert(is_removal_at(cs[cs.len() - 1], i));
            }
        }
    } else {
        if removal_indices(cs).contains(i) {
            let q = choose|q: int| 0 <= q < cs.len() && #[trigger] is_removal_at(cs[q], i);
        }
    }
}

proof fn lemma_added_part_has_no_removal(a: Seq<TrackView>, b: Seq<TrackView>, n: nat, q: int, i: int)
    requires
        0 <= q < added_part(a, b, n).len(),
        n <= b.len(),
    ensures
        !is_removal_at(added_part(a, b, n)[q], i),
    decreases n,
{
    if n > 0 {
        let prev = added_part(a, b, (n - 1) as nat);
        if q < prev.len() {
            lemma_added_part_has_no_removal(a, b, (n - 1) as nat, q, i);
            assert(added_part(a, b, n)[q] == prev[q]);
        }
    }
}

proof fn lemma_removal_set(a: Seq<TrackView>, b: Seq<TrackView>)
    requires
        a.len() <= usize::MAX,
        no_repeated_ids(a),
        no_repeated_ids(b),
        shared_tracks_in_place(a, b),
    ensures
        removal_indices(diff_changes(a, b)) == dropped_from(a, b),
{
    let r = removed_part(a, b, a.len());
    let ad = added_part(a, b, b.len());
    lemma_moved_part_empty(a, b, b.len());
    let cs = diff_changes(a, b);
    assert(cs =~= r + ad);
    assert forall|i: int| removal_indices(cs).contains(i) <==> dropped_from(a, b).contains(i) by {
        lemma_removals_of_removed_part(a, b, a.len(), i);
        if removal_indices(cs).contains(i) {
            let q = choose|q: int| 0 <= q < cs.len() && #[trigger] is_removal_at(cs[q], i);
            if q >= r.len() {
                lemma_added_part_has_no_removal(a, b, b.len(), q - r.len(), i);
                assert(cs[q] == ad[q - r.len()]);
            } else {
                assert(cs[q] == r[q]);
                assert(removal_indices(r).contains(i));
            }
        }
        if removal_indices(r).contains(i) {
            let q = choose|q: int| 0 <= q < r.len() && #[trigger] is_removal_at(r[q], i);
            assert(cs[q] == r[q]);
            assert(is_removal_at(cs[q], i));
        }
    }
    assert(removal_indices(cs) =~= dropped_from(a, b));
}

/// The first `m` elements of `s`, or all of them.
pub open spec fn prefix<T>(s: Seq<T>, m: int) -> Seq<T> {
    if m < s.len() {
        s.take(m)
    } else {
        s
    }
}

proof fn lemma_without_prefix_step<T>(s: Seq<T>, r: Set<int>, m: int)
    requires
        0 <= m,
    ensures
        m < s.len() ==> without_positions(prefix(s, m + 1), r) == if r.contains(m) {
            without_positions(prefix(s, m), r)
        } else {
            without_positions(prefix(s, m), r).push(s[m])
        },
        m >= s.len() ==> prefix(s, m + 1) == prefix(s, m),
{
    if m < s.len() {
        let t = s.take(m + 1);
        assert(t.drop_last() =~= s.take(m));
    }
}

/// Dropping from `a` the ids that `b` lacks, and from `b` those that `a`
/// lacks, leaves the same tracks.
proof fn lemma_same_shared_tracks(a: Seq<TrackView>, b: Seq<TrackView>, m: nat)
    requires
        no_repeated_ids(a),
        no_repeated_ids(b),
        shared_tracks_in_place(a, b),
    ensures
        without_positions(prefix(a, m as int), dropped_from(a, b)) == without_positions(
            prefix(b, m as int),
            dropped_from(b, a),
        ),
    decreases m,
{
    let ra = dropped_from(a, b);
    let rb = dropped_from(b, a);
    if m == 0 {
        assert(prefix(a, 0) =~= Seq::<TrackView>::empty());
        assert(prefix(b, 0) =~= Seq::<TrackView>::empty());
    } else {
        let k = m - 1;
        lemma_same_shared_tracks(a, b, (m - 1) as nat);
        lemma_without_prefix_step(a, ra, k);
        lemma_without_prefix_step(b, rb, k);
        if k < a.len() && last_pos(b, a[k].id) >= 0 {
            assert(k < b.len() && b[k] == a[k]);
            lemma_unique_pos(a, k);
            assert(!ra.contains(k));
            assert(!rb.contains(k));
        } else if k < a.len() {
            assert(ra.contains(k));
            if k < b.len() && last_pos(a, b[k].id) >= 0 {
                lemma_shared_from_b(a, b, k);
                lemma_unique_pos(b, k);
            }
        } else if k < b.len() {
            if last_pos(a, b[k].id) >= 0 {
                lemma_shared_from_b(a, b, k);
            }
            assert(rb.contains(k));
        }
    }
}

proof fn lemma_without_nothing<T>(s: Seq<T>, r: Set<int>)
    requires
        forall|i: int| 0 <= i < s.len() ==> !r.contains(i),
    ensures
        without_positions(s, r) == s,
    decreases s.len(),
{
    if s.len() > 0 {
        lemma_without_nothing(s.drop_last(), r);
        assert(s.drop_last().push(s.last()) =~= s);
    }
}

proof fn lemma_without_len_from<T>(s: Seq<T>, r: Set<int>, j: int)
    requires
        forall|i: int| #[trigger] r.contains(i) ==> i >= j,
    ensures
        without_positions(s, r).len() >= if j < s.len() { j } else { s.len() as int },
    decreases s.len(),
{
    if s.len() > 0 {
        lemma_without_len_from(s.drop_last(), r, j);
    }
}

/// Putting back the first removed position, when none before it is removed.
proof fn lemma_put_back<T>(s: Seq<T>, r: Set<int>, j: int)
    requires
        forall|i: int| #[trigger] r.contains(i) ==> i >= j,
        r.contains(j),
        0 <= j < s.len(),
    ensures
        j <= without_positions(s, r).len(),
        without_positions(s, r.remove(j)) == without_positions(s, r).insert(j, s[j]),
    decreases s.len(),
{
    let t = s.drop_last();
    let r2 = r.remove(j);
    lemma_without_len_from(s, r, j);
    if s.len() - 1 == j {
        lemma_without_nothing(t, r);
        lemma_without_nothing(t, r2);
        assert(t.insert(j, s[j]) =~= t.push(s[j]));
    } else {
        lemma_put_back(t, r, j);
        lemma_without_len_from(t, r, j);
        assert(t[j] == s[j]);
        let w = without_positions(t, r);
        if r.contains(s.len() - 1) {
        } else {
            assert(w.insert(j, s[j]).push(s.last()) =~= w.push(s.last()).insert(j, s[j]));
        }
    }
}

/// The positions of `b` that `a` lacks, from `j` on.
pub open spec fn new_from(a: Seq<TrackView>, b: Seq<TrackView>, j: int) -> Set<int> {
    Set::new(|i: int| j <= i < b.len() && last_pos(a, b[i].id) < 0)
}

proof fn lemma_additions_restore(a: Seq<TrackView>, b: Seq<TrackView>, n: nat)
    requires
        no_repeated_ids(b),
        n <= b.len(),
        b.len() <= usize::MAX,
    ensures
        apply_additions(without_positions(b, new_from(a, b, 0)), added_part(a, b, n))
            == without_positions(b, new_from(a, b, n as int)),
    decreases n,
{
    let base = without_positions(b, new_from(a, b, 0));
    if n > 0 {
        let j = n - 1;
        lemma_additions_restore(a, b, (n - 1) as nat);
        lemma_unique_pos(b, j);
        let r = new_from(a, b, j);
        if last_pos(a, b[j].id) < 0 {
            let ad = added_part(a, b, n);
            assert(ad.drop_last() == added_part(a, b, (n - 1) as nat));
            lemma_put_back(b, r, j);
            assert(r.remove(j) =~= new_from(a, b, n as int));
        } else {
            assert(new_from(a, b, j) =~= new_from(a, b, n as int));
        }
    }
}

proof fn lemma_additions_concat(s: Seq<TrackView>, x: Seq<TrackChangeView>, y: Seq<TrackChangeView>)
    ensures
        apply_additions(s, x + y) == apply_additions(apply_additions(s, x), y),
    decreases y.len(),
{
    if y.len() > 0 {
        lemma_additions_concat(s, x, y.drop_last());
        assert((x + y).drop_last() =~= x + y.drop_last());
    } else {
        assert(x + y =~= x);
    }
}

proof fn lemma_removed_part_only_removals(a: Seq<TrackView>, b: Seq<TrackView>, n: nat)
    requires
        n <= a.len(),
    ensures
        forall|k: int|
            0 <= k < removed_part(a, b, n).len() ==> (#[trigger] removed_part(a, b, n)[k]) is Removed,
    decreases n,
{
    if n > 0 {
        lemma_removed_part_only_removals(a, b, (n - 1) as nat);
        let prev = removed_part(a, b, (n - 1) as nat);
        assert forall|k: int| 0 <= k < prev.len() implies removed_part(a, b, n)[k] == prev[k] by {}
    }
}

proof fn lemma_added_part_only_additions(a: Seq<TrackView>, b: Seq<TrackView>, n: nat)
    requires
        n <= b.len(),
    ensures
        forall|k: int|
            0 <= k < added_part(a, b, n).len() ==> (#[trigger] added_part(a, b, n)[k]) is Added,
    decreases n,
{
    if n > 0 {
        lemma_added_part_only_additions(a, b, (n - 1) as nat);
        let prev = added_part(a, b, (n - 1) as nat);
        assert forall|k: int| 0 <= k < prev.len() implies added_part(a, b, n)[k] == prev[k] by {}
    }
}

proof fn lemma_no_additions(s: Seq<TrackView>, cs: Seq<TrackChangeView>)
    requires
        forall|k: int| 0 <= k < cs.len() ==> (#[trigger] cs[k]) is Removed,
    ensures
        apply_additions(s, cs) == s,
    decreases cs.len(),
{
    if cs.len() > 0 {
        assert forall|k: int| 0 <= k < cs.drop_last().len() implies (#[trigger] cs.drop_last()[k]) is Removed by {
            assert(cs.drop_last()[k] == cs[k]);
        }
        lemma_no_additions(s, cs.drop_last());
        assert(cs.last() == cs[cs.len() - 1]);
    }
}

proof fn lemma_no_moves(s: Seq<TrackView>, cs: Seq<TrackChangeView>)
    requires
        forall|k: int| 0 <= k < cs.len() ==> !((#[trigger] cs[k]) is Moved),
    ensures
        apply_moves(s, cs) == s,
    decreases cs.len(),
{
    if cs.len() > 0 {
        assert forall|k: int| 0 <= k < cs.drop_last().len() implies !((#[trigger] cs.drop_last()[k]) is Moved) by {
            assert(cs.drop_last()[k] == cs[k]);
        }
        lemma_no_moves(s, cs.drop_last());
        assert(cs.last() == cs[cs.len() - 1]);
    }
}

/// For snapshots in which no id repeats and every id that both hold keeps
/// its position and its track, applying the diff from the first to the
/// second yields the second's tracks.
pub proof fn round_trip_when_shared_tracks_stay(a: PlaylistSnapshot, b: PlaylistSnapshot)
    requires
        a@.tracks.len() <= usize::MAX,
        b@.tracks.len() <= usize::MAX,
        no_repeated_ids(a@.tracks),
        no_repeated_ids(b@.tracks),
        shared_tracks_in_place(a@.tracks, b@.tracks),
    ensures
        patched(a@.tracks, diff_changes(a@.tracks, b@.tracks)) == b@.tracks,
{
    let av = a@.tracks;
    let bv = b@.tracks;
    let r = removed_part(av, bv, av.len());
    let ad = added_part(av, bv, bv.len());
    let cs = diff_changes(av, bv);
    lemma_moved_part_empty(av, bv, bv.len());
    assert(cs =~= r + ad);
    lemma_removal_set(av, bv);
    let l = if av.len() < bv.len() { bv.len() } else { av.len() };
    lemma_same_shared_tracks(av, bv, l);
    assert(prefix(av, l as int) == av);
    assert(prefix(bv, l as int) == bv);
    assert(dropped_from(bv, av) =~= new_from(av, bv, 0));
    let kept = without_positions(av, dropped_from(av, bv));
    lemma_additions_concat(kept, r, ad);
    lemma_removed_part_only_removals(av, bv, av.len());
    lemma_no_additions(kept, r);
    lemma_additions_restore(av, bv, bv.len());
    lemma_without_nothing(bv, new_from(av, bv, bv.len() as int));
    lemma_added_part_only_additions(av, bv, bv.len());
    assert forall|k: int| 0 <= k < cs.len() implies !((#[trigger] cs[k]) is Moved) by {
        if k < r.len() {
            assert(cs[k] == r[k]);
        } else {
            assert(cs[k] == ad[k - r.len()]);
        }
    }
    lemma_no_moves(bv, cs);
}

} // verus!
