//! Which clips the continuous folder drops once it holds more than
//! `MAX_FILES_PER_CAMERA`: the oldest by name, except those a waiting save
//! still needs.

use vstd::prelude::*;
use vstd::relations::sorted_by;
use vstd::seq_lib::{lemma_sorted_unique, to_multiset_build, to_multiset_insert};
use crate::order::{
    lemma_text_lt_total, lemma_text_lt_transitive,
    lemma_text_order_total, text_le, text_less, text_lt, text_order,
};
use crate::recorder::{MAX_FILES_PER_CAMERA, PendingView, RecorderState};
use crate::text::str_eq;

verus! {

/// The characters of each string.
pub open spec fn names_of(s: Seq<String>) -> Seq<Seq<char>> {
    s.map_values(|x: String| x@)
}

/// `names` in ascending order.
pub open spec fn sorted_names(names: Seq<Seq<char>>) -> Seq<Seq<char>> {
    names.sort_by(text_order())
}

proof fn lemma_insert_sorted(r: Seq<Seq<char>>, p: int, x: Seq<char>)
    requires
        0 <= p <= r.len(),
        sorted_by(r, text_order()),
        forall|j: int| 0 <= j < p ==> text_le(#[trigger] r[j], x),
        p < r.len() ==> text_lt(x, r[p]),
    ensures
        sorted_by(r.insert(p, x), text_order()),
{
    let t = r.insert(p, x);
    assert forall|i: int, j: int| 0 <= i < j < t.len() implies #[trigger] text_order()(t[i], t[j]) by {
        if j < p {
            assert(t[i] == r[i] && t[j] == r[j]);
            assert(text_order()(r[i], r[j]));
        } else if j == p {
            assert(t[i] == r[i]);
        } else if i == p {
            assert(t[j] == r[j - 1]);
            assert(text_order()(r[p], r[j - 1]));
            lemma_text_lt_transitive(x, r[p], r[j - 1]);
        } else if i < p {
            assert(t[i] == r[i] && t[j] == r[j - 1]);
            assert(text_order()(r[i], r[j - 1]));
        } else {
            assert(t[i] == r[i - 1] && t[j] == r[j - 1]);
            assert(text_order()(r[i - 1], r[j - 1]));
        }
    }
}

/// `v` sorted in ascending order of names.
pub fn sort_names(v: &Vec<String>) -> (r: Vec<String>)
    ensures
        names_of(r@) == sorted_names(names_of(v@)),
{
    let mut r: Vec<String> = Vec::new();
    let mut i: usize = 0;
    proof {
        lemma_text_order_total();
    }
    assert(names_of(r@) =~= names_of(v@).take(0));
    while i < v.len()
        invariant
            i <= v.len(),
            sorted_by(names_of(r@), text_order()),
            names_of(r@).to_multiset() == names_of(v@).take(i as int).to_multiset(),
        decreases v.len() - i,
    {
        let x = v[i].clone();
        let mut p: usize = 0;
        while p < r.len() && !text_less(x.as_str(), r[p].as_str())
            invariant
                p <= r.len(),
                forall|j: int| 0 <= j < p ==> text_le(#[trigger] names_of(r@)[j], x@),
            decreases r.len() - p,
        {
            proof {
                lemma_text_lt_total(x@, r@[p as int]@);
            }
            p = p + 1;
        }
        let ghost before = names_of(r@);
        proof {
            lemma_insert_sorted(before, p as int, x@);
            to_multiset_insert(before, p as int, x@);
            to_multiset_build(names_of(v@).take(i as int), x@);
            assert(names_of(v@).take(i + 1) =~= names_of(v@).take(i as int).push(x@));
        }
        r.insert(p, x);
        assert(names_of(r@) =~= before.insert(p as int, x@));
        i = i + 1;
    }
    proof {
        assert(names_of(v@).take(v.len() as int) =~= names_of(v@));
        names_of(v@).lemma_sort_by_ensures(text_order());
        lemma_sorted_unique(names_of(r@), sorted_names(names_of(v@)), text_order());
    }
    r
}

/// Names that no waiting save holds.
pub open spec fn unprotected(protected: Seq<Seq<char>>) -> spec_fn(Seq<char>) -> bool {
    |n: Seq<char>| !protected.contains(n)
}

/// The clips to delete from a folder listing `videos` so that the newest
/// `MAX_FILES_PER_CAMERA` by name remain: the older ones in ascending
/// order, leaving out every name in `protected` (which stays on disk).
pub open spec fn spec_removal(videos: Seq<Seq<char>>, protected: Seq<Seq<char>>) -> Seq<Seq<char>> {
    let sorted = sorted_names(videos);
    if sorted.len() > MAX_FILES_PER_CAMERA {
        sorted.take(sorted.len() - MAX_FILES_PER_CAMERA).filter(unprotected(protected))
    } else {
        Seq::empty()
    }
}

/// Whether `name` occurs in `names`.
pub fn contains_name(names: &Vec<String>, name: &str) -> (r: bool)
    ensures
        r == names_of(names@).contains(name@),
{
    let mut i: usize = 0;
    while i < names.len()
        invariant
            i <= names.len(),
            forall|j: int| 0 <= j < i ==> names@[j]@ != name@,
        decreases names.len() - i,
    {
        if str_eq(names[i].as_str(), name) {
            assert(names_of(names@)[i as int] == name@);
            return true;
        }
        i = i + 1;
    }
    proof {
        if names_of(names@).contains(name@) {
            let j = choose|j: int| 0 <= j < names_of(names@).len() && names_of(names@)[j] == name@;
            assert(names@[j]@ == name@);
        }
    }
    false
}

/// The clips of the continuous folder to delete, oldest first.
pub fn files_to_remove(videos: &Vec<String>, protected: &Vec<String>) -> (r: Vec<String>)
    ensures
        names_of(r@) == spec_removal(names_of(videos@), names_of(protected@)),
{
    let sorted = sort_names(videos);
    let mut r: Vec<String> = Vec::new();
    if sorted.len() <= MAX_FILES_PER_CAMERA {
        assert(names_of(r@) =~= Seq::<Seq<char>>::empty());
        return r;
    }
    let n = sorted.len() - MAX_FILES_PER_CAMERA;
    let ghost pred = unprotected(names_of(protected@));
    let mut i: usize = 0;
    proof {
        reveal(Seq::filter);
        assert(names_of(sorted@).take(0) =~= Seq::<Seq<char>>::empty());
    }
    assert(names_of(r@) =~= names_of(sorted@).take(0).filter(pred));
    while i < n
        invariant
            n == sorted.len() - MAX_FILES_PER_CAMERA,
            i <= n,
            pred == unprotected(names_of(protected@)),
            names_of(r@) == names_of(sorted@).take(i as int).filter(pred),
        decreases n - i,
    {
        let ghost before = names_of(sorted@).take(i as int);
        assert(names_of(sorted@).take(i + 1) =~= before.push(sorted@[i as int]@));
        proof {
            before.lemma_filter_push(sorted@[i as int]@, pred);
        }
        if !contains_name(protected, sorted[i].as_str()) {
            let ghost old_r = r@;
            r.push(sorted[i].clone());
            assert(names_of(r@) =~= names_of(old_r).push(sorted@[i as int]@));
        }
        i = i + 1;
    }
    r
}

/// Every clip name that a waiting save holds, in request order.
pub open spec fn spec_protected(pending: Seq<PendingView>) -> Seq<String> {
    pending.map_values(|p: PendingView| p.clips).flatten()
}

impl RecorderState {
    /// The clips that waiting saves still need, which cleanup must keep.
    pub fn protected_files(&self) -> (r: Vec<String>)
        ensures
            r@ == spec_protected(self@.pending),
    {
        let mut r: Vec<String> = Vec::new();
        let mut i: usize = 0;
        let ghost ps = self@.pending;
        assert(ps.map_values(|p: PendingView| p.clips).take(0) =~= Seq::<Seq<String>>::empty());
        while i < self.pending_saves.len()
            invariant
                i <= self.pending_saves.len(),
                ps == self@.pending,
                r@ == ps.map_values(|p: PendingView| p.clips).take(i as int).flatten(),
            decreases self.pending_saves.len() - i,
        {
            let ghost before = ps.map_values(|p: PendingView| p.clips).take(i as int);
            let clips = &self.pending_saves[i].clips;
            assert(ps[i as int].clips == clips@);
            let mut j: usize = 0;
            let ghost start = r@;
            while j < clips.len()
                invariant
                    j <= clips.len(),
                    r@ == start + clips@.take(j as int),
                decreases clips.len() - j,
            {
                r.push(clips[j].clone());
                assert(clips@.take(j as int).push(clips@[j as int]) =~= clips@.take(j + 1));
                j = j + 1;
            }
            assert(clips@.take(clips.len() as int) =~= clips@);
            assert(ps.map_values(|p: PendingView| p.clips).take(i + 1) =~= before.push(clips@));
            proof {
                before.lemma_flatten_push(clips@);
            }
            i = i + 1;
        }
        assert(ps.map_values(|p: PendingView| p.clips).take(i as int) =~= ps.map_values(
            |p: PendingView| p.clips,
        ));
        r
    }
}

// ---------------------------------------------------------------------------
// Laws of cleanup
// ---------------------------------------------------------------------------

proof fn lemma_removal_member(videos: Seq<Seq<char>>, protected: Seq<Seq<char>>, x: Seq<char>)
    requires
        spec_removal(videos, protected).contains(x),
    ensures
        !protected.contains(x),
        sorted_names(videos).take(sorted_names(videos).len() - MAX_FILES_PER_CAMERA).contains(x),
{
    let sorted = sorted_names(videos);
    let older = sorted.take(sorted.len() - MAX_FILES_PER_CAMERA);
    let f = older.filter(unprotected(protected));
    let i = choose|i: int| 0 <= i < f.len() && f[i] == x;
    older.lemma_filter_pred(unprotected(protected), i);
    older.lemma_filter_contains_rev(unprotected(protected), x);
}

/// Cleanup never deletes a clip that a waiting save still needs.
pub proof fn cleanup_keeps_protected(videos: Seq<Seq<char>>, protected: Seq<Seq<char>>, x: Seq<char>)
    requires
        protected.contains(x),
    ensures
        !spec_removal(videos, protected).contains(x),
{
    if spec_removal(videos, protected).contains(x) {
        lemma_removal_member(videos, protected, x);
    }
}

/// Cleanup deletes only clips of the listing.
pub proof fn cleanup_removes_only_listed(videos: Seq<Seq<char>>, protected: Seq<Seq<char>>, x: Seq<char>)
    requires
        spec_removal(videos, protected).contains(x),
    ensures
        videos.contains(x),
{
    broadcast use vstd::seq_lib::group_to_multiset_ensures;

    lemma_removal_member(videos, protected, x);
    let sorted = sorted_names(videos);
    let older = sorted.take(sorted.len() - MAX_FILES_PER_CAMERA);
    let j = choose|j: int| 0 <= j < older.len() && older[j] == x;
    assert(sorted[j] == x);
    lemma_text_order_total();
    videos.lemma_sort_by_ensures(text_order());
    assert(sorted.to_multiset().count(x) > 0);
}

/// Cleanup leaves at least `MAX_FILES_PER_CAMERA` clips, and of a listing
/// without repeated names it never deletes one of the newest
/// `MAX_FILES_PER_CAMERA` by name.
pub proof fn cleanup_spares_newest(videos: Seq<Seq<char>>, protected: Seq<Seq<char>>, x: Seq<char>)
    requires
        videos.no_duplicates(),
        videos.len() > MAX_FILES_PER_CAMERA,
        sorted_names(videos).skip(videos.len() - MAX_FILES_PER_CAMERA).contains(x),
    ensures
        !spec_removal(videos, protected).contains(x),
        spec_removal(videos, protected).len() + MAX_FILES_PER_CAMERA <= videos.len(),
{
    broadcast use vstd::seq_lib::group_to_multiset_ensures;

    let sorted = sorted_names(videos);
    lemma_text_order_total();
    videos.lemma_sort_by_ensures(text_order());
    videos.lemma_multiset_has_no_duplicates();
    sorted.lemma_multiset_has_no_duplicates_conv();
    assert(sorted.to_multiset().len() == videos.to_multiset().len());
    assert(sorted.len() == videos.len());
    let older = sorted.take(sorted.len() - MAX_FILES_PER_CAMERA);
    older.lemma_filter_len(unprotected(protected));
    if spec_removal(videos, protected).contains(x) {
        lemma_removal_member(videos, protected, x);
        let j = choose|j: int| 0 <= j < older.len() && older[j] == x;
        let newer = sorted.skip(videos.len() - MAX_FILES_PER_CAMERA);
        let k = choose|k: int| 0 <= k < newer.len() && newer[k] == x;
        assert(sorted[j] == sorted[k + videos.len() - MAX_FILES_PER_CAMERA]);
    }
}

/// Every clip cleanup deletes comes, in name order, no later than every
/// clip among the newest `MAX_FILES_PER_CAMERA` that it keeps; with
/// `text_lt_compares_first_difference` this is plain code-point order, the
/// order of `String`.
pub proof fn cleanup_removes_older_than_kept(
    videos: Seq<Seq<char>>,
    protected: Seq<Seq<char>>,
    x: Seq<char>,
    y: Seq<char>,
)
    requires
        spec_removal(videos, protected).contains(x),
        sorted_names(videos).skip(sorted_names(videos).len() - MAX_FILES_PER_CAMERA).contains(y),
    ensures
        x == y || text_lt(x, y),
{
    lemma_removal_member(videos, protected, x);
    let sorted = sorted_names(videos);
    let n = sorted.len() - MAX_FILES_PER_CAMERA;
    lemma_text_order_total();
    videos.lemma_sort_by_ensures(text_order());
    let older = sorted.take(n);
    let newer = sorted.skip(n);
    let j = choose|j: int| 0 <= j < older.len() && older[j] == x;
    let k = choose|k: int| 0 <= k < newer.len() && newer[k] == y;
    assert(sorted[j] == x);
    assert(sorted[k + n] == y);
    assert(text_order()(sorted[j], sorted[k + n]));
}

/// A folder of more than five clips, none protected, is cut down to exactly
/// its five newest: cleanup deletes all the others.
pub proof fn cleanup_leaves_five(videos: Seq<Seq<char>>)
    requires
        videos.len() > 5,
    ensures
        spec_removal(videos, Seq::empty()).len() == videos.len() - 5,
        spec_removal(videos, Seq::empty()) == sorted_names(videos).take(videos.len() - 5),
{
    broadcast use vstd::seq_lib::group_to_multiset_ensures;

    let sorted = sorted_names(videos);
    lemma_text_order_total();
    videos.lemma_sort_by_ensures(text_order());
    assert(sorted.to_multiset().len() == videos.to_multiset().len());
    let older = sorted.take(sorted.len() - MAX_FILES_PER_CAMERA);
    let pred = unprotected(Seq::<Seq<char>>::empty());
    assert forall|i: int| 0 <= i < older.len() implies pred(#[trigger] older[i]) by {}
    crate::recorder::lemma_filter_keeps_all(older, pred);
}

/// The clips cleanup must keep are exactly those that some waiting save
/// holds.
pub proof fn protected_are_waiting_clips(pending: Seq<PendingView>, x: String)
    ensures
        spec_protected(pending).contains(x) <==> exists|i: int|
            0 <= i < pending.len() && (#[trigger] pending[i]).clips.contains(x),
    decreases pending.len(),
{
    if pending.len() > 0 {
        let m = pending.map_values(|p: PendingView| p.clips);
        let rest = pending.drop_first();
        assert(m.drop_first() =~= rest.map_values(|p: PendingView| p.clips));
        protected_are_waiting_clips(rest, x);
        let f = spec_protected(pending);
        assert(f == m[0] + spec_protected(rest));
        if spec_protected(pending).contains(x) {
            let k = choose|k: int| 0 <= k < f.len() && f[k] == x;
            if k < m[0].len() {
                assert(pending[0].clips[k] == x);
                assert(pending[0].clips.contains(x));
            } else {
                assert(spec_protected(rest)[k - m[0].len()] == x);
                let i = choose|i: int| 0 <= i < rest.len() && (#[trigger] rest[i]).clips.contains(x);
                assert(pending[i + 1] == rest[i]);
            }
        }
        if exists|i: int| 0 <= i < pending.len() && (#[trigger] pending[i]).clips.contains(x) {
            let i = choose|i: int| 0 <= i < pending.len() && (#[trigger] pending[i]).clips.contains(x);
            if i == 0 {
                let k = choose|k: int| 0 <= k < pending[0].clips.len() && pending[0].clips[k] == x;
                assert(f[k] == x);
            } else {
                assert(rest[i - 1] == pending[i]);
                assert(spec_protected(rest).contains(x));
                let k = choose|k: int| 0 <= k < spec_protected(rest).len() && spec_protected(rest)[k] == x;
                assert(f[k + m[0].len()] == x);
            }
        }
    } else {
        assert(spec_protected(pending) =~= Seq::<String>::empty());
    }
}

} // verus!
