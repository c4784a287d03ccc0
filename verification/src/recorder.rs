//! Per-camera bookkeeping: the most recent clips, the saves that are still
//! waiting for clips recorded after their request, and which old clips the
//! continuous folder may drop.

use vstd::prelude::*;
use std::collections::VecDeque;

verus! {

/// How many clips a camera keeps in its continuous folder.
pub const MAX_FILES_PER_CAMERA: usize = 5;
/// Length of one clip in seconds, as ffmpeg's `-t` takes it.
pub const CLIP_SECONDS: &'static str = "5";
/// How many clips recorded before a save request the save keeps.
pub const BEFORE_CLIPS: usize = 1;
/// How many clips recorded after a save request the save waits for.
pub const AFTER_CLIPS: usize = 1;

/// A requested save of clips into an event or manual folder.
#[derive(Debug)]
pub struct PendingSave {
    pub event_id: String,
    pub label: String,
    pub target: String,
    pub clips: Vec<String>,
    pub after_count: usize,
}

/// What a pending save holds.
pub struct PendingView {
    pub event_id: Seq<char>,
    pub label: Seq<char>,
    pub target: Seq<char>,
    pub clips: Seq<String>,
    pub after_count: nat,
}

impl View for PendingSave {
    type V = PendingView;

    open spec fn view(&self) -> PendingView {
        PendingView {
            event_id: self.event_id@,
            label: self.label@,
            target: self.target@,
            clips: self.clips@,
            after_count: self.after_count as nat,
        }
    }
}

/// The recording state of one camera.
#[derive(Debug)]
pub struct RecorderState {
    pub recent_videos: VecDeque<String>,
    pub pending_saves: Vec<PendingSave>,
}

/// What a recording state holds.
pub struct RecorderView {
    pub recent: Seq<String>,
    pub pending: Seq<PendingView>,
}

pub open spec fn pending_views(ps: Seq<PendingSave>) -> Seq<PendingView> {
    ps.map_values(|p: PendingSave| p@)
}

impl View for RecorderState {
    type V = RecorderView;

    open spec fn view(&self) -> RecorderView {
        RecorderView { recent: self.recent_videos@, pending: pending_views(self.pending_saves@) }
    }
}

impl RecorderView {
    /// The state the recorder keeps: no more recent clips than a save
    /// takes from before its request, and every waiting save still waits
    /// for at least one and at most `AFTER_CLIPS` clips.
    pub open spec fn wf(self) -> bool {
        &&& self.recent.len() <= BEFORE_CLIPS
        &&& forall|i: int|
            0 <= i < self.pending.len() ==> 1 <= #[trigger] self.pending[i].after_count <= AFTER_CLIPS
    }
}

/// A save requested now: it holds the recent clips and waits for
/// `AFTER_CLIPS` more.
pub open spec fn new_pending(recent: Seq<String>, event_id: Seq<char>, label: Seq<char>, target: Seq<char>) -> PendingView {
    PendingView { event_id, label, target, clips: recent, after_count: AFTER_CLIPS as nat }
}

/// The state after a save request.
pub open spec fn spec_request(s: RecorderView, event_id: Seq<char>, label: Seq<char>, target: Seq<char>) -> RecorderView {
    RecorderView {
        recent: s.recent,
        pending: s.pending.push(new_pending(s.recent, event_id, label, target)),
    }
}

/// A waiting save after one more clip: the clip is added and the save
/// waits for one clip fewer.
pub open spec fn advance(p: PendingView, video: String) -> PendingView {
    PendingView {
        clips: p.clips.push(video),
        after_count: if p.after_count > 0 { (p.after_count - 1) as nat } else { 0 },
        ..p
    }
}

pub open spec fn advance_all(ps: Seq<PendingView>, video: String) -> Seq<PendingView> {
    ps.map_values(|p: PendingView| advance(p, video))
}

pub open spec fn is_done() -> spec_fn(PendingView) -> bool {
    |p: PendingView| p.after_count == 0
}

pub open spec fn is_waiting() -> spec_fn(PendingView) -> bool {
    |p: PendingView| p.after_count != 0
}

/// The saves that a new clip completes, in request order.
pub open spec fn completed(ps: Seq<PendingView>, video: String) -> Seq<PendingView> {
    advance_all(ps, video).filter(is_done())
}

/// The saves that still wait after a new clip, in request order.
pub open spec fn still_waiting(ps: Seq<PendingView>, video: String) -> Seq<PendingView> {
    advance_all(ps, video).filter(is_waiting())
}

/// The last `BEFORE_CLIPS` of `s` (all of it when shorter).
pub open spec fn recent_window(s: Seq<String>) -> Seq<String> {
    if s.len() > BEFORE_CLIPS {
        s.skip(s.len() - BEFORE_CLIPS)
    } else {
        s
    }
}

/// The state after a clip `video` has been recorded.
pub open spec fn spec_complete(s: RecorderView, video: String) -> RecorderView {
    RecorderView { recent: recent_window(s.recent.push(video)), pending: still_waiting(s.pending, video) }
}

impl RecorderState {
    /// A camera that has recorded nothing and has no save waiting.
    pub fn new() -> (s: Self)
        ensures
            s@.recent == Seq::<String>::empty(),
            s@.pending == Seq::<PendingView>::empty(),
            s@.wf(),
    {
        let s = RecorderState { recent_videos: VecDeque::new(), pending_saves: Vec::new() };
        assert(s@.pending =~= Seq::<PendingView>::empty());
        s
    }

    /// Requests a save of the recent clips and of the next `AFTER_CLIPS`
    /// clips into `target`, under `event_id`.
    pub fn add_pending_save(&mut self, event_id: &str, label: &str, target: &str)
        ensures
            final(self)@ == spec_request(old(self)@, event_id@, label@, target@),
            old(self)@.wf() ==> final(self)@.wf(),
    {
        let mut clips: Vec<String> = Vec::new();
        let mut i: usize = 0;
        while i < self.recent_videos.len()
            invariant
                i <= self.recent_videos@.len(),
                clips@ == self.recent_videos@.take(i as int),
            decreases self.recent_videos@.len() - i,
        {
            clips.push(self.recent_videos[i].clone());
            assert(self.recent_videos@.take(i as int).push(self.recent_videos@[i as int])
                =~= self.recent_videos@.take(i + 1));
            i = i + 1;
        }
        assert(self.recent_videos@.take(i as int) =~= self.recent_videos@);
        let pending = PendingSave {
            event_id: crate::text::owned(event_id),
            label: crate::text::owned(label),
            target: crate::text::owned(target),
            clips,
            after_count: AFTER_CLIPS,
        };
        let ghost before = self.pending_saves@;
        self.pending_saves.push(pending);
        assert(pending_views(self.pending_saves@) =~= pending_views(before).push(pending@));
    }

    /// Records that the clip `video` is finished: every waiting save takes
    /// it and waits for one clip fewer; the saves that need nothing more are
    /// taken out and returned in request order; the clip joins the recent
    /// clips, of which the last `BEFORE_CLIPS` stay.
    pub fn complete_clip(&mut self, video: String) -> (done: Vec<PendingSave>)
        ensures
            pending_views(done@) == completed(old(self)@.pending, video),
            final(self)@ == spec_complete(old(self)@, video),
            old(self)@.wf() ==> final(self)@.wf(),
    {
        let mut old_pending: Vec<PendingSave> = Vec::new();
        std::mem::swap(&mut old_pending, &mut self.pending_saves);
        let ghost olds = pending_views(old_pending@);
        let mut done: Vec<PendingSave> = Vec::new();
        let mut waiting: Vec<PendingSave> = Vec::new();
        for p in it: old_pending.into_iter()
            invariant
                it.seq() == old_pending@,
                olds == pending_views(old_pending@),
                pending_views(done@) == advance_all(olds.take(it.index() as int), video).filter(is_done()),
                pending_views(waiting@) == advance_all(olds.take(it.index() as int), video).filter(is_waiting()),
        {
            let ghost k = it.index() as int;
            let ghost before = advance_all(olds.take(k), video);
            let mut p = p;
            let ghost p0 = p@;
            assert(p0 == olds[k]);
            p.clips.push(video.clone());
            if p.after_count > 0 {
                p.after_count = p.after_count - 1;
            }
            assert(p@ == advance(p0, video));
            assert(advance_all(olds.take(k + 1), video) =~= before.push(p@));
            proof {
                before.lemma_filter_push(p@, is_done());
                before.lemma_filter_push(p@, is_waiting());
            }
            if p.after_count == 0 {
                let ghost d = done@;
                done.push(p);
                assert(pending_views(done@) =~= pending_views(d).push(done@.last()@));
            } else {
                let ghost w = waiting@;
                waiting.push(p);
                assert(pending_views(waiting@) =~= pending_views(w).push(waiting@.last()@));
            }
        }
        assert(olds.take(olds.len() as int) =~= olds);
        assert(olds == old(self)@.pending);
        assert(pending_views(waiting@) == still_waiting(olds, video));
        assert(pending_views(done@) == completed(olds, video));
        self.pending_saves = waiting;
        let ghost full = old(self)@.recent.push(video);
        self.recent_videos.push_back(video);
        let ghost kept = self.pending_saves@;
        let ghost mut k: int = 0;
        assert(full.skip(0) =~= full);
        while self.recent_videos.len() > BEFORE_CLIPS
            invariant
                self.recent_videos@ == full.skip(k),
                self.pending_saves@ == kept,
                0 <= k <= full.len(),
                k > 0 ==> full.len() - k >= BEFORE_CLIPS,
            decreases self.recent_videos@.len(),
        {
            self.recent_videos.pop_front();
            assert(full.skip(k).drop_first() =~= full.skip(k + 1));
            proof {
                k = k + 1;
            }
        }
        assert(olds.take(olds.len() as int) =~= olds);
        proof {
            if old(self)@.wf() {
                let a = advance_all(olds, video);
                assert forall|i: int| 0 <= i < self@.pending.len()
                    implies 1 <= #[trigger] self@.pending[i].after_count <= AFTER_CLIPS by {
                    let f = a.filter(is_waiting());
                    assert(self@.pending == f);
                    a.lemma_filter_pred(is_waiting(), i);
                    assert(f.contains(f[i]));
                    a.lemma_filter_contains_rev(is_waiting(), f[i]);
                    let j = choose|j: int| 0 <= j < a.len() && a[j] == f[i];
                    assert(a[j] == advance(olds[j], video));
                    assert(olds[j] == old(self)@.pending[j]);
                    assert(1 <= old(self)@.pending[j].after_count <= AFTER_CLIPS);
                }
            }
            if k == 0 {
                assert(self.recent_videos@ =~= recent_window(full));
            } else {
                assert(self.recent_videos@ =~= recent_window(full));
            }
        }
        done
    }
}

impl Default for RecorderState {
    /// A camera that has recorded nothing and has no save waiting.
    fn default() -> (s: Self)
        ensures
            s@.recent == Seq::<String>::empty(),
            s@.pending == Seq::<PendingView>::empty(),
    {
        RecorderState::new()
    }
}

// ---------------------------------------------------------------------------
// Laws of the bookkeeping
// ---------------------------------------------------------------------------

pub proof fn lemma_filter_keeps_all<A>(s: Seq<A>, p: spec_fn(A) -> bool)
    requires
        forall|i: int| 0 <= i < s.len() ==> p(#[trigger] s[i]),
    ensures
        s.filter(p) == s,
    decreases s.len(),
{
    reveal(Seq::filter);
    if s.len() > 0 {
        lemma_filter_keeps_all(s.drop_last(), p);
        assert(s.drop_last().push(s.last()) =~= s);
    }
}

pub proof fn lemma_filter_drops_all<A>(s: Seq<A>, p: spec_fn(A) -> bool)
    requires
        forall|i: int| 0 <= i < s.len() ==> !p(#[trigger] s[i]),
    ensures
        s.filter(p) == Seq::<A>::empty(),
    decreases s.len(),
{
    reveal(Seq::filter);
    if s.len() > 0 {
        lemma_filter_drops_all(s.drop_last(), p);
    }
}

/// A save request keeps the recorder's state well formed.
pub proof fn request_keeps_state_valid(s: RecorderView, event_id: Seq<char>, label: Seq<char>, target: Seq<char>)
    requires
        s.wf(),
    ensures
        spec_request(s, event_id, label, target).wf(),
{
    let t = spec_request(s, event_id, label, target);
    assert forall|i: int| 0 <= i < t.pending.len() implies 1 <= #[trigger] t.pending[i].after_count
        <= AFTER_CLIPS by {
        if i < s.pending.len() {
            assert(t.pending[i] == s.pending[i]);
        }
    }
}

/// A finished clip keeps the recorder's state well formed.
pub proof fn clip_keeps_state_valid(s: RecorderView, video: String)
    requires
        s.wf(),
    ensures
        spec_complete(s, video).wf(),
{
    clip_completes_every_save(s, video);
}

/// In a well-formed state every waiting save needs exactly one more clip,
/// so the next finished clip completes all of them, in request order, and
/// none is left waiting.
pub proof fn clip_completes_every_save(s: RecorderView, video: String)
    requires
        s.wf(),
    ensures
        completed(s.pending, video) == advance_all(s.pending, video),
        spec_complete(s, video).pending == Seq::<PendingView>::empty(),
        spec_complete(s, video).recent == seq![video],
{
    let a = advance_all(s.pending, video);
    assert forall|i: int| 0 <= i < a.len() implies is_done()(#[trigger] a[i]) by {
        assert(a[i] == advance(s.pending[i], video));
        assert(1 <= s.pending[i].after_count <= AFTER_CLIPS);
    }
    lemma_filter_keeps_all(a, is_done());
    assert forall|i: int| 0 <= i < a.len() implies !is_waiting()(#[trigger] a[i]) by {
        assert(is_done()(a[i]));
    }
    lemma_filter_drops_all(a, is_waiting());
    let full = s.recent.push(video);
    assert(recent_window(full) =~= seq![video]);
}

/// A save requested now and completed by the next clip holds the clips
/// recorded before the request (at most `BEFORE_CLIPS`, the last ones) and
/// the clip recorded after it, in recording order, under the requested
/// event, label and target; it is the last save that clip completes.
pub proof fn save_holds_clips_before_and_after(
    s: RecorderView,
    event_id: Seq<char>,
    label: Seq<char>,
    target: Seq<char>,
    video: String,
)
    requires
        s.wf(),
    ensures
        ({
            let done = completed(spec_request(s, event_id, label, target).pending, video);
            &&& done.len() == s.pending.len() + 1
            &&& done.last() == PendingView {
                event_id,
                label,
                target,
                clips: s.recent.push(video),
                after_count: 0,
            }
        }),
        s.recent.len() <= BEFORE_CLIPS,
{
    let t = spec_request(s, event_id, label, target);
    request_keeps_state_valid(s, event_id, label, target);
    clip_completes_every_save(t, video);
    let done = completed(t.pending, video);
    assert(done.last() == advance(t.pending.last(), video));
}

/// One more clip adds that clip to a waiting save and lowers the number
/// of clips it still waits for by one (never below zero); the save's id,
/// label and target stay.
pub proof fn clip_counts_down(p: PendingView, video: String)
    ensures
        advance(p, video).clips == p.clips.push(video),
        advance(p, video).after_count == (if p.after_count == 0 {
            0
        } else {
            p.after_count - 1
        }),
        advance(p, video).event_id == p.event_id,
        advance(p, video).label == p.label,
        advance(p, video).target == p.target,
{
}

proof fn lemma_split_counts(ps: Seq<PendingView>)
    ensures
        ps.filter(is_done()).len() + ps.filter(is_waiting()).len() == ps.len(),
    decreases ps.len(),
{
    reveal(Seq::filter);
    if ps.len() > 0 {
        lemma_split_counts(ps.drop_last());
    }
}

/// A finished clip splits the waiting saves: those it completes wait for
/// nothing more, those left still wait for some clip, and together they
/// are all the saves there were.
pub proof fn clip_splits_saves(ps: Seq<PendingView>, video: String)
    ensures
        completed(ps, video).len() + still_waiting(ps, video).len() == ps.len(),
        forall|i: int|
            0 <= i < completed(ps, video).len() ==> (#[trigger] completed(ps, video)[i]).after_count
                == 0,
        forall|i: int|
            0 <= i < still_waiting(ps, video).len() ==> (#[trigger] still_waiting(
                ps,
                video,
            )[i]).after_count > 0,
{
    let a = advance_all(ps, video);
    lemma_split_counts(a);
    assert forall|i: int| 0 <= i < completed(ps, video).len() implies (#[trigger] completed(
        ps,
        video,
    )[i]).after_count == 0 by {
        a.lemma_filter_pred(is_done(), i);
    }
    assert forall|i: int| 0 <= i < still_waiting(ps, video).len() implies (#[trigger] still_waiting(
        ps,
        video,
    )[i]).after_count > 0 by {
        a.lemma_filter_pred(is_waiting(), i);
    }
}

} // verus!
