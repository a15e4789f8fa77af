//! What the media workers are asked for, and what becomes of their answers.

use vstd::prelude::*;

use crate::atlas::Zone;
use crate::flex::{clamp_aspect, Aspect};
use crate::grid::Layout;
use crate::model::{Clip, Effect, SlotKind, SlotOwner, Thumb};
use crate::state::{elapsed, ChapterPlan, Jobs, Scene, State, Switchblade};

verus! {

/// How long a fade of a new picture takes.
pub const PICTURE_WAKE: u64 = 600_000_000;

/// How long the bar of background work stays before it fades.
pub const JOBS_WAKE: u64 = 1_000_000_000;

/// How long a stream without a frame keeps other work waiting.
pub const PREWARM_GRACE: u64 = 3_000_000_000;

/// After how long a warm stream without a frame counts as dead.
pub const WARM_FILL: u64 = 5_000_000_000;

/// Slots that are never asked for: room for streams and for what arrives late.
pub const SLOT_HEADROOM: usize = 8;

/// An answer of the media workers.
pub enum MediaResult {
    Ready { path: u64, w: u32, h: u32 },
    Failed { path: u64 },
    AnimReady { path: u64, w: u32, h: u32 },
    AnimFailed { path: u64 },
    /// The thumbnail is in the disk cache.
    GenDone { path: u64 },
    /// Not one frame could be had from the file.
    Unplayable { path: u64 },
    ChapterTimes { path: u64, plan: ChapterPlan },
}

/// Pixels to bring into a slot: those of answer `from`.
#[derive(Clone, Copy, PartialEq, Eq, Structural, Debug)]
pub struct Upload {
    pub from: usize,
    pub slot: usize,
    pub w: u32,
    pub h: u32,
}

/// Two shapes are the same.
pub open spec fn same_shape(a: Option<Aspect>, w: u32, h: u32) -> bool {
    a matches Some(b) && b.w * h == w * b.h
}

/// A clip's picture of a kind.
pub open spec fn picture(c: Clip, kind: SlotKind) -> Thumb {
    match kind {
        SlotKind::Static => c.thumb,
        SlotKind::Anim => c.anim,
        SlotKind::Live => Thumb::Absent,
    }
}

/// A clip with another picture of a kind.
pub open spec fn with_picture(c: Clip, kind: SlotKind, p: Thumb) -> Clip {
    match kind {
        SlotKind::Static => Clip { thumb: p, ..c },
        SlotKind::Anim => Clip { anim: p, ..c },
        SlotKind::Live => c,
    }
}

fn pictured(c: Clip, kind: SlotKind, p: Thumb) -> (r: Clip)
    ensures
        r == with_picture(c, kind, p),
{
    match kind {
        SlotKind::Static => Clip { thumb: p, ..c },
        SlotKind::Anim => Clip { anim: p, ..c },
        SlotKind::Live => c,
    }
}

impl State {
    /// The state with clip `i` known to be in the disk cache.
    pub open spec fn cache_noted(self, i: usize) -> State {
        if self.clips[i as int].cached {
            self
        } else {
            State {
                clips: self.clips.update(i as int, Clip { cached: true, ..self.clips[i as int] }),
                jobs: Jobs { thumbs_cached: self.jobs.thumbs_cached.wrapping_add(1), ..self.jobs },
                ..self
            }
        }
    }

    /// The state with the slot free that clip `i`'s picture of a kind is in.
    pub open spec fn picture_freed(self, i: usize, kind: SlotKind) -> State {
        match picture(self.clips[i as int], kind) {
            Thumb::Ready { slot, .. } => State {
                slots: self.slots.update(slot as int, None),
                ..self.picture_set(i, kind, Thumb::Absent)
            },
            _ => self,
        }
    }

    /// The state with another picture of a kind for clip `i`.
    pub open spec fn picture_set(self, i: usize, kind: SlotKind, p: Thumb) -> State {
        State {
            clips: self.clips.update(i as int, with_picture(self.clips[i as int], kind, p)),
            ..self
        }
    }

    /// The state with clip `i`'s picture in a slot.
    pub open spec fn picture_placed(
        self,
        i: usize,
        kind: SlotKind,
        slot: usize,
        w: u32,
        h: u32,
        now: u64,
    ) -> State {
        State {
            slots: self.slots.update(slot as int, Some(SlotOwner { clip: i, kind })),
            ..self.picture_set(i, kind, Thumb::Ready { slot, at: now, tw: w, th: h })
        }
    }

    /// The slot that a picture that has arrived for clip `i` gets.
    pub open spec fn place_for(self, i: usize, kind: SlotKind, lay: Layout, zone: Zone) -> Option<
        usize,
    > {
        self.picture_freed(i, kind).slot_for(lay, zone, kind)
    }

    /// The state after a picture has arrived for clip `i`: in a slot, or
    /// dropped, to be asked for again, where no slot can be had.
    #[verifier::opaque]
    pub open spec fn picture_arrived(
        self,
        i: usize,
        kind: SlotKind,
        w: u32,
        h: u32,
        lay: Layout,
        zone: Zone,
        now: u64,
    ) -> State {
        let s = self.picture_freed(i, kind);
        match s.slot_for(lay, zone, kind) {
            Some(j) => s.slot_cleared(lay, zone, kind).picture_placed(i, kind, j, w, h, now),
            None => s.slot_cleared(lay, zone, kind).picture_set(i, kind, Thumb::Absent),
        }
    }

    /// The state with clip `i`'s shape known.
    pub open spec fn shape_noted(self, i: usize, w: u32, h: u32) -> State {
        let d: u32 = if h == 0 {
            1
        } else {
            h
        };
        if same_shape(self.clips[i as int].aspect, w, d) {
            self
        } else {
            State {
                clips: self.clips.update(
                    i as int,
                    Clip { aspect: Some(Aspect { w, h: d }), ..self.clips[i as int] },
                ),
                scene: Scene { grid_rev: self.scene.grid_rev.wrapping_add(1), ..self.scene },
                ..self
            }
        }
    }

    /// The state after a thumbnail has arrived for clip `i`.
    #[verifier::opaque]
    pub open spec fn thumb_arrived(
        self,
        i: usize,
        w: u32,
        h: u32,
        lay: Layout,
        zone: Zone,
        now: u64,
    ) -> State {
        let s = self.cache_noted(i);
        let t = s.picture_arrived(i, SlotKind::Static, w, h, lay, zone, now);
        if s.place_for(i, SlotKind::Static, lay, zone) is Some {
            t.shape_noted(i, w, h)
        } else {
            t
        }
    }

    /// One job more is done, with something new to see or not.
    pub open spec fn job_done(self, seen: bool, now: u64) -> State {
        let s = State { jobs: Jobs { done: self.jobs.done.wrapping_add(1), ..self.jobs }, ..self };
        if seen {
            s.woken(now, PICTURE_WAKE)
        } else {
            s
        }
    }

    /// The state after an answer, the selected stream being at `pos`.
    pub open spec fn answered(
        self,
        r: MediaResult,
        lay: Layout,
        zone: Zone,
        pos: int,
        now: u64,
    ) -> State {
        match r {
            MediaResult::ChapterTimes { path, plan } => {
                let s = self.plan_applied(path, plan.times@, plan.duration, pos, now);
                State { chapter_probe: s.chapter_probe.insert(path, Some(plan)), ..s }
            },
            MediaResult::Ready { path, w, h } => {
                let s = self.job_done(true, now);
                if s.index.contains_key(path) {
                    s.thumb_arrived(s.index[path], w, h, lay, zone, now)
                } else {
                    s
                }
            },
            MediaResult::Failed { path } => {
                let s = self.job_done(true, now);
                if s.index.contains_key(path) {
                    s.picture_set(s.index[path], SlotKind::Static, Thumb::Failed)
                } else {
                    s
                }
            },
            MediaResult::AnimReady { path, w, h } => {
                let s = self.job_done(true, now);
                if s.index.contains_key(path) {
                    s.picture_arrived(s.index[path], SlotKind::Anim, w, h, lay, zone, now)
                } else {
                    s
                }
            },
            MediaResult::AnimFailed { path } => {
                let s = self.job_done(true, now);
                if s.index.contains_key(path) {
                    s.picture_set(s.index[path], SlotKind::Anim, Thumb::Failed)
                } else {
                    s
                }
            },
            MediaResult::GenDone { path } => {
                let s = self.job_done(false, now);
                if s.index.contains_key(path) {
                    s.cache_noted(s.index[path])
                } else {
                    s
                }
            },
            MediaResult::Unplayable { path } => {
                let s = self.job_done(true, now);
                if s.setup.tuning.gatekeeper && s.index.contains_key(path)
                    && !s.clips[s.index[path] as int].cloud {
                    s.without(s.index[path] as int, now)
                } else {
                    s
                }
            },
        }
    }

    /// The slot that an answer's pixels go to.
    pub open spec fn upload_slot(self, r: MediaResult, lay: Layout, zone: Zone) -> Option<usize> {
        match r {
            MediaResult::Ready { path, .. } => if self.index.contains_key(path) {
                self.cache_noted(self.index[path]).place_for(
                    self.index[path],
                    SlotKind::Static,
                    lay,
                    zone,
                )
            } else {
                None
            },
            MediaResult::AnimReady { path, .. } => if self.index.contains_key(path) {
                self.place_for(self.index[path], SlotKind::Anim, lay, zone)
            } else {
                None
            },
            _ => None,
        }
    }
}

/// A clip changed in what neither the index nor the slots know keeps the state
/// sound.
proof fn clip_change_keeps_tied(s: State, i: int, c: Clip)
    requires
        s.wf(),
        0 <= i < s.clips.len(),
        c.path == s.clips[i].path,
        c.thumb == s.clips[i].thumb || !(c.thumb is Ready),
        c.anim == s.clips[i].anim || !(c.anim is Ready),
    ensures
        (State { clips: s.clips.update(i, c), ..s }).wf(),
{
    reveal(crate::state::tied);
    let t = State { clips: s.clips.update(i, c), ..s };
    assert forall|p: u64| #[trigger] t.index.contains_key(p) implies t.index[p] < t.clips.len()
        && t.clips[t.index[p] as int].path == p by {
        assert(s.index.contains_key(p));
    }
    assert forall|k: int| 0 <= k < t.clips.len() implies {
        &&& (#[trigger] t.clips[k]).thumb matches Thumb::Ready { slot, .. } ==> slot < t.slots.len()
            && t.slots[slot as int] == Some(
            SlotOwner { clip: k as usize, kind: SlotKind::Static },
        )
        &&& t.clips[k].anim matches Thumb::Ready { slot, .. } ==> slot < t.slots.len()
            && t.slots[slot as int] == Some(SlotOwner { clip: k as usize, kind: SlotKind::Anim })
    } by {
        let old_clip = s.clips[k];
    }
}

impl Switchblade {
    fn place_of(&self, path: u64) -> (r: Option<usize>)
        requires
            self@.wf(),
        ensures
            match r {
                Some(i) => self@.index.contains_key(path) && self@.index[path] == i && i
                    < self@.clips.len(),
                None => !self@.index.contains_key(path),
            },
    {
        proof {
            reveal(crate::state::tied);
        }
        match self.index.get(&path) {
            Some(i) => {
                assert(self@.index.contains_key(path));
                Some(*i)
            },
            None => None,
        }
    }

    fn note_cached(&mut self, i: usize)
        requires
            old(self)@.wf(),
            i < old(self)@.clips.len(),
        ensures
            final(self)@ == old(self)@.cache_noted(i),
            final(self)@.wf(),
    {
        let c = self.clips[i];
        if !c.cached {
            proof {
                clip_change_keeps_tied(self@, i as int, Clip { cached: true, ..c });
            }
            self.clips.set(i, Clip { cached: true, ..c });
            self.jobs.thumbs_cached = self.jobs.thumbs_cached.wrapping_add(1);
        }
    }

    fn set_picture(&mut self, i: usize, kind: SlotKind, p: Thumb)
        requires
            old(self)@.wf(),
            i < old(self)@.clips.len(),
            !(p is Ready),
        ensures
            final(self)@ == old(self)@.picture_set(i, kind, p),
            final(self)@.wf(),
    {
        let c = pictured(self.clips[i], kind, p);
        proof {
            clip_change_keeps_tied(self@, i as int, c);
        }
        self.clips.set(i, c);
    }

    fn free_picture(&mut self, i: usize, kind: SlotKind)
        requires
            old(self)@.wf(),
            i < old(self)@.clips.len(),
        ensures
            final(self)@ == old(self)@.picture_freed(i, kind),
            final(self)@.wf(),
            !(picture(final(self)@.clips[i as int], kind) is Ready),
    {
        let p = match kind {
            SlotKind::Static => self.clips[i].thumb,
            SlotKind::Anim => self.clips[i].anim,
            SlotKind::Live => Thumb::Absent,
        };
        match p {
            Thumb::Ready { slot, at: _, tw: _, th: _ } => {
                let ghost before = self@;
                assert(slot < self@.slots.len() && self@.slots[slot as int] == Some(
                    SlotOwner { clip: i, kind },
                )) by {
                    reveal(crate::state::tied);
                    assert(self@.clips[i as int] == before.clips[i as int]);
                }
                self.set_picture(i, kind, Thumb::Absent);
                proof {
                    freeing_keeps_tied(self@, slot as int, i as int, kind);
                }
                self.slots.set(slot, None);
            },
            _ => {},
        }
    }

    fn place_picture(&mut self, i: usize, kind: SlotKind, slot: usize, w: u32, h: u32, now: u64)
        requires
            old(self)@.wf(),
            i < old(self)@.clips.len(),
            slot < old(self)@.slots.len(),
            old(self)@.slots[slot as int] is None,
            !(kind is Live),
        ensures
            final(self)@ == old(self)@.picture_placed(i, kind, slot, w, h, now),
            final(self)@.wf(),
    {
        proof {
            placing_keeps_tied(self@, i as int, kind, slot as int, w, h, now);
        }
        let c = pictured(self.clips[i], kind, Thumb::Ready { slot, at: now, tw: w, th: h });
        self.clips.set(i, c);
        self.slots.set(slot, Some(SlotOwner { clip: i, kind }));
    }

    fn note_shape(&mut self, i: usize, w: u32, h: u32)
        requires
            old(self)@.wf(),
            i < old(self)@.clips.len(),
        ensures
            final(self)@ == old(self)@.shape_noted(i, w, h),
            final(self)@.wf(),
    {
        let d: u32 = if h == 0 {
            1
        } else {
            h
        };
        let c = self.clips[i];
        let known = match c.aspect {
            Some(b) => {
                proof {
                    product_fits(b.w, d);
                    product_fits(w, b.h);
                }
                (b.w as u64) * (d as u64) == (w as u64) * (b.h as u64)
            },
            None => false,
        };
        if !known {
            let n = Clip { aspect: Some(Aspect { w, h: d }), ..c };
            proof {
                clip_change_keeps_tied(self@, i as int, n);
            }
            self.clips.set(i, n);
            self.scene.grid_rev = self.scene.grid_rev.wrapping_add(1);
        }
    }

    fn receive_picture(
        &mut self,
        i: usize,
        kind: SlotKind,
        w: u32,
        h: u32,
        lay: &Layout,
        zone: Zone,
        now: u64,
    ) -> (r: Option<usize>)
        requires
            old(self)@.wf(),
            lay.wf(),
            i < old(self)@.clips.len(),
            !(kind is Live),
        ensures
            r == old(self)@.place_for(i, kind, *lay, zone),
            final(self)@ == old(self)@.picture_arrived(i, kind, w, h, *lay, zone, now),
            final(self)@.wf(),
            final(self)@.clips.len() == old(self)@.clips.len(),
    {
        proof {
            reveal(State::picture_arrived);
        }
        self.free_picture(i, kind);
        let r = self.alloc_slot(lay, zone, kind);
        match r {
            Some(j) => {
                self.place_picture(i, kind, j, w, h, now);
            },
            None => {
                self.set_picture(i, kind, Thumb::Absent);
            },
        }
        r
    }

    fn receive_thumb(&mut self, i: usize, w: u32, h: u32, lay: &Layout, zone: Zone, now: u64) -> (r:
        Option<usize>)
        requires
            old(self)@.wf(),
            lay.wf(),
            i < old(self)@.clips.len(),
        ensures
            r == old(self)@.cache_noted(i).place_for(i, SlotKind::Static, *lay, zone),
            final(self)@ == old(self)@.thumb_arrived(i, w, h, *lay, zone, now),
            final(self)@.wf(),
    {
        proof {
            reveal(State::thumb_arrived);
        }
        self.note_cached(i);
        let r = self.receive_picture(i, SlotKind::Static, w, h, lay, zone, now);
        if r.is_some() {
            self.note_shape(i, w, h);
        }
        r
    }

    fn finish_job(&mut self, seen: bool, now: u64)
        requires
            old(self)@.wf(),
        ensures
            final(self)@ == old(self)@.job_done(seen, now),
            final(self)@.wf(),
    {
        self.jobs.done = self.jobs.done.wrapping_add(1);
        if seen {
            self.wake(now, PICTURE_WAKE);
        }
    }
}

proof fn product_fits(a: u32, b: u32)
    ensures
        0 <= a * b <= u64::MAX,
{
    assert(0 <= a * b <= 0xffff_ffff * 0xffff_ffff) by (nonlinear_arith)
        requires
            0 <= a <= 0xffff_ffff,
            0 <= b <= 0xffff_ffff,
    ;
}

/// Freeing a slot whose owner has no picture in it keeps the state sound.
proof fn freeing_keeps_tied(s: State, slot: int, i: int, kind: SlotKind)
    requires
        s.wf(),
        0 <= slot < s.slots.len(),
        s.slots[slot] == Some(SlotOwner { clip: i as usize, kind }),
        0 <= i < s.clips.len(),
        !(kind is Live),
        !(picture(s.clips[i], kind) is Ready),
    ensures
        (State { slots: s.slots.update(slot, None), ..s }).wf(),
{
    reveal(crate::state::tied);
    let t = State { slots: s.slots.update(slot, None), ..s };
    assert forall|k: int| 0 <= k < t.slots.len() implies ((#[trigger] t.slots[k]) matches Some(q)
        ==> q.clip < t.clips.len()) by {
        assert(k != slot ==> t.slots[k] == s.slots[k]);
    }
    assert forall|k: int| 0 <= k < t.clips.len() implies {
        &&& (#[trigger] t.clips[k]).thumb matches Thumb::Ready { slot, .. } ==> slot < t.slots.len()
            && t.slots[slot as int] == Some(
            SlotOwner { clip: k as usize, kind: SlotKind::Static },
        )
        &&& t.clips[k].anim matches Thumb::Ready { slot, .. } ==> slot < t.slots.len()
            && t.slots[slot as int] == Some(SlotOwner { clip: k as usize, kind: SlotKind::Anim })
    } by {
        let c = s.clips[k];
    }
}

/// Bringing a picture into a free slot keeps the state sound.
proof fn placing_keeps_tied(s: State, i: int, kind: SlotKind, slot: int, w: u32, h: u32, now: u64)
    requires
        s.wf(),
        0 <= i < s.clips.len(),
        0 <= slot < s.slots.len(),
        slot <= usize::MAX,
        s.slots[slot] is None,
        !(kind is Live),
    ensures
        s.picture_placed(i as usize, kind, slot as usize, w, h, now).wf(),
{
    reveal(crate::state::tied);
    let t = s.picture_placed(i as usize, kind, slot as usize, w, h, now);
    assert forall|p: u64| #[trigger] t.index.contains_key(p) implies t.index[p] < t.clips.len()
        && t.clips[t.index[p] as int].path == p by {
        assert(s.index.contains_key(p));
    }
    assert forall|k: int| 0 <= k < t.slots.len() implies ((#[trigger] t.slots[k]) matches Some(q)
        ==> q.clip < t.clips.len()) by {
        assert(k != slot ==> t.slots[k] == s.slots[k]);
    }
    assert forall|k: int| 0 <= k < t.clips.len() implies {
        &&& (#[trigger] t.clips[k]).thumb matches Thumb::Ready { slot, .. } ==> slot < t.slots.len()
            && t.slots[slot as int] == Some(
            SlotOwner { clip: k as usize, kind: SlotKind::Static },
        )
        &&& t.clips[k].anim matches Thumb::Ready { slot, .. } ==> slot < t.slots.len()
            && t.slots[slot as int] == Some(SlotOwner { clip: k as usize, kind: SlotKind::Anim })
    } by {
        let c = s.clips[k];
    }
}


/// What one frame makes of the answers from `results[i]` on, with the pixels
/// that are already to be brought in: the state, how many answers have been
/// taken, and the pixels.
pub open spec fn drained(
    s: State,
    results: Seq<MediaResult>,
    i: int,
    ups: Seq<Upload>,
    budget: int,
    lay: Layout,
    zone: Zone,
    pos: int,
    now: u64,
) -> (State, int, Seq<Upload>)
    decreases results.len() - i,
{
    if i >= results.len() || ups.len() >= budget {
        (s, i, ups)
    } else {
        drained(
            s.answered(results[i], lay, zone, pos, now),
            results,
            i + 1,
            with_upload(ups, i, results[i], s.upload_slot(results[i], lay, zone)),
            budget,
            lay,
            zone,
            pos,
            now,
        )
    }
}

/// The pixels with those of an answer, if they have a slot.
pub open spec fn with_upload(ups: Seq<Upload>, i: int, r: MediaResult, slot: Option<usize>) -> Seq<
    Upload,
> {
    match (slot, r) {
        (Some(slot), MediaResult::Ready { w, h, .. }) => ups.push(
            Upload { from: i as usize, slot, w, h },
        ),
        (Some(slot), MediaResult::AnimReady { w, h, .. }) => ups.push(
            Upload { from: i as usize, slot, w, h },
        ),
        _ => ups,
    }
}

impl State {
    /// The selected stream shows frames.
    pub open spec fn presenting(self) -> bool {
        self.lanes.live_sel matches Some(l) && l.first_frame is Some && !self.lanes.sel_parked
            && !self.paused()
    }

    /// How many pictures one frame may bring in.
    pub open spec fn upload_budget(self) -> int {
        if self.ribboning() {
            crate::state::MEDIA_UPLOAD_BUDGET_GESTURE as int
        } else if self.presenting() {
            crate::state::MEDIA_UPLOAD_BUDGET_LIVE as int
        } else {
            crate::state::MEDIA_UPLOAD_BUDGET as int
        }
    }

    /// Background work is under way.
    pub open spec fn working(self) -> bool {
        self.jobs.total > self.jobs.done
    }

    /// The state before the answers of a frame are looked at.
    pub open spec fn budget_noted(self) -> State {
        if self.presenting() {
            State {
                jobs: Jobs {
                    drain_budget_hits: self.jobs.drain_budget_hits.wrapping_add(1),
                    ..self.jobs
                },
                ..self
            }
        } else {
            self
        }
    }

    /// The state after the answers of a frame: another frame is asked for where
    /// the budget ran out, and the loop stays awake while the bar of finished
    /// work fades.
    pub open spec fn drain_ended(self, was_working: bool, full: bool, now: u64) -> State {
        let s = if full {
            self.asked(Effect::NextFrame)
        } else {
            self
        };
        if was_working && s.jobs.total > 0 && !s.working() {
            s.woken(now, JOBS_WAKE)
        } else {
            s
        }
    }
}

impl Switchblade {
    /// Whether the selected stream plays or is about to: background work holds
    /// back.
    pub fn watching(&self) -> (r: bool)
        ensures
            r == (self@.lanes.live_sel is Some && !self@.lanes.sel_parked && !self@.paused()),
    {
        self.lanes.live_sel.is_some() && !self.lanes.sel_parked && !self.paused()
    }

    fn presents(&self) -> (r: bool)
        ensures
            r == self@.presenting(),
    {
        match self.lanes.live_sel {
            Some(l) => l.first_frame.is_some() && !self.lanes.sel_parked && !self.paused(),
            None => false,
        }
    }

    fn answer_ready(&mut self, path: u64, w: u32, h: u32, lay: &Layout, zone: Zone, now: u64) -> (r:
        Option<usize>)
        requires
            old(self)@.wf(),
            lay.wf(),
        ensures
            final(self)@ == old(self)@.answered(
                MediaResult::Ready { path, w, h },
                *lay,
                zone,
                0,
                now,
            ),
            r == old(self)@.upload_slot(MediaResult::Ready { path, w, h }, *lay, zone),
            final(self)@.wf(),
    {
        self.finish_job(true, now);
        match self.place_of(path) {
            Some(i) => self.receive_thumb(i, w, h, lay, zone, now),
            None => None,
        }
    }

    fn answer_anim(&mut self, path: u64, w: u32, h: u32, lay: &Layout, zone: Zone, now: u64) -> (r:
        Option<usize>)
        requires
            old(self)@.wf(),
            lay.wf(),
        ensures
            final(self)@ == old(self)@.answered(
                MediaResult::AnimReady { path, w, h },
                *lay,
                zone,
                0,
                now,
            ),
            r == old(self)@.upload_slot(MediaResult::AnimReady { path, w, h }, *lay, zone),
            final(self)@.wf(),
    {
        self.finish_job(true, now);
        match self.place_of(path) {
            Some(i) => self.receive_picture(i, SlotKind::Anim, w, h, lay, zone, now),
            None => None,
        }
    }

    fn answer_failed(&mut self, path: u64, kind: SlotKind, now: u64)
        requires
            old(self)@.wf(),
        ensures
            final(self)@ == ({
                let s = old(self)@.job_done(true, now);
                if s.index.contains_key(path) {
                    s.picture_set(s.index[path], kind, Thumb::Failed)
                } else {
                    s
                }
            }),
            final(self)@.wf(),
    {
        self.finish_job(true, now);
        match self.place_of(path) {
            Some(i) => {
                self.set_picture(i, kind, Thumb::Failed);
            },
            None => {},
        }
    }

    fn answer_gen(&mut self, path: u64, now: u64)
        requires
            old(self)@.wf(),
        ensures
            final(self)@ == ({
                let s = old(self)@.job_done(false, now);
                if s.index.contains_key(path) {
                    s.cache_noted(s.index[path])
                } else {
                    s
                }
            }),
            final(self)@.wf(),
    {
        self.finish_job(false, now);
        match self.place_of(path) {
            Some(i) => {
                self.note_cached(i);
            },
            None => {},
        }
    }

    fn answer_unplayable(&mut self, path: u64, now: u64)
        requires
            old(self)@.wf(),
        ensures
            final(self)@ == ({
                let s = old(self)@.job_done(true, now);
                if s.setup.tuning.gatekeeper && s.index.contains_key(path)
                    && !s.clips[s.index[path] as int].cloud {
                    s.without(s.index[path] as int, now)
                } else {
                    s
                }
            }),
            final(self)@.wf(),
    {
        self.finish_job(true, now);
        if self.setup.tuning.gatekeeper {
            match self.place_of(path) {
                Some(i) => {
                    if !self.clips[i].cloud {
                        self.remove_clip(i, now);
                    }
                },
                None => {},
            }
        }
    }

    fn answer_chapters(&mut self, path: u64, plan: ChapterPlan, pos: i64, now: u64)
        requires
            old(self)@.wf(),
        ensures
            final(self)@ == ({
                let s = old(self)@.plan_applied(path, plan.times@, plan.duration, pos as int, now);
                State { chapter_probe: s.chapter_probe.insert(path, Some(plan)), ..s }
            }),
            final(self)@.wf(),
    {
        self.apply_chapter_plan(path, &plan.times, plan.duration, pos, now);
        self.chapter_probe.insert(path, Some(plan));
    }

    /// Takes one answer in. Returns the slot that its pixels go to.
    pub fn answer(&mut self, r: MediaResult, lay: &Layout, zone: Zone, pos: i64, now: u64) -> (slot:
        Option<usize>)
        requires
            old(self)@.wf(),
            lay.wf(),
        ensures
            final(self)@ == old(self)@.answered(r, *lay, zone, pos as int, now),
            slot == old(self)@.upload_slot(r, *lay, zone),
            final(self)@.wf(),
    {
        match r {
            MediaResult::Ready { path, w, h } => self.answer_ready(path, w, h, lay, zone, now),
            MediaResult::AnimReady { path, w, h } => self.answer_anim(path, w, h, lay, zone, now),
            MediaResult::Failed { path } => {
                self.answer_failed(path, SlotKind::Static, now);
                None
            },
            MediaResult::AnimFailed { path } => {
                self.answer_failed(path, SlotKind::Anim, now);
                None
            },
            MediaResult::GenDone { path } => {
                self.answer_gen(path, now);
                None
            },
            MediaResult::Unplayable { path } => {
                self.answer_unplayable(path, now);
                None
            },
            MediaResult::ChapterTimes { path, plan } => {
                self.answer_chapters(path, plan, pos, now);
                None
            },
        }
    }

    /// Takes this frame's answers in, as many as the budget allows, and returns
    /// the pixels to bring into the atlas. What is left waits for the next
    /// frame.
    pub fn drain_media(
        &mut self,
        results: &mut Vec<MediaResult>,
        lay: &Layout,
        zone: Zone,
        pos: i64,
        now: u64,
    ) -> (ups: Vec<Upload>)
        requires
            old(self)@.wf(),
            lay.wf(),
        ensures
            ({
                let before = old(self)@;
                let (s, taken, all) = drained(
                    before.budget_noted(),
                    old(results)@,
                    0,
                    Seq::empty(),
                    before.upload_budget(),
                    *lay,
                    zone,
                    pos as int,
                    now,
                );
                &&& ups@ == all
                &&& final(results)@ == old(results)@.skip(taken)
                &&& final(self)@ == s.drain_ended(
                    before.working(),
                    all.len() >= before.upload_budget(),
                    now,
                )
            }),
            final(self)@.wf(),
    {
        let was_working = self.jobs.total > self.jobs.done;
        let presenting = self.presents();
        let budget: usize = self.media_upload_budget(presenting);
        if presenting {
            self.jobs.drain_budget_hits = self.jobs.drain_budget_hits.wrapping_add(1);
        }
        let ghost start = self@;
        let ghost all = results@;
        let count: usize = results.len();
        let mut ups: Vec<Upload> = Vec::new();
        let mut i: usize = 0;
        assert(all.skip(0) =~= all);
        while results.len() > 0 && ups.len() < budget
            invariant
                self@.wf(),
                lay.wf(),
                0 <= i <= all.len(),
                results@ == all.skip(i as int),
                i + results@.len() == all.len(),
                all.len() == count,
                drained(
                    self@,
                    all,
                    i as int,
                    ups@,
                    budget as int,
                    *lay,
                    zone,
                    pos as int,
                    now,
                ) == drained(
                    start,
                    all,
                    0,
                    Seq::empty(),
                    budget as int,
                    *lay,
                    zone,
                    pos as int,
                    now,
                ),
            decreases results@.len(),
        {
            let r = results.remove(0);
            assert(r == all[i as int]);
            assert(results@ =~= all.skip(i + 1));
            let (w, h): (u32, u32) = match &r {
                MediaResult::Ready { path: _, w, h } => (*w, *h),
                MediaResult::AnimReady { path: _, w, h } => (*w, *h),
                _ => (0, 0),
            };
            let slot = self.answer(r, lay, zone, pos, now);
            match slot {
                Some(slot) => {
                    ups.push(Upload { from: i, slot, w, h });
                },
                None => {},
            }
            i += 1;
        }
        if ups.len() >= budget {
            self.ask(Effect::NextFrame);
        }
        if was_working && self.jobs.total > 0 && self.jobs.done >= self.jobs.total {
            self.wake(now, JOBS_WAKE);
        }
        ups
    }
}


/// The state with thumbnails asked for, for the places from `order[k]` on, as
/// far as the slots go: clips that cannot have one are passed over, and one
/// that is there, or on its way, counts too.
pub open spec fn thumbs_wanted(s: State, order: Seq<usize>, k: int, budget: int) -> State
    decreases order.len() - k,
{
    if k >= order.len() || k < 0 {
        s
    } else {
        let i = order[k];
        if i >= s.clips.len() || !s.clips[i as int].readable || s.clips[i as int].thumb is Failed {
            thumbs_wanted(s, order, k + 1, budget)
        } else if budget <= 0 {
            s
        } else {
            thumbs_wanted(s.thumb_wanted(i), order, k + 1, budget - 1)
        }
    }
}

impl State {
    /// The state with clip `i`'s thumbnail asked for, where it is absent.
    pub open spec fn thumb_wanted(self, i: usize) -> State {
        if self.clips[i as int].thumb is Absent {
            State {
                jobs: Jobs { total: self.jobs.total.wrapping_add(1), ..self.jobs },
                ..self.picture_set(i, SlotKind::Static, Thumb::Pending)
            }.asked(Effect::RequestThumb { path: self.clips[i as int].path })
        } else {
            self
        }
    }

    /// Work that only prepares may start: the video being watched is on the
    /// screen, or has been waited for long enough, or there is none to wait for.
    pub open spec fn prewarmable(self, now: u64) -> bool {
        ||| !self.live()
        ||| self.paused()
        ||| self.setup.demo
        ||| (self.lanes.live_sel matches Some(l) && l.first_frame is Some && (
        self.selected_clip() matches Some(c) && c.path == l.path))
        ||| crate::state::since(now, self.refs.sel_changed_at) > PREWARM_GRACE
    }

    /// The selected clip's storyboard is worth asking for.
    pub open spec fn sheet_missing(self) -> bool {
        self.selected_clip() matches Some(c) && c.readable && !c.cloud && c.anim is Absent
            && c.thumb is Ready
    }

    /// The state after the selected clip's storyboard has been asked for, where
    /// a view shows it, nothing speaks against it and it is not there yet.
    /// `filling` says that a warm stream is still starting up.
    pub open spec fn sheet_wanted(self, filling: bool, now: u64) -> State {
        let wanted = !self.setup.no_storyboards && ((self.modes.quickview
            && self.setup.tuning.seekbar_preview) || self.modes.fullview) && self.prewarmable(now)
            && !filling;
        if wanted && self.sheet_missing() {
            let i = self.refs.selected;
            State {
                jobs: Jobs { total: self.jobs.total.wrapping_add(1), ..self.jobs },
                ..self.picture_set(i, SlotKind::Anim, Thumb::Pending)
            }.asked(Effect::RequestAnim { path: self.clips[i as int].path })
        } else {
            self
        }
    }
}

/// A layout of a library has no more rows than can be counted.
pub proof fn row_count_fits(lay: Layout)
    requires
        lay.wf(),
        lay.len <= crate::state::MAX_CLIPS,
    ensures
        lay.row_count() <= usize::MAX,
{
    match lay.flex {
        Some(f) => {
            assert(f.rows.len() <= usize::MAX);
        },
        None => {
            let c = lay.cols as int;
            let n = lay.len as int;
            assert((n + c - 1) / c <= n) by (nonlinear_arith)
                requires
                    1 <= c,
                    0 <= n,
            ;
        },
    }
}

/// A warm stream is starting up: it has no frame yet and is not old enough to
/// be dead. `buffered` has the frames that each holds.
pub open spec fn filling(s: State, buffered: Seq<usize>, now: u64, k: int) -> bool {
    0 <= k < s.warm.len() && buffered[k] == 0 && crate::state::since(now, s.warm[k].spawned)
        < WARM_FILL
}

impl Switchblade {
    /// Asks for the thumbnails of the given places, in this order, as far as
    /// the slots go.
    pub fn request_thumbs(&mut self, order: &Vec<usize>)
        requires
            old(self)@.wf(),
        ensures
            final(self)@ == thumbs_wanted(
                old(self)@,
                order@,
                0,
                old(self)@.slots.len() - SLOT_HEADROOM,
            ),
            final(self)@.wf(),
    {
        let mut budget: i128 = self.slots.len() as i128 - SLOT_HEADROOM as i128;
        let ghost start = self@;
        let ghost whole = budget as int;
        let mut k: usize = 0;
        while k < order.len()
            invariant
                k <= order@.len(),
                self@.wf(),
                budget <= whole,
                -100 <= budget,
                whole >= -100,
                budget >= 0 || budget == whole,
                start == old(self)@,
                whole == start.slots.len() - SLOT_HEADROOM,
                thumbs_wanted(self@, order@, k as int, budget as int) == thumbs_wanted(
                    start,
                    order@,
                    0,
                    whole,
                ),
            decreases order@.len() - k,
        {
            let i: usize = order[k];
            if i < self.clips.len() {
                let c = self.clips[i];
                let failed = match c.thumb {
                    Thumb::Failed => true,
                    _ => false,
                };
                if c.readable && !failed {
                    if budget <= 0 {
                        return;
                    }
                    budget -= 1;
                    self.want_thumb(i);
                }
            }
            k += 1;
        }
    }

    fn want_thumb(&mut self, i: usize)
        requires
            old(self)@.wf(),
            i < old(self)@.clips.len(),
        ensures
            final(self)@ == old(self)@.thumb_wanted(i),
            final(self)@.wf(),
    {
        let c = self.clips[i];
        match c.thumb {
            Thumb::Absent => {
                self.set_picture(i, SlotKind::Static, Thumb::Pending);
                self.jobs.total = self.jobs.total.wrapping_add(1);
                self.ask(Effect::RequestThumb { path: c.path });
            },
            _ => {},
        }
    }

    /// Asks for the thumbnails on the screen and near it, the middle rows
    /// first.
    pub fn request_visible_thumbs(&mut self, lay: &Layout, zone: Zone)
        requires
            old(self)@.wf(),
            lay.wf(),
            lay.len <= crate::state::MAX_CLIPS,
            zone.last == 0 || zone.last < lay.row_count(),
        ensures
            exists|rows: Seq<usize>| #[trigger]
                crate::grid::center_out(rows, zone.first, zone.last, zone.center) && (
                final(self)@ == (if old(self)@.setup.demo {
                    old(self)@
                } else {
                    thumbs_wanted(
                        old(self)@,
                        crate::grid::places_of(*lay, rows, rows.len() as int),
                        0,
                        old(self)@.slots.len() - SLOT_HEADROOM,
                    )
                })),
            final(self)@.wf(),
    {
        proof {
            row_count_fits(*lay);
        }
        let rows = crate::grid::zone_rows(zone.first, zone.last, zone.center);
        assert forall|k: int| 0 <= k < rows@.len() implies (#[trigger] rows@[k]) == 0 || rows@[k]
            < lay.row_count() by {
            assert(rows@.contains(rows@[k]));
        }
        if !self.setup.demo {
            let order = crate::grid::zone_places(lay, &rows);
            self.request_thumbs(&order);
        }
        assert(crate::grid::center_out(rows@, zone.first, zone.last, zone.center));
    }

    /// Whether work that only prepares may start.
    pub fn prewarm_ok(&self, now: u64) -> (r: bool)
        ensures
            r == self@.prewarmable(now),
    {
        if !self.level().live() || self.paused() || self.setup.demo {
            return true;
        }
        let ready = match self.lanes.live_sel {
            Some(l) => l.first_frame.is_some() && self.refs.selected < self.clips.len()
                && self.clips[self.refs.selected].path == l.path,
            None => false,
        };
        ready || elapsed(now, self.refs.sel_changed_at) > PREWARM_GRACE
    }

    /// Whether a warm stream is still starting up; `buffered` has the frames
    /// that each of them holds.
    pub fn warm_filling(&self, buffered: &Vec<usize>, now: u64) -> (r: bool)
        requires
            buffered@.len() == self@.warm.len(),
        ensures
            r == exists|k: int| filling(self@, buffered@, now, k),
    {
        let mut k: usize = 0;
        while k < self.warm.len()
            invariant
                k <= self.warm@.len(),
                buffered@.len() == self.warm@.len(),
                forall|j: int| 0 <= j < k ==> !filling(self@, buffered@, now, j),
            decreases self.warm@.len() - k,
        {
            if buffered[k] == 0 && elapsed(now, self.warm[k].spawned) < WARM_FILL {
                assert(filling(self@, buffered@, now, k as int));
                return true;
            }
            k += 1;
        }
        false
    }

    /// Asks for the selected clip's storyboard where a view shows it.
    pub fn request_quickview_sheet(&mut self, filling: bool, now: u64)
        requires
            old(self)@.wf(),
        ensures
            final(self)@ == old(self)@.sheet_wanted(filling, now),
            final(self)@.wf(),
    {
        if self.setup.no_storyboards {
            return;
        }
        let wanted = ((self.modes.quickview && self.setup.tuning.seekbar_preview)
            || self.modes.fullview) && self.prewarm_ok(now) && !filling;
        let i: usize = self.refs.selected;
        if !wanted || i >= self.clips.len() {
            return;
        }
        let c = self.clips[i];
        let missing = match (c.anim, c.thumb) {
            (Thumb::Absent, Thumb::Ready { slot: _, at: _, tw: _, th: _ }) => true,
            _ => false,
        };
        if c.readable && !c.cloud && missing {
            self.set_picture(i, SlotKind::Anim, Thumb::Pending);
            self.jobs.total = self.jobs.total.wrapping_add(1);
            self.ask(Effect::RequestAnim { path: c.path });
        }
    }
}

/// The shape in which a clip is shown: that of its thumbnail, else the one known
/// from before, else that of its file as probed, else 16:9; within what the grid
/// shows.
pub open spec fn chip_shape(clips: Seq<Clip>, i: int, probed: Option<Aspect>) -> Aspect {
    if 0 <= i < clips.len() {
        match clips[i].thumb {
            Thumb::Ready { tw, th, .. } => crate::flex::shown_aspect(tw, th),
            _ => match clips[i].aspect {
                Some(a) => crate::flex::shown_aspect(a.w, a.h),
                None => match probed {
                    Some(a) => crate::flex::shown_aspect(a.w, a.h),
                    None => Aspect { w: 16, h: 9 },
                },
            },
        }
    } else {
        Aspect { w: 16, h: 9 }
    }
}

/// A rotation, in thousandths of a degree, is nearer to a quarter turn one way
/// or the other than to none or a half.
pub open spec fn is_quarter_turn(rotation: int) -> bool {
    let m = (if rotation < 0 {
        -rotation
    } else {
        rotation
    }) % 180_000;
    45_000 <= m < 135_000
}

/// The displayed shape of a file as probed: its coded size, turned.
pub open spec fn probed_shape(w: Option<u32>, h: Option<u32>, rotation: Option<i64>) -> Option<
    Aspect,
> {
    match (w, h) {
        (Some(w), Some(h)) => {
            let (w, h) = if rotation matches Some(r) && is_quarter_turn(r as int) {
                (h, w)
            } else {
                (w, h)
            };
            if h > 0 {
                Some(Aspect { w, h })
            } else {
                None
            }
        },
        _ => None,
    }
}

/// The displayed shape of a file as probed, its rotation in thousandths of a
/// degree.
pub fn meta_aspect_of(w: Option<u32>, h: Option<u32>, rotation: Option<i64>) -> (r: Option<Aspect>)
    ensures
        r == probed_shape(w, h, rotation),
{
    let quarter = match rotation {
        Some(r) => {
            let a: i128 = if r < 0 {
                -(r as i128)
            } else {
                r as i128
            };
            let m: i128 = a % 180_000;
            45_000 <= m && m < 135_000
        },
        None => false,
    };
    match (w, h) {
        (Some(w), Some(h)) => {
            let (w, h): (u32, u32) = if quarter {
                (h, w)
            } else {
                (w, h)
            };
            if h > 0 {
                Some(Aspect { w, h })
            } else {
                None
            }
        },
        _ => None,
    }
}

impl Switchblade {
    /// The shape in which clip `i` is shown; `probed` is that of its file, where
    /// it is known.
    pub fn chip_aspect(&self, i: usize, probed: Option<Aspect>) -> (a: Aspect)
        ensures
            a == chip_shape(self@.clips, i as int, probed),
            a.wf(),
    {
        if i >= self.clips.len() {
            return Aspect { w: 16, h: 9 };
        }
        let c = self.clips[i];
        match c.thumb {
            Thumb::Ready { slot: _, at: _, tw, th } => clamp_aspect(tw, th),
            _ => match c.aspect {
                Some(a) => clamp_aspect(a.w, a.h),
                None => match probed {
                    Some(a) => clamp_aspect(a.w, a.h),
                    None => Aspect { w: 16, h: 9 },
                },
            },
        }
    }

    /// The width of a chapter's chip of height `ch`: the selected clip's shape.
    pub fn chapter_width(&self, probed: Option<Aspect>, ch: i128) -> (w: i128)
        requires
            0 <= ch <= crate::flex::HEIGHT_LIMIT,
        ensures
            w == crate::flex::width_at(
                chip_shape(self@.clips, self@.refs.selected as int, probed),
                ch as int,
            ),
    {
        crate::flex::tile_width(self.chip_aspect(self.refs.selected, probed), ch)
    }

    /// Keeps the probed shape of the selected clip where none is known: the
    /// grid's rows change with it.
    pub fn resolve_selected_aspect(&mut self, probed: Option<Aspect>)
        requires
            old(self)@.wf(),
        ensures
            final(self)@ == (match (old(self)@.selected_clip(), probed) {
                (Some(c), Some(a)) => if c.aspect is None {
                    State {
                        clips: old(self)@.clips.update(
                            old(self)@.refs.selected as int,
                            Clip { aspect: Some(a), ..c },
                        ),
                        scene: Scene {
                            grid_rev: old(self)@.scene.grid_rev.wrapping_add(1),
                            ..old(self)@.scene
                        },
                        ..old(self)@
                    }
                } else {
                    old(self)@
                },
                _ => old(self)@,
            }),
            final(self)@.wf(),
    {
        let i: usize = self.refs.selected;
        if i >= self.clips.len() {
            return;
        }
        let c = self.clips[i];
        if c.aspect.is_some() {
            return;
        }
        match probed {
            Some(a) => {
                let n = Clip { aspect: Some(a), ..c };
                proof {
                    clip_change_keeps_tied(self@, i as int, n);
                }
                self.clips.set(i, n);
                self.scene.grid_rev = self.scene.grid_rev.wrapping_add(1);
            },
            None => {},
        }
    }
}

} // verus!
