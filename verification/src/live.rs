//! The streams: which clips play, which are kept warm, and when one starts or
//! ends.
//!
//! What a frame does to them comes in steps, between which whoever runs the
//! decoders starts those that a step asks for.

use vstd::prelude::*;

use crate::atlas::Zone;
use crate::grid::Layout;
use crate::metas::{is_stale, stale, Meta};
use crate::model::{Effect, LiveState, Resume, SelLive, SlotKind, SlotOwner, Thumb};
use crate::state::{elapsed, Lanes, State, Switchblade};

verus! {

/// How long a path whose stream failed is left alone.
pub const LIVE_RETRY_COOLDOWN: u64 = 30_000_000_000;

/// How far a stream may be from where its clip was last seen to play before it
/// is moved there.
pub const HANDOFF_SLACK: i64 = 500_000_000;

/// What is seen of a decoder.
#[derive(Clone, Copy, PartialEq, Eq, Structural, Debug)]
pub struct LaneSight {
    pub generation: u64,
    pub failed: bool,
    /// How many frames wait to be shown.
    pub buffered: usize,
    pub position: i64,
}

/// A decoder to start: for which clip, how large its thumbnail is, and where to
/// begin, if not where the thumbnail was taken.
#[derive(Clone, Copy, PartialEq, Eq, Structural, Debug)]
pub struct Spawn {
    pub clip: usize,
    pub path: u64,
    pub tw: u32,
    pub th: u32,
    pub resume: Option<i64>,
}

/// What is seen of decoder `generation`, from sight `k` on; one that is not
/// seen has no frame and stands at the beginning.
pub open spec fn sight_of(seen: Seq<LaneSight>, generation: u64, k: int) -> LaneSight
    decreases seen.len() - k,
{
    if k >= seen.len() || k < 0 {
        LaneSight { generation, failed: false, buffered: 0, position: 0 }
    } else if seen[k].generation == generation {
        seen[k]
    } else {
        sight_of(seen, generation, k + 1)
    }
}

fn look_at(seen: &Vec<LaneSight>, generation: u64) -> (r: LaneSight)
    ensures
        r == sight_of(seen@, generation, 0),
{
    let mut k: usize = 0;
    while k < seen.len()
        invariant
            k <= seen@.len(),
            sight_of(seen@, generation, k as int) == sight_of(seen@, generation, 0),
        decreases seen@.len() - k,
    {
        if seen[k].generation == generation {
            return seen[k];
        }
        k += 1;
    }
    LaneSight { generation, failed: false, buffered: 0, position: 0 }
}

/// Decoder `generation` has failed.
pub open spec fn failed(seen: Seq<LaneSight>, generation: u64) -> bool {
    sight_of(seen, generation, 0).failed
}

impl State {
    /// Streams play.
    pub open spec fn lanes_on(self) -> bool {
        !self.setup.demo && !self.paused() && self.live()
    }

    /// Streams rest where they are, for want of the focus.
    pub open spec fn lanes_held(self) -> bool {
        !self.setup.demo && self.paused() && self.live()
    }

    /// The large stream follows the pointer.
    pub open spec fn follows_pointer(self) -> bool {
        self.attention() && !self.modal() && self.modes.mouse_attention && self.lanes_on()
    }

    /// The clip that the large stream plays or should play.
    pub open spec fn sel_target(self) -> Option<usize> {
        if self.lanes_on() {
            self.attention_target()
        } else if self.lanes_held() {
            match self.lanes.live_sel {
                Some(l) => Some(l.clip),
                None => None,
            }
        } else {
            None
        }
    }

    /// The clip that the small stream should play: the hovered chip of the
    /// filmstrip, or the hovered tile, other than the selection.
    pub open spec fn hover_target(self) -> Option<usize> {
        if !self.lanes_on() {
            None
        } else {
            let h = if self.modes.quickview {
                self.refs.strip_hover
            } else if self.attention() {
                None
            } else {
                self.refs.hovered
            };
            if h == Some(self.refs.selected) {
                None
            } else {
                h
            }
        }
    }

    /// The clips whose streams are kept warm, the likelier move first: the next
    /// clip, and in the grid the one below. None while the library or its
    /// layout is in flux.
    pub open spec fn warm_targets(self, lay: Layout) -> Seq<usize> {
        let n = self.clips.len();
        let s = self.refs.selected;
        if !(self.lanes_on() || self.lanes_held()) || self.refs.pending_reselect is Some
            || self.ribboning() || n == 0 {
            Seq::empty()
        } else {
            let next = if s + 1 < n {
                seq![(s + 1) as usize]
            } else {
                Seq::empty()
            };
            match lay.below(s as int) {
                Some(d) => if !self.modal() && d < n && d != s && !next.contains(d) {
                    next.push(d)
                } else {
                    next
                },
                None => next,
            }
        }
    }

    /// Path `path` failed so recently that it is left alone.
    pub open spec fn cooling(self, path: u64, now: u64) -> bool {
        self.live_retry.contains_key(path) && crate::state::since(now, self.live_retry[path])
            < LIVE_RETRY_COOLDOWN
    }

    /// The decoder to start for clip `i`, if its clip can play.
    pub open spec fn spawnable(self, i: usize, resume: Option<i64>, now: u64) -> Option<Spawn> {
        if i < self.clips.len() {
            let c = self.clips[i as int];
            match c.thumb {
                Thumb::Ready { tw, th, .. } => if c.readable && !c.cloud && !self.cooling(
                    c.path,
                    now,
                ) {
                    Some(Spawn { clip: i, path: c.path, tw, th, resume })
                } else {
                    None
                },
                _ => None,
            }
        } else {
            None
        }
    }

    /// The state without the hovered stream, whose slot is free.
    pub open spec fn hover_ended(self) -> State {
        match self.lanes.live_hover {
            Some(l) => State {
                lanes: Lanes { live_hover: None, ..self.lanes },
                slots: self.slots.update(l.slot as int, None),
                ..self
            },
            None => self,
        }
    }

    /// The state without a large stream that has failed.
    pub open spec fn sel_reaped(self, seen: Seq<LaneSight>, now: u64) -> State {
        match self.lanes.live_sel {
            Some(l) => if failed(seen, l.generation) {
                State {
                    lanes: Lanes { live_sel: None, ..self.lanes },
                    live_retry: self.live_retry.insert(l.path, now),
                    ..self
                }
            } else {
                self
            },
            None => self,
        }
    }

    /// The state without a hovered stream that has failed.
    pub open spec fn hover_reaped(self, seen: Seq<LaneSight>, now: u64) -> State {
        match self.lanes.live_hover {
            Some(l) => if failed(seen, l.generation) {
                let s = self.hover_ended();
                State {
                    live_retry: s.live_retry.insert(self.clips[l.clip as int].path, now),
                    ..s
                }
            } else {
                self
            },
            None => self,
        }
    }

    /// The state without warm streams that have failed.
    pub open spec fn warm_reaped(self, seen: Seq<LaneSight>, now: u64) -> State {
        State {
            warm: unfailed(self.warm, seen, self.warm.len() as int),
            live_retry: retried(self.live_retry, self.warm, seen, now, self.warm.len() as int),
            ..self
        }
    }

    /// The state without streams that have failed; their paths are left alone
    /// for a while.
    pub open spec fn reaped(self, seen: Seq<LaneSight>, now: u64) -> State {
        self.sel_reaped(seen, now).hover_reaped(seen, now).warm_reaped(seen, now)
    }

    /// The state without a large stream that should not play: it is kept warm
    /// where its clip is a likely next move. One that a new listing is waited
    /// for plays on.
    pub open spec fn sel_stopped(self, target: Option<usize>, warm: Seq<usize>) -> State {
        match self.lanes.live_sel {
            Some(l) => if target != Some(l.clip) && self.refs.pending_reselect != Some(
                l.path,
            ) {
                State {
                    lanes: Lanes { live_sel: None, ..self.lanes },
                    warm: if warm.contains(l.clip) {
                        self.warm.push(l)
                    } else {
                        self.warm
                    },
                    ..self
                }
            } else {
                self
            },
            None => self,
        }
    }

    /// The state with the place noted where the hovered stream is, or was when
    /// it ended, while the large stream is to play the same clip.
    pub open spec fn resume_noted(self, target: Option<usize>, seen: Seq<LaneSight>) -> State {
        let kept = match self.lanes.hover_resume {
            Some(r) => if target == Some(r.clip) {
                Some(r)
            } else {
                None
            },
            None => None,
        };
        let r = match self.lanes.live_hover {
            Some(h) => if h.first_frame is Some {
                Some(Resume { clip: h.clip, pos: sight_of(seen, h.generation, 0).position })
            } else {
                kept
            },
            None => kept,
        };
        State { lanes: Lanes { hover_resume: r, ..self.lanes }, ..self }
    }

    /// The state without a hovered stream that should not play.
    pub open spec fn hover_stopped(self, target: Option<usize>) -> State {
        match self.lanes.live_hover {
            Some(l) => if target != Some(l.clip) {
                self.hover_ended()
            } else {
                self
            },
            None => self,
        }
    }

    /// The state after the warm stream of the target, if there is one, has
    /// become the large one. It is moved to where the hovered stream of the
    /// same clip was, if that is some way off.
    pub open spec fn promoted(self, k: int, seen: Seq<LaneSight>) -> State {
        let l = self.warm[k];
        let s = State {
            lanes: Lanes { live_sel: Some(l), ..self.lanes },
            warm: self.warm.remove(k),
            ..self
        };
        match self.lanes.hover_resume {
            Some(r) => if r.clip == l.clip && apart(
                r.pos as int,
                sight_of(seen, l.generation, 0).position as int,
            ) {
                s.asked(Effect::SeekLane { generation: l.generation, to: r.pos })
            } else {
                s
            },
            None => s,
        }
    }

    /// The target has rested long enough for a decoder to start. The quick view
    /// does not wait.
    pub open spec fn sel_rested(self, now: u64) -> bool {
        ||| self.modes.quickview
        ||| self.follows_pointer() && crate::state::since(now, self.refs.hover_changed_at)
            >= self.setup.tuning.attention_delay
        ||| !self.follows_pointer() && crate::state::since(now, self.refs.sel_changed_at)
            >= self.setup.tuning.live_delay
    }

    /// Where the hovered stream of clip `i` was.
    pub open spec fn resume_of(self, i: usize) -> Option<i64> {
        match self.lanes.hover_resume {
            Some(r) => if r.clip == i {
                Some(r.pos)
            } else {
                None
            },
            None => None,
        }
    }

    /// The large stream is wanted and not there.
    pub open spec fn sel_wanted(self, target: Option<usize>) -> Option<usize> {
        if self.lanes.live_sel is None && self.refs.pending_reselect is None {
            target
        } else {
            None
        }
    }

    /// The state after a warm stream has been promoted, if one is wanted and
    /// there.
    pub open spec fn sel_promoted(self, target: Option<usize>, seen: Seq<LaneSight>) -> State {
        match self.sel_wanted(target) {
            Some(i) => match warm_place(self.warm, i, 0) {
                Some(k) => self.promoted(k, seen),
                None => self,
            },
            None => self,
        }
    }

    /// The large decoder to start: where one is wanted, none is warm and the
    /// target has rested.
    pub open spec fn sel_spawn(self, target: Option<usize>, now: u64) -> Option<Spawn> {
        match self.sel_wanted(target) {
            Some(i) => if warm_place(self.warm, i, 0) is None && self.sel_rested(now) {
                self.spawnable(i, self.resume_of(i), now)
            } else {
                None
            },
            None => None,
        }
    }

    /// The state after failed streams are gone and those that should not play
    /// have stopped.
    pub open spec fn live_stopped(self, lay: Layout, seen: Seq<LaneSight>, now: u64) -> State {
        self.reaped(seen, now).sel_stopped(self.sel_target(), self.warm_targets(lay)).resume_noted(
            self.sel_target(),
            seen,
        ).hover_stopped(self.hover_target())
    }

    /// The state after the first step of a frame: streams have stopped, and a
    /// warm one may play.
    pub open spec fn live_begun(self, lay: Layout, seen: Seq<LaneSight>, now: u64) -> State {
        self.live_stopped(lay, seen, now).sel_promoted(self.sel_target(), seen)
    }

    /// The state with a new large stream.
    pub open spec fn sel_started(self, at: Spawn, duration: Option<i64>, now: u64) -> State {
        State {
            lanes: Lanes {
                live_sel: Some(self.new_lane(at, duration, now)),
                next_lane_gen: self.lanes.next_lane_gen.wrapping_add(1),
                ..self.lanes
            },
            ..self
        }
    }

    /// A stream that starts.
    pub open spec fn new_lane(self, at: Spawn, duration: Option<i64>, now: u64) -> SelLive {
        SelLive {
            clip: at.clip,
            path: at.path,
            spawned: now,
            first_frame: None,
            duration,
            generation: self.lanes.next_lane_gen,
            served: 0,
        }
    }

    /// The state with a new warm stream.
    pub open spec fn warm_started(self, at: Spawn, duration: Option<i64>, now: u64) -> State {
        State {
            warm: self.warm.push(self.new_lane(at, duration, now)),
            lanes: Lanes {
                next_lane_gen: self.lanes.next_lane_gen.wrapping_add(1),
                ..self.lanes
            },
            ..self
        }
    }

    /// The state with only those warm streams that are likely next moves, unless
    /// a pinch has the layout in flux.
    pub open spec fn warm_pruned(self, lay: Layout) -> State {
        if self.ribboning() {
            self
        } else {
            State {
                warm: retained(self.warm, self.warm_targets(lay), self.warm.len() as int),
                ..self
            }
        }
    }

    /// A warm stream has no frame yet and is not old enough to be dead.
    pub open spec fn warming_up(self, seen: Seq<LaneSight>, now: u64) -> bool {
        exists|k: int| self.starting(seen, now, k)
    }

    pub open spec fn starting(self, seen: Seq<LaneSight>, now: u64, k: int) -> bool {
        0 <= k < self.warm.len() && sight_of(seen, self.warm[k].generation, 0).buffered == 0
            && crate::state::since(now, self.warm[k].spawned) < crate::media::WARM_FILL
    }

    /// The warm decoder to start, one at a time and only once the video being
    /// watched is on the screen: for the first likely move that has none.
    pub open spec fn warm_spawn(self, lay: Layout, seen: Seq<LaneSight>, now: u64) -> Option<Spawn> {
        let ready = self.lanes.live_sel matches Some(l) && l.first_frame is Some;
        if self.lanes_on() && ready && !self.warming_up(seen, now) && crate::state::since(
            now,
            self.refs.sel_changed_at,
        ) >= self.setup.tuning.live_delay {
            match unwarmed(self.warm, self.warm_targets(lay), 0) {
                Some(i) => self.spawnable(i, None, now),
                None => None,
            }
        } else {
            None
        }
    }

    /// The hovered clip whose decoder is to start: one that has rested long
    /// enough, or at once in the quick view.
    pub open spec fn hover_spawn(self, now: u64) -> Option<Spawn> {
        if self.lanes.live_hover is None && (self.modes.quickview || crate::state::since(
            now,
            self.refs.hover_changed_at,
        ) >= self.setup.tuning.live_delay) {
            match self.hover_target() {
                Some(i) => self.spawnable(i, None, now),
                None => None,
            }
        } else {
            None
        }
    }

    /// The state with a new hovered stream in a slot.
    pub open spec fn hover_started(self, clip: usize, slot: usize) -> State {
        State {
            slots: self.slots.update(slot as int, Some(SlotOwner { clip, kind: SlotKind::Live })),
            lanes: Lanes {
                live_hover: Some(
                    LiveState {
                        clip,
                        slot,
                        first_frame: None,
                        generation: self.lanes.next_lane_gen,
                        served: 0,
                    },
                ),
                next_lane_gen: self.lanes.next_lane_gen.wrapping_add(1),
                ..self.lanes
            },
            ..self
        }
    }

    /// The state after a frame of the hovered stream.
    pub open spec fn hover_served(self, now: u64) -> State {
        match self.lanes.live_hover {
            Some(l) => State {
                lanes: Lanes {
                    live_hover: Some(
                        LiveState {
                            first_frame: if l.first_frame is None {
                                Some(now)
                            } else {
                                l.first_frame
                            },
                            served: l.served.wrapping_add(1),
                            ..l
                        },
                    ),
                    ..self.lanes
                },
                ..self
            },
            None => self,
        }
    }

    /// The state after a frame of the large stream.
    pub open spec fn sel_served(self, now: u64) -> State {
        match self.lanes.live_sel {
            Some(l) => State {
                lanes: Lanes {
                    live_sel: Some(
                        SelLive {
                            first_frame: if l.first_frame is None {
                                Some(now)
                            } else {
                                l.first_frame
                            },
                            served: l.served.wrapping_add(1),
                            ..l
                        },
                    ),
                    hires_shown: Some(l.path),
                    ..self.lanes
                },
                ..self
            },
            None => self,
        }
    }

    /// The large stream rests: the focus is lost, or its tile is off the screen
    /// and no view shows it.
    pub open spec fn rests(self, lay: Layout, first: usize, last: usize) -> bool {
        match self.lanes.live_sel {
            Some(l) => {
                let i = if l.clip < self.clips.len() {
                    l.clip
                } else {
                    self.refs.selected
                };
                self.paused() || (!self.modal() && !(first <= lay.row_holding(i as int) <= last))
            },
            None => false,
        }
    }
}

/// The first of `targets`, from `k` on, that no warm stream plays.
pub open spec fn unwarmed(warm: Seq<SelLive>, targets: Seq<usize>, k: int) -> Option<usize>
    decreases targets.len() - k,
{
    if k >= targets.len() || k < 0 {
        None
    } else if warm_place(warm, targets[k], 0) is None {
        Some(targets[k])
    } else {
        unwarmed(warm, targets, k + 1)
    }
}

/// Two positions are further apart than a handover may leave them.
pub open spec fn apart(a: int, b: int) -> bool {
    a - b > HANDOFF_SLACK || b - a > HANDOFF_SLACK
}

/// Where the stream of clip `i` is among the warm ones, from `k` on.
pub open spec fn warm_place(warm: Seq<SelLive>, i: usize, k: int) -> Option<int>
    decreases warm.len() - k,
{
    if k >= warm.len() || k < 0 {
        None
    } else if warm[k].clip == i {
        Some(k)
    } else {
        warm_place(warm, i, k + 1)
    }
}

/// Of the first `n` streams, those that have not failed.
pub open spec fn unfailed(warm: Seq<SelLive>, seen: Seq<LaneSight>, n: int) -> Seq<SelLive>
    decreases n,
{
    if n <= 0 {
        Seq::empty()
    } else if failed(seen, warm[n - 1].generation) {
        unfailed(warm, seen, n - 1)
    } else {
        unfailed(warm, seen, n - 1).push(warm[n - 1])
    }
}

/// The failed paths, with those of the first `n` streams that have failed.
pub open spec fn retried(
    retry: Map<u64, u64>,
    warm: Seq<SelLive>,
    seen: Seq<LaneSight>,
    now: u64,
    n: int,
) -> Map<u64, u64>
    decreases n,
{
    if n <= 0 {
        retry
    } else {
        let r = retried(retry, warm, seen, now, n - 1);
        if failed(seen, warm[n - 1].generation) {
            r.insert(warm[n - 1].path, now)
        } else {
            r
        }
    }
}

/// Of the first `n` streams, those whose clip is in `targets`.
pub open spec fn retained(warm: Seq<SelLive>, targets: Seq<usize>, n: int) -> Seq<SelLive>
    decreases n,
{
    if n <= 0 {
        Seq::empty()
    } else if targets.contains(warm[n - 1].clip) {
        retained(warm, targets, n - 1).push(warm[n - 1])
    } else {
        retained(warm, targets, n - 1)
    }
}


proof fn unfailed_is_part(warm: Seq<SelLive>, seen: Seq<LaneSight>, n: int, m: int)
    requires
        0 <= n <= warm.len(),
        forall|k: int| 0 <= k < warm.len() ==> (#[trigger] warm[k]).clip < m,
    ensures
        forall|k: int| 0 <= k < unfailed(warm, seen, n).len() ==> (#[trigger] unfailed(warm, seen, n)[k]).clip < m,
    decreases n,
{
    if n > 0 {
        unfailed_is_part(warm, seen, n - 1, m);
    }
}

proof fn retained_is_part(warm: Seq<SelLive>, targets: Seq<usize>, n: int, m: int)
    requires
        0 <= n <= warm.len(),
        forall|k: int| 0 <= k < warm.len() ==> (#[trigger] warm[k]).clip < m,
    ensures
        forall|k: int| 0 <= k < retained(warm, targets, n).len() ==> (#[trigger] retained(warm, targets, n)[k]).clip < m,
    decreases n,
{
    if n > 0 {
        retained_is_part(warm, targets, n - 1, m);
    }
}

proof fn warm_change_keeps_tied(s: State, warm: Seq<SelLive>)
    requires
        s.wf(),
        forall|k: int| 0 <= k < warm.len() ==> (#[trigger] warm[k]).clip < s.clips.len(),
    ensures
        (State { warm, ..s }).wf(),
{
    reveal(crate::state::tied);
}

proof fn hover_end_keeps_tied(s: State)
    requires
        s.wf(),
    ensures
        s.hover_ended().wf(),
        s.lanes.live_hover matches Some(l) ==> l.slot < s.slots.len() && l.clip < s.clips.len(),
{
    reveal(crate::state::tied);
    match s.lanes.live_hover {
        Some(l) => {
            let t = s.hover_ended();
            assert forall|k: int| 0 <= k < t.slots.len() implies ((#[trigger] t.slots[k]) matches Some(
                q,
            ) ==> q.clip < t.clips.len()) by {
                assert(k != l.slot ==> t.slots[k] == s.slots[k]);
            }
            assert forall|k: int| 0 <= k < t.clips.len() implies {
                &&& (#[trigger] t.clips[k]).thumb matches Thumb::Ready { slot, .. } ==> slot
                    < t.slots.len() && t.slots[slot as int] == Some(
                    SlotOwner { clip: k as usize, kind: SlotKind::Static },
                )
                &&& t.clips[k].anim matches Thumb::Ready { slot, .. } ==> slot < t.slots.len()
                    && t.slots[slot as int] == Some(
                    SlotOwner { clip: k as usize, kind: SlotKind::Anim },
                )
            } by {
                let c = s.clips[k];
            }
        },
        None => {},
    }
}

proof fn hover_start_keeps_tied(s: State, clip: usize, slot: usize)
    requires
        s.wf(),
        clip < s.clips.len(),
        slot < s.slots.len(),
        s.slots[slot as int] is None,
        s.lanes.live_hover is None,
    ensures
        s.hover_started(clip, slot).wf(),
{
    reveal(crate::state::tied);
    let t = s.hover_started(clip, slot);
    assert forall|k: int| 0 <= k < t.slots.len() implies ((#[trigger] t.slots[k]) matches Some(q)
        ==> q.clip < t.clips.len()) by {
        assert(k != slot ==> t.slots[k] == s.slots[k]);
    }
    assert forall|k: int| 0 <= k < t.clips.len() implies {
        &&& (#[trigger] t.clips[k]).thumb matches Thumb::Ready { slot, .. } ==> slot < t.slots.len()
            && t.slots[slot as int] == Some(
            SlotOwner { clip: k as usize, kind: SlotKind::Static },
        )
        &&& t.clips[k].anim matches Thumb::Ready { slot, .. } ==> slot < t.slots.len()
            && t.slots[slot as int] == Some(SlotOwner { clip: k as usize, kind: SlotKind::Anim })
    } by {
        let c = s.clips[k];
    }
}

fn has_target(targets: &Vec<usize>, i: usize) -> (r: bool)
    ensures
        r == targets@.contains(i),
{
    let mut k: usize = 0;
    while k < targets.len()
        invariant
            k <= targets@.len(),
            forall|j: int| 0 <= j < k ==> (#[trigger] targets@[j]) != i,
        decreases targets@.len() - k,
    {
        if targets[k] == i {
            return true;
        }
        k += 1;
    }
    false
}

fn find_warm(warm: &Vec<SelLive>, i: usize) -> (r: Option<usize>)
    ensures
        match r {
            Some(k) => warm_place(warm@, i, 0) == Some(k as int) && k < warm@.len(),
            None => warm_place(warm@, i, 0) is None,
        },
{
    let mut k: usize = 0;
    while k < warm.len()
        invariant
            k <= warm@.len(),
            warm_place(warm@, i, k as int) == warm_place(warm@, i, 0),
        decreases warm@.len() - k,
    {
        if warm[k].clip == i {
            return Some(k);
        }
        k += 1;
    }
    None
}

impl Switchblade {
    fn on(&self) -> (r: bool)
        ensures
            r == self@.lanes_on(),
    {
        !self.setup.demo && !self.paused() && self.level().live()
    }

    fn held(&self) -> (r: bool)
        ensures
            r == self@.lanes_held(),
    {
        !self.setup.demo && self.paused() && self.level().live()
    }

    fn pick_sel(&self) -> (r: Option<usize>)
        ensures
            r == self@.sel_target(),
    {
        if self.on() {
            self.attention_target()
        } else if self.held() {
            match self.lanes.live_sel {
                Some(l) => Some(l.clip),
                None => None,
            }
        } else {
            None
        }
    }

    fn pick_hover(&self) -> (r: Option<usize>)
        ensures
            r == self@.hover_target(),
    {
        if !self.on() {
            return None;
        }
        let h: Option<usize> = if self.modes.quickview {
            self.refs.strip_hover
        } else if self.attention() {
            None
        } else {
            self.refs.hovered
        };
        match h {
            Some(i) => if i == self.refs.selected {
                None
            } else {
                Some(i)
            },
            None => None,
        }
    }

    fn pick_warm(&self, lay: &Layout) -> (v: Vec<usize>)
        requires
            self@.wf(),
            lay.wf(),
            lay.within_range(),
            lay.len == self@.clips.len(),
        ensures
            v@ == self@.warm_targets(*lay),
            forall|k: int| 0 <= k < v@.len() ==> (#[trigger] v@[k]) < self@.clips.len(),
    {
        let mut v: Vec<usize> = Vec::new();
        let n: usize = self.clips.len();
        let s: usize = self.refs.selected;
        if !(self.on() || self.held()) || self.refs.pending_reselect.is_some()
            || self.scene.ribbon.is_some() || self.scene.settling || n == 0 {
            return v;
        }
        if s + 1 < n {
            v.push(s + 1);
        }
        assert(v@ =~= (if s + 1 < n {
            seq![(s + 1) as usize]
        } else {
            Seq::empty()
        }));
        match lay.clip_below(s) {
            Some(d) => {
                if !(self.modes.quickview || self.modes.fullview) && d < n && d != s && !has_target(
                    &v,
                    d,
                ) {
                    v.push(d);
                }
            },
            None => {},
        }
        v
    }

    /// Whether the stream of a path failed so recently that it is left alone.
    pub fn live_cooling(&self, path: u64, now: u64) -> (r: bool)
        ensures
            r == self@.cooling(path, now),
    {
        match self.live_retry.get(&path) {
            Some(at) => elapsed(now, *at) < LIVE_RETRY_COOLDOWN,
            None => false,
        }
    }

    fn plan_spawn(&self, i: usize, resume: Option<i64>, now: u64) -> (r: Option<Spawn>)
        ensures
            r == self@.spawnable(i, resume, now),
            r matches Some(s) ==> s.clip < self@.clips.len(),
    {
        if i >= self.clips.len() {
            return None;
        }
        let c = self.clips[i];
        match c.thumb {
            Thumb::Ready { slot: _, at: _, tw, th } => {
                if c.readable && !c.cloud && !self.live_cooling(c.path, now) {
                    Some(Spawn { clip: i, path: c.path, tw, th, resume })
                } else {
                    None
                }
            },
            _ => None,
        }
    }

    fn end_hover(&mut self)
        requires
            old(self)@.wf(),
        ensures
            final(self)@ == old(self)@.hover_ended(),
            final(self)@.wf(),
    {
        proof {
            hover_end_keeps_tied(self@);
        }
        match self.lanes.live_hover {
            Some(l) => {
                self.lanes.live_hover = None;
                self.slots.set(l.slot, None);
            },
            None => {},
        }
    }

    fn reap_sel(&mut self, seen: &Vec<LaneSight>, now: u64)
        requires
            old(self)@.wf(),
        ensures
            final(self)@ == old(self)@.sel_reaped(seen@, now),
            final(self)@.wf(),
    {
        match self.lanes.live_sel {
            Some(l) => {
                if look_at(seen, l.generation).failed {
                    self.lanes.live_sel = None;
                    self.live_retry.insert(l.path, now);
                }
            },
            None => {},
        }
    }

    fn reap_hover(&mut self, seen: &Vec<LaneSight>, now: u64)
        requires
            old(self)@.wf(),
        ensures
            final(self)@ == old(self)@.hover_reaped(seen@, now),
            final(self)@.wf(),
    {
        proof {
            hover_end_keeps_tied(self@);
        }
        match self.lanes.live_hover {
            Some(l) => {
                if look_at(seen, l.generation).failed {
                    let path: u64 = self.clips[l.clip].path;
                    self.end_hover();
                    self.live_retry.insert(path, now);
                }
            },
            None => {},
        }
    }

    fn reap_warm(&mut self, seen: &Vec<LaneSight>, now: u64)
        requires
            old(self)@.wf(),
        ensures
            final(self)@ == old(self)@.warm_reaped(seen@, now),
            final(self)@.wf(),
    {
        let ghost before = self@;
        let mut kept: Vec<SelLive> = Vec::new();
        let mut k: usize = 0;
        while k < self.warm.len()
            invariant
                k <= self.warm@.len(),
                self@ == (State { live_retry: self@.live_retry, ..before }),
                kept@ == unfailed(before.warm, seen@, k as int),
                self@.live_retry == retried(before.live_retry, before.warm, seen@, now, k as int),
            decreases self.warm@.len() - k,
        {
            let w = self.warm[k];
            if look_at(seen, w.generation).failed {
                self.live_retry.insert(w.path, now);
            } else {
                kept.push(w);
            }
            k += 1;
        }
        proof {
            assert(forall|k: int| 0 <= k < before.warm.len() ==> (#[trigger] before.warm[k]).clip
                < before.clips.len()) by {
                reveal(crate::state::tied);
            }
            unfailed_is_part(before.warm, seen@, before.warm.len() as int, before.clips.len() as int);
            warm_change_keeps_tied(self@, kept@);
        }
        self.warm = kept;
    }

    fn stop_sel(&mut self, target: Option<usize>, warm: &Vec<usize>)
        requires
            old(self)@.wf(),
            forall|k: int| 0 <= k < warm@.len() ==> (#[trigger] warm@[k]) < old(self)@.clips.len(),
        ensures
            final(self)@ == old(self)@.sel_stopped(target, warm@),
            final(self)@.wf(),
    {
        match self.lanes.live_sel {
            Some(l) => {
                let waited = match self.refs.pending_reselect {
                    Some(p) => p == l.path,
                    None => false,
                };
                let aimed = match target {
                    Some(i) => i == l.clip,
                    None => false,
                };
                if !aimed && !waited {
                    self.lanes.live_sel = None;
                    if has_target(warm, l.clip) {
                        proof {
                            let k = choose|k: int| 0 <= k < warm@.len() && warm@[k] == l.clip;
                            assert(warm@[k] < self@.clips.len());
                            assert forall|k: int|
                                0 <= k < self@.warm.push(l).len() implies (
                            #[trigger] self@.warm.push(l)[k]).clip < self@.clips.len() by {
                                reveal(crate::state::tied);
                                if k < self@.warm.len() {
                                    assert(self@.warm[k].clip < self@.clips.len());
                                }
                            }
                            warm_change_keeps_tied(self@, self@.warm.push(l));
                        }
                        self.warm.push(l);
                    }
                }
            },
            None => {},
        }
    }

    fn note_resume(&mut self, target: Option<usize>, seen: &Vec<LaneSight>)
        requires
            old(self)@.wf(),
        ensures
            final(self)@ == old(self)@.resume_noted(target, seen@),
            final(self)@.wf(),
    {
        let kept: Option<Resume> = match (self.lanes.hover_resume, target) {
            (Some(r), Some(i)) => if r.clip == i {
                Some(r)
            } else {
                None
            },
            _ => None,
        };
        self.lanes.hover_resume = match self.lanes.live_hover {
            Some(h) => if h.first_frame.is_some() {
                Some(Resume { clip: h.clip, pos: look_at(seen, h.generation).position })
            } else {
                kept
            },
            None => kept,
        };
    }

    fn stop_hover(&mut self, target: Option<usize>)
        requires
            old(self)@.wf(),
        ensures
            final(self)@ == old(self)@.hover_stopped(target),
            final(self)@.wf(),
    {
        match self.lanes.live_hover {
            Some(l) => {
                let aimed = match target {
                    Some(i) => i == l.clip,
                    None => false,
                };
                if !aimed {
                    self.end_hover();
                }
            },
            None => {},
        }
    }

    fn promote(&mut self, k: usize, seen: &Vec<LaneSight>)
        requires
            old(self)@.wf(),
            k < old(self)@.warm.len(),
        ensures
            final(self)@ == old(self)@.promoted(k as int, seen@),
            final(self)@.wf(),
    {
        let ghost before = self@;
        let l = self.warm.remove(k);
        proof {
            assert forall|j: int| 0 <= j < before.warm.remove(k as int).len() implies (
            #[trigger] before.warm.remove(k as int)[j]).clip < before.clips.len() by {
                reveal(crate::state::tied);
                if j < k {
                    assert(before.warm[j].clip < before.clips.len());
                } else {
                    assert(before.warm[j + 1].clip < before.clips.len());
                }
            }
            warm_change_keeps_tied(before, before.warm.remove(k as int));
        }
        self.lanes.live_sel = Some(l);
        match self.lanes.hover_resume {
            Some(r) => {
                let at: i64 = look_at(seen, l.generation).position;
                let d: i128 = r.pos as i128 - at as i128;
                if r.clip == l.clip && (d > HANDOFF_SLACK as i128 || -d > HANDOFF_SLACK as i128) {
                    self.ask(Effect::SeekLane { generation: l.generation, to: r.pos });
                }
            },
            None => {},
        }
    }

    fn reap(&mut self, seen: &Vec<LaneSight>, now: u64)
        requires
            old(self)@.wf(),
        ensures
            final(self)@ == old(self)@.reaped(seen@, now),
            final(self)@.clips == old(self)@.clips,
            final(self)@.wf(),
    {
        self.reap_sel(seen, now);
        self.reap_hover(seen, now);
        self.reap_warm(seen, now);
    }
}


impl Switchblade {
    fn stop_lanes(&mut self, lay: &Layout, seen: &Vec<LaneSight>, now: u64)
        requires
            old(self)@.wf(),
            lay.wf(),
            lay.within_range(),
            lay.len == old(self)@.clips.len(),
        ensures
            final(self)@ == old(self)@.live_stopped(*lay, seen@, now),
            final(self)@.wf(),
    {
        let target = self.pick_sel();
        let hover = self.pick_hover();
        let warm = self.pick_warm(lay);
        self.reap(seen, now);
        self.stop_sel(target, &warm);
        self.note_resume(target, seen);
        self.stop_hover(hover);
    }

    fn promote_warm(&mut self, target: Option<usize>, seen: &Vec<LaneSight>)
        requires
            old(self)@.wf(),
        ensures
            final(self)@ == old(self)@.sel_promoted(target, seen@),
            final(self)@.wf(),
    {
        if self.lanes.live_sel.is_none() && self.refs.pending_reselect.is_none() {
            match target {
                Some(i) => match find_warm(&self.warm, i) {
                    Some(k) => {
                        self.promote(k, seen);
                    },
                    None => {},
                },
                None => {},
            }
        }
    }

    fn plan_sel(&self, target: Option<usize>, now: u64) -> (r: Option<Spawn>)
        requires
            self@.wf(),
        ensures
            r == self@.sel_spawn(target, now),
            r matches Some(s) ==> s.clip < self@.clips.len(),
    {
        if !(self.lanes.live_sel.is_none() && self.refs.pending_reselect.is_none()) {
            return None;
        }
        let i: usize = match target {
            Some(i) => i,
            None => {
                return None;
            },
        };
        if find_warm(&self.warm, i).is_some() {
            return None;
        }
        let by_pointer = self.attention() && !(self.modes.quickview || self.modes.fullview)
            && self.modes.mouse_attention && self.on();
        let rested = self.modes.quickview || if by_pointer {
            elapsed(now, self.refs.hover_changed_at) >= self.setup.tuning.attention_delay
        } else {
            elapsed(now, self.refs.sel_changed_at) >= self.setup.tuning.live_delay
        };
        if !rested {
            return None;
        }
        let resume: Option<i64> = match self.lanes.hover_resume {
            Some(r) => if r.clip == i {
                Some(r.pos)
            } else {
                None
            },
            None => None,
        };
        self.plan_spawn(i, resume, now)
    }

    /// The first step of a frame for the streams: drops what failed, stops what
    /// should not play, and lets a warm stream take over where one is there.
    /// Returns the large decoder to start, if any.
    pub fn begin_live(&mut self, lay: &Layout, seen: &Vec<LaneSight>, now: u64) -> (r: Option<Spawn>)
        requires
            old(self)@.wf(),
            lay.wf(),
            lay.within_range(),
            lay.len == old(self)@.clips.len(),
        ensures
            final(self)@ == old(self)@.live_begun(*lay, seen@, now),
            r == old(self)@.live_stopped(*lay, seen@, now).sel_spawn(
                old(self)@.sel_target(),
                now,
            ),
            r matches Some(s) ==> s.clip < final(self)@.clips.len(),
            final(self)@.wf(),
    {
        let target = self.pick_sel();
        self.stop_lanes(lay, seen, now);
        let r = self.plan_sel(target, now);
        self.promote_warm(target, seen);
        r
    }

    /// The large decoder has been started.
    pub fn sel_live_started(&mut self, at: Spawn, duration: Option<i64>, now: u64)
        requires
            old(self)@.wf(),
        ensures
            final(self)@ == old(self)@.sel_started(at, duration, now),
            final(self)@.wf(),
    {
        let generation: u64 = self.lanes.next_lane_gen;
        self.lanes.next_lane_gen = generation.wrapping_add(1);
        self.lanes.live_sel = Some(
            SelLive {
                clip: at.clip,
                path: at.path,
                spawned: now,
                first_frame: None,
                duration,
                generation,
                served: 0,
            },
        );
    }

    fn prune_warm(&mut self, lay: &Layout)
        requires
            old(self)@.wf(),
            lay.wf(),
            lay.within_range(),
            lay.len == old(self)@.clips.len(),
        ensures
            final(self)@ == old(self)@.warm_pruned(*lay),
            final(self)@.wf(),
    {
        if self.scene.ribbon.is_some() || self.scene.settling {
            return;
        }
        let targets = self.pick_warm(lay);
        let ghost before = self@;
        let mut kept: Vec<SelLive> = Vec::new();
        let mut k: usize = 0;
        while k < self.warm.len()
            invariant
                k <= self.warm@.len(),
                self@ == before,
                kept@ == retained(before.warm, targets@, k as int),
            decreases self.warm@.len() - k,
        {
            let w = self.warm[k];
            if has_target(&targets, w.clip) {
                kept.push(w);
            }
            k += 1;
        }
        proof {
            assert(forall|k: int| 0 <= k < before.warm.len() ==> (#[trigger] before.warm[k]).clip
                < before.clips.len()) by {
                reveal(crate::state::tied);
            }
            retained_is_part(
                before.warm,
                targets@,
                before.warm.len() as int,
                before.clips.len() as int,
            );
            warm_change_keeps_tied(self@, kept@);
        }
        self.warm = kept;
    }

    fn warms_up(&self, seen: &Vec<LaneSight>, now: u64) -> (r: bool)
        ensures
            r == self@.warming_up(seen@, now),
    {
        let mut k: usize = 0;
        while k < self.warm.len()
            invariant
                k <= self.warm@.len(),
                forall|j: int| 0 <= j < k ==> !self@.starting(seen@, now, j),
            decreases self.warm@.len() - k,
        {
            let w = self.warm[k];
            if look_at(seen, w.generation).buffered == 0 && elapsed(now, w.spawned)
                < crate::media::WARM_FILL {
                assert(self@.starting(seen@, now, k as int));
                return true;
            }
            k += 1;
        }
        false
    }

    fn plan_warm(&self, lay: &Layout, seen: &Vec<LaneSight>, now: u64) -> (r: Option<Spawn>)
        requires
            self@.wf(),
            lay.wf(),
            lay.within_range(),
            lay.len == self@.clips.len(),
        ensures
            r == self@.warm_spawn(*lay, seen@, now),
            r matches Some(s) ==> s.clip < self@.clips.len(),
    {
        let ready = match self.lanes.live_sel {
            Some(l) => l.first_frame.is_some(),
            None => false,
        };
        if !self.on() || !ready || self.warms_up(seen, now) || elapsed(now, self.refs.sel_changed_at)
            < self.setup.tuning.live_delay {
            return None;
        }
        let targets = self.pick_warm(lay);
        let mut k: usize = 0;
        while k < targets.len()
            invariant
                k <= targets@.len(),
                unwarmed(self.warm@, targets@, k as int) == unwarmed(self.warm@, targets@, 0),
                targets@ == self@.warm_targets(*lay),
                self@.lanes_on(),
                self@.lanes.live_sel matches Some(l) && l.first_frame is Some,
                !self@.warming_up(seen@, now),
                crate::state::since(now, self@.refs.sel_changed_at)
                    >= self@.setup.tuning.live_delay,
            decreases targets@.len() - k,
        {
            let i: usize = targets[k];
            if find_warm(&self.warm, i).is_none() {
                return self.plan_spawn(i, None, now);
            }
            k += 1;
        }
        None
    }

    /// The second step: keeps only the warm streams of likely next moves, and
    /// returns the warm decoder to start, if any.
    pub fn tend_warm(&mut self, lay: &Layout, seen: &Vec<LaneSight>, now: u64) -> (r: Option<Spawn>)
        requires
            old(self)@.wf(),
            lay.wf(),
            lay.within_range(),
            lay.len == old(self)@.clips.len(),
        ensures
            final(self)@ == old(self)@.warm_pruned(*lay),
            r == final(self)@.warm_spawn(*lay, seen@, now),
            r matches Some(s) ==> s.clip < final(self)@.clips.len(),
            final(self)@.wf(),
    {
        self.prune_warm(lay);
        self.plan_warm(lay, seen, now)
    }

    /// The warm decoder has been started.
    pub fn warm_live_started(&mut self, at: Spawn, duration: Option<i64>, now: u64)
        requires
            old(self)@.wf(),
            at.clip < old(self)@.clips.len(),
        ensures
            final(self)@ == old(self)@.warm_started(at, duration, now),
            final(self)@.wf(),
    {
        let generation: u64 = self.lanes.next_lane_gen;
        let l = SelLive {
            clip: at.clip,
            path: at.path,
            spawned: now,
            first_frame: None,
            duration,
            generation,
            served: 0,
        };
        proof {
            assert forall|k: int| 0 <= k < self@.warm.push(l).len() implies (
            #[trigger] self@.warm.push(l)[k]).clip < self@.clips.len() by {
                reveal(crate::state::tied);
                if k < self@.warm.len() {
                    assert(self@.warm[k].clip < self@.clips.len());
                }
            }
            warm_change_keeps_tied(self@, self@.warm.push(l));
        }
        self.warm.push(l);
        self.lanes.next_lane_gen = generation.wrapping_add(1);
    }

    fn plan_hover(&self, now: u64) -> (r: Option<Spawn>)
        ensures
            r == self@.hover_spawn(now),
            r matches Some(s) ==> s.clip < self@.clips.len(),
    {
        if self.lanes.live_hover.is_some() {
            return None;
        }
        if !(self.modes.quickview || elapsed(now, self.refs.hover_changed_at)
            >= self.setup.tuning.live_delay) {
            return None;
        }
        match self.pick_hover() {
            Some(i) => self.plan_spawn(i, None, now),
            None => None,
        }
    }

    /// The third step: returns the hovered decoder to start, if any, and the
    /// slot that its frames go to, which has been emptied.
    pub fn begin_hover(&mut self, lay: &Layout, zone: Zone, now: u64) -> (r: Option<(Spawn, usize)>)
        requires
            old(self)@.wf(),
            lay.wf(),
        ensures
            match old(self)@.hover_spawn(now) {
                Some(at) => {
                    &&& final(self)@ == old(self)@.slot_cleared(*lay, zone, SlotKind::Live)
                    &&& match old(self)@.slot_for(*lay, zone, SlotKind::Live) {
                        Some(slot) => r == Some((at, slot)),
                        None => r is None,
                    }
                },
                None => final(self)@ == old(self)@ && r is None,
            },
            r matches Some((at, slot)) ==> at.clip < final(self)@.clips.len() && slot
                < final(self)@.slots.len() && final(self)@.slots[slot as int] is None
                && final(self)@.lanes.live_hover is None,
            final(self)@.wf(),
    {
        match self.plan_hover(now) {
            Some(at) => {
                let slot = self.alloc_slot(lay, zone, SlotKind::Live);
                proof {
                    reveal(State::slot_cleared);
                }
                match slot {
                    Some(slot) => Some((at, slot)),
                    None => None,
                }
            },
            None => None,
        }
    }

    /// The hovered decoder has been started.
    pub fn hover_live_started(&mut self, clip: usize, slot: usize)
        requires
            old(self)@.wf(),
            clip < old(self)@.clips.len(),
            slot < old(self)@.slots.len(),
            old(self)@.slots[slot as int] is None,
            old(self)@.lanes.live_hover is None,
        ensures
            final(self)@ == old(self)@.hover_started(clip, slot),
            final(self)@.wf(),
    {
        proof {
            hover_start_keeps_tied(self@, clip, slot);
        }
        let generation: u64 = self.lanes.next_lane_gen;
        self.lanes.next_lane_gen = generation.wrapping_add(1);
        self.slots.set(slot, Some(SlotOwner { clip, kind: SlotKind::Live }));
        self.lanes.live_hover = Some(
            LiveState { clip, slot, first_frame: None, generation, served: 0 },
        );
    }

    /// A frame of the hovered stream is there. Returns the slot it goes to.
    pub fn serve_hover(&mut self, now: u64) -> (slot: Option<usize>)
        requires
            old(self)@.wf(),
        ensures
            final(self)@ == old(self)@.hover_served(now),
            slot == (match old(self)@.lanes.live_hover {
                Some(l) => Some(l.slot),
                None => None,
            }),
            final(self)@.wf(),
    {
        match self.lanes.live_hover {
            Some(l) => {
                let first: Option<u64> = if l.first_frame.is_none() {
                    Some(now)
                } else {
                    l.first_frame
                };
                self.lanes.live_hover = Some(
                    LiveState { first_frame: first, served: l.served.wrapping_add(1), ..l },
                );
                proof {
                    reveal(crate::state::tied);
                }
                Some(l.slot)
            },
            None => None,
        }
    }

    /// The last step: lets the large stream rest where nothing shows it, given
    /// the rows on the screen.
    pub fn park(&mut self, lay: &Layout, first: usize, last: usize)
        requires
            old(self)@.wf(),
            lay.wf(),
        ensures
            final(self)@ == (State {
                lanes: Lanes {
                    sel_parked: old(self)@.rests(*lay, first, last),
                    ..old(self)@.lanes
                },
                ..old(self)@
            }),
            final(self)@.wf(),
    {
        self.lanes.sel_parked = match self.lanes.live_sel {
            Some(l) => {
                let i: usize = if l.clip < self.clips.len() {
                    l.clip
                } else {
                    self.refs.selected
                };
                let row: usize = lay.row_of(i);
                proof {
                    crate::grid::row_of_is_one(*lay, i as int, row as int);
                }
                self.paused() || (!(self.modes.quickview || self.modes.fullview) && !(first <= row
                    && row <= last))
            },
            None => false,
        };
    }

    /// A frame of the large stream is there.
    pub fn serve_sel(&mut self, now: u64)
        requires
            old(self)@.wf(),
        ensures
            final(self)@ == old(self)@.sel_served(now),
            final(self)@.wf(),
    {
        match self.lanes.live_sel {
            Some(l) => {
                let first: Option<u64> = if l.first_frame.is_none() {
                    Some(now)
                } else {
                    l.first_frame
                };
                self.lanes.live_sel = Some(
                    SelLive { first_frame: first, served: l.served.wrapping_add(1), ..l },
                );
                self.lanes.hires_shown = Some(l.path);
            },
            None => {},
        }
    }

    /// Asks, once for each path, for the probe of a clip to be made anew where
    /// what is cached of it is incomplete or of another path.
    pub fn heal_meta(&mut self, meta: Option<Meta>, path: u64)
        requires
            old(self)@.wf(),
        ensures
            final(self)@ == (if is_stale(meta, path) && !old(self)@.reprobed.contains(path) {
                State { reprobed: old(self)@.reprobed.insert(path), ..old(self)@ }.asked(
                    Effect::RequestReprobe { path },
                )
            } else {
                old(self)@
            }),
            final(self)@.wf(),
    {
        if stale(meta, path) && !self.reprobed.contains(&path) {
            self.reprobed.insert(path);
            self.ask(Effect::RequestReprobe { path });
        }
    }
}

/// How large a source is taken to be: as probed, or four times its thumbnail;
/// turned where it is turned by a quarter.
pub open spec fn source_size(
    w: Option<u32>,
    h: Option<u32>,
    rotation: Option<i64>,
    tw: u32,
    th: u32,
) -> (int, int) {
    let (w, h) = match (w, h) {
        (Some(w), Some(h)) => (w as int, h as int),
        _ => (tw * 4, th * 4),
    };
    if rotation matches Some(r) && crate::media::is_quarter_turn(r as int) {
        (h, w)
    } else {
        (w, h)
    }
}

/// A source of `w` by `h` as large as it fits a box of `bw` by `bh`, never
/// enlarged, and at least two pixels each way.
pub open spec fn fitted(w: int, h: int, bw: int, bh: int) -> (int, int) {
    let (a, b) = if w <= bw && h <= bh {
        (w, h)
    } else if bw * h <= bh * w {
        (bw, bw * h / w)
    } else {
        (bh * w / h, bh)
    };
    (
        if a < 2 {
            2
        } else {
            a
        },
        if b < 2 {
            2
        } else {
            b
        },
    )
}

/// The size at which a large stream is decoded: its source's, within the large
/// texture of `bw` by `bh`.
pub fn decode_size(
    w: Option<u32>,
    h: Option<u32>,
    rotation: Option<i64>,
    tw: u32,
    th: u32,
    bw: u32,
    bh: u32,
) -> (r: (u64, u64))
    requires
        bw > 0,
        bh > 0,
    ensures
        ({
            let (sw, sh) = source_size(w, h, rotation, tw, th);
            (r.0 as int, r.1 as int) == fitted(sw, sh, bw as int, bh as int)
        }),
{
    let (w, h): (u64, u64) = match (w, h) {
        (Some(w), Some(h)) => (w as u64, h as u64),
        _ => (tw as u64 * 4, th as u64 * 4),
    };
    let quarter = match rotation {
        Some(r) => {
            let a: i128 = if r < 0 {
                -(r as i128)
            } else {
                r as i128
            };
            let m: i128 = a % 180_000;
            45_000 <= m && m < 135_000
        },
        None => false,
    };
    let (sw, sh): (u128, u128) = if quarter {
        (h as u128, w as u128)
    } else {
        (w as u128, h as u128)
    };
    let (bw, bh): (u128, u128) = (bw as u128, bh as u128);
    proof {
        small_product(bw as int, sh as int);
        small_product(bh as int, sw as int);
    }
    let (a, b): (u128, u128) = if sw <= bw && sh <= bh {
        (sw, sh)
    } else if bw * sh <= bh * sw {
        proof {
            scaled_fits(bw as int, sh as int, bh as int, sw as int);
        }
        (bw, bw * sh / sw)
    } else {
        proof {
            scaled_fits(bh as int, sw as int, bw as int, sh as int);
        }
        (bh * sw / sh, bh)
    };
    (
        if a < 2 {
            2
        } else {
            a as u64
        },
        if b < 2 {
            2
        } else {
            b as u64
        },
    )
}

proof fn small_product(a: int, b: int)
    requires
        0 <= a <= 0xffff_ffff,
        0 <= b <= 4 * 0xffff_ffff,
    ensures
        0 <= a * b <= 4 * 0xffff_ffff * 0xffff_ffff,
{
    assert(0 <= a * b <= 4 * 0xffff_ffff * 0xffff_ffff) by (nonlinear_arith)
        requires
            0 <= a <= 0xffff_ffff,
            0 <= b <= 4 * 0xffff_ffff,
    ;
}

/// The shorter side of a box fitted to its longer one fits too.
proof fn scaled_fits(b1: int, s2: int, b2: int, s1: int)
    requires
        0 < b1 <= 0xffff_ffff,
        0 < b2 <= 0xffff_ffff,
        0 <= s1,
        0 <= s2,
        b1 * s2 <= b2 * s1,
        !(s1 <= b1 && s2 <= b2),
    ensures
        s1 > 0,
        0 <= b1 * s2 / s1 <= b2,
{
    if s1 == 0 {
        assert(b1 * s2 <= 0) by (nonlinear_arith)
            requires
                b1 * s2 <= b2 * s1,
                s1 == 0,
        ;
        assert(b1 * s2 > 0) by (nonlinear_arith)
            requires
                b1 > 0,
                s2 > 0,
        ;
    }
    assert(0 <= b1 * s2 / s1 <= b2) by (nonlinear_arith)
        requires
            s1 > 0,
            0 < b1,
            0 <= s2,
            b1 * s2 <= b2 * s1,
    ;
}

/// Where a stream starts: where it is to resume, else where the thumbnail was
/// taken, a fraction of the clip in billionths.
pub open spec fn start_at(resume: Option<i64>, duration: Option<i64>, fraction: u32) -> int {
    match resume {
        Some(p) => p as int,
        None => match duration {
            Some(d) => if d < 0 {
                0
            } else {
                d * fraction / 1_000_000_000
            },
            None => 0,
        },
    }
}

/// Where a stream starts.
pub fn start_position(resume: Option<i64>, duration: Option<i64>, fraction: u32) -> (r: i64)
    requires
        fraction <= 1_000_000_000,
    ensures
        r == start_at(resume, duration, fraction),
{
    match resume {
        Some(p) => p,
        None => match duration {
            Some(d) => if d < 0 {
                0
            } else {
                proof {
                    assert(0 <= d * fraction <= d * 1_000_000_000) by (nonlinear_arith)
                        requires
                            0 <= d,
                            0 <= fraction <= 1_000_000_000,
                    ;
                }
                ((d as i128) * (fraction as i128) / 1_000_000_000) as i64
            },
            None => 0,
        },
    }
}

} // verus!
