//! The selection: moves by key, jumps, and the slide show.

use vstd::prelude::*;

use crate::grid::Layout;
use crate::model::{Clip, Effect, SelLive};
use crate::rng::next_rand;
use crate::state::{elapsed, Modes, Refs, State, Switchblade};

verus! {

/// How long the loop stays awake after a change of the selection.
pub const SETTLE_WAKE: u64 = 600_000_000;

/// How long the slide show waits for a stream that has not shown a frame.
pub const AUTO_SKIP_SPAWN_GRACE: u64 = 3_000_000_000;

/// The shortest time that the slide show gives a clip.
pub const AUTO_SKIP_LEAST: u64 = 50_000_000;

/// The whole, where fractions are counted in billionths.
pub const BILLION: u32 = 1_000_000_000;

impl State {
    /// The state with another clip selected. A selection by hand ends the wait
    /// for a clip that was to become it.
    pub open spec fn chosen(self, i: usize, now: u64) -> State {
        if i == self.refs.selected {
            self
        } else {
            State {
                refs: Refs {
                    selected: i,
                    sel_changed_at: now,
                    pending_reselect: None,
                    ..self.refs
                },
                ..self
            }
        }
    }

    /// The state after the keyboard has moved the selection, which now has the
    /// attention and comes into view.
    pub open spec fn stepped_to(self, i: usize, now: u64) -> State {
        let s = self.chosen(i, now);
        State { modes: Modes { mouse_attention: false, ..s.modes }, ..s }.asked(
            Effect::ScrollToSelected,
        )
    }

    /// Where a move by `dx` clips or `dy` rows takes the selection. Sideways
    /// moves go through the library in its order.
    pub open spec fn move_target(self, dx: int, dy: int, lay: Layout) -> usize {
        if dy != 0 {
            lay.landing(self.refs.selected as int, dy)
        } else {
            let i = self.refs.selected + dx;
            if i < 0 {
                0
            } else if i > self.clips.len() - 1 {
                (self.clips.len() - 1) as usize
            } else {
                i as usize
            }
        }
    }

    /// The state after a move of the selection; an empty library has none.
    #[verifier::opaque]
    pub open spec fn selection_moved(self, dx: int, dy: int, lay: Layout, now: u64) -> State {
        if self.clips.len() == 0 {
            self
        } else {
            self.stepped_to(self.move_target(dx, dy, lay), now)
        }
    }

    /// The state after the selection has gone to clip `i` from afar: the
    /// filmstrip does not slide all the way. Nothing happens without the clip.
    pub open spec fn jumped_to(self, i: usize, now: u64) -> State {
        if i >= self.clips.len() {
            self
        } else {
            let s = self.stepped_to(i, now);
            let t = if self.modes.quickview {
                s.asked(Effect::SnapStripIfFar)
            } else {
                s
            };
            t.woken(now, SETTLE_WAKE)
        }
    }

    /// The state after a jump to one of the clips whose thumbnail is cached,
    /// other than the selection.
    #[verifier::opaque]
    pub open spec fn jumped_by(self, seed: u64, now: u64) -> State {
        let v = jump_targets(self.clips, self.refs.selected, self.clips.len() as int);
        if v.len() == 0 {
            self
        } else {
            self.jumped_to(v[(crate::rng::xorshift(seed) as int) % (v.len() as int)], now)
        }
    }

    /// When the first frame of the selected clip's stream came.
    pub open spec fn selected_first_frame(self) -> Option<u64> {
        match self.lanes.live_sel {
            Some(l) => if l.clip == self.refs.selected {
                l.first_frame
            } else {
                None
            },
            None => None,
        }
    }

    /// When the selected clip began to count as watched: with its first frame,
    /// or with the selection where no frame will come. A stream that is waited
    /// for has a grace.
    pub open spec fn watch_start(self, since: u64) -> u64 {
        match self.selected_first_frame() {
            Some(f) => crate::state::later(f, since),
            None => if !self.live() {
                crate::state::later(self.refs.sel_changed_at, since)
            } else {
                crate::state::soon(
                    crate::state::later(self.refs.sel_changed_at, since),
                    AUTO_SKIP_SPAWN_GRACE,
                )
            },
        }
    }

    /// How long the slide show gives a clip.
    pub open spec fn watch_time(self) -> u64 {
        crate::state::later(self.setup.tuning.auto_skip, AUTO_SKIP_LEAST)
    }

    /// How much of the clip's time in the slide show is over, in billionths,
    /// while it runs.
    pub open spec fn watched(self, now: u64) -> Option<u32> {
        match self.modes.auto_skip_since {
            Some(since) => if !self.modal() || self.clips.len() == 0 {
                None
            } else {
                let e = crate::state::since(now, self.watch_start(since));
                if e >= self.watch_time() {
                    Some(BILLION)
                } else {
                    Some((e * BILLION / (self.watch_time() as int)) as u32)
                }
            },
            None => None,
        }
    }

    /// The slide show rests.
    pub open spec fn watch_suspended(self) -> bool {
        ||| !self.modal()
        ||| self.clips.len() == 0
        ||| self.paused()
        ||| self.lanes.sel_parked
        ||| self.modes.scrubbing
        ||| self.refs.pending_reselect is Some
        ||| self.chapters is Some
    }

    /// The state after the slide show has looked at the clock.
    pub open spec fn auto_skipped(self, now: u64) -> State {
        if self.modes.auto_skip_since is None {
            self
        } else if self.watch_suspended() {
            State { modes: Modes { auto_skip_since: Some(now), ..self.modes }, ..self }
        } else if self.watched(now) == Some(BILLION) {
            let next = (self.refs.selected + 1) % (self.clips.len() as int);
            if next == self.refs.selected {
                self
            } else {
                self.jumped_to(next as usize, now)
            }
        } else {
            self
        }
    }
}

/// Of the first `n` clips, the places of those that a jump may lead to.
pub open spec fn jump_targets(clips: Seq<Clip>, selected: usize, n: int) -> Seq<usize>
    decreases n,
{
    if n <= 0 {
        Seq::empty()
    } else if n - 1 != selected && clips[n - 1].cached {
        jump_targets(clips, selected, n - 1).push((n - 1) as usize)
    } else {
        jump_targets(clips, selected, n - 1)
    }
}

/// A jump leads to another clip, and to a cached one.
pub proof fn jumps_lead_to_cached_clips(clips: Seq<Clip>, selected: usize, n: int, k: int)
    requires
        0 <= n <= clips.len(),
        clips.len() <= usize::MAX,
        0 <= k < jump_targets(clips, selected, n).len(),
    ensures
        ({
            let i = jump_targets(clips, selected, n)[k];
            i < n && i != selected && clips[i as int].cached
        }),
    decreases n,
{
    if n > 0 {
        let rest = jump_targets(clips, selected, n - 1);
        if k < rest.len() {
            jumps_lead_to_cached_clips(clips, selected, n - 1, k);
        }
    }
}

/// Every cached clip but the selection may be jumped to.
pub proof fn every_cached_clip_may_be_jumped_to(
    clips: Seq<Clip>,
    selected: usize,
    n: int,
    i: int,
)
    requires
        0 <= i < n <= clips.len(),
        clips.len() <= usize::MAX,
        i != selected,
        clips[i].cached,
    ensures
        jump_targets(clips, selected, n).contains(i as usize),
    decreases n,
{
    let rest = jump_targets(clips, selected, n - 1);
    if i == n - 1 {
        assert(jump_targets(clips, selected, n).last() == i as usize);
        assert(jump_targets(clips, selected, n)[rest.len() as int] == i as usize);
    } else {
        every_cached_clip_may_be_jumped_to(clips, selected, n - 1, i);
        let k = choose|k: int| 0 <= k < rest.len() && rest[k] == i as usize;
        assert(jump_targets(clips, selected, n)[k] == i as usize);
    }
}

impl Switchblade {
    pub(crate) fn choose_clip(&mut self, i: usize, now: u64)
        requires
            old(self)@.wf(),
            i < old(self)@.clips.len(),
        ensures
            final(self)@ == old(self)@.chosen(i, now),
            final(self)@.wf(),
    {
        if i != self.refs.selected {
            self.refs.selected = i;
            self.refs.sel_changed_at = now;
            self.refs.pending_reselect = None;
        }
    }

    fn step_selection(&mut self, i: usize, now: u64)
        requires
            old(self)@.wf(),
            i < old(self)@.clips.len(),
        ensures
            final(self)@ == old(self)@.stepped_to(i, now),
            final(self)@.wf(),
    {
        self.choose_clip(i, now);
        self.modes.mouse_attention = false;
        self.ask(Effect::ScrollToSelected);
    }

    /// Moves the selection by `dx` clips or `dy` rows of the layout.
    pub fn move_selection(&mut self, dx: i32, dy: i32, lay: &Layout, now: u64)
        requires
            old(self)@.wf(),
            lay.wf(),
            lay.within_range(),
            lay.len == old(self)@.clips.len(),
        ensures
            final(self)@ == old(self)@.selection_moved(dx as int, dy as int, *lay, now),
            final(self)@.wf(),
    {
        proof {
            reveal(State::selection_moved);
        }
        let n: usize = self.clips.len();
        if n == 0 {
            return;
        }
        let sel: usize = self.refs.selected;
        let to: usize = if dy != 0 {
            lay.land(sel, dy)
        } else {
            let i: i128 = sel as i128 + dx as i128;
            if i < 0 {
                0
            } else if i > n as i128 - 1 {
                n - 1
            } else {
                i as usize
            }
        };
        self.step_selection(to, now);
    }

    /// Moves the selection to clip `i` from wherever it is.
    pub fn select_index(&mut self, i: usize, now: u64)
        requires
            old(self)@.wf(),
        ensures
            final(self)@ == old(self)@.jumped_to(i, now),
            final(self)@.wf(),
    {
        if i >= self.clips.len() {
            return;
        }
        self.step_selection(i, now);
        if self.modes.quickview {
            self.ask(Effect::SnapStripIfFar);
        }
        self.wake(now, SETTLE_WAKE);
    }

    /// Jumps to a cached clip that the seed picks.
    pub fn jump_with(&mut self, seed: u64, now: u64)
        requires
            old(self)@.wf(),
        ensures
            final(self)@ == old(self)@.jumped_by(seed, now),
            final(self)@.wf(),
    {
        proof {
            reveal(State::jumped_by);
        }
        let mut targets: Vec<usize> = Vec::new();
        let n: usize = self.clips.len();
        let sel: usize = self.refs.selected;
        let mut i: usize = 0;
        while i < n
            invariant
                i <= n,
                n == self.clips@.len(),
                targets@ == jump_targets(self.clips@, sel, i as int),
                targets@.len() <= i,
            decreases n - i,
        {
            if i != sel && self.clips[i].cached {
                targets.push(i);
            }
            i += 1;
        }
        if targets.len() == 0 {
            return;
        }
        let mut s: u64 = seed;
        let drawn: u64 = next_rand(&mut s);
        let k: u64 = drawn % (targets.len() as u64);
        self.select_index(targets[k as usize], now);
    }

    /// Jumps to a random cached clip.
    pub fn jump_random(&mut self, now: u64)
        requires
            old(self)@.wf(),
        ensures
            exists|seed: u64| #[trigger] old(self)@.jumped_by(seed, now) == final(self)@,
            final(self)@.wf(),
    {
        let seed: u64 = crate::rng::rng_seed();
        self.jump_with(seed, now);
    }

    /// How much of the selected clip's time in the slide show is over, in
    /// billionths; nothing while the show is off or no clip is up.
    pub fn auto_skip_progress(&self, now: u64) -> (r: Option<u32>)
        ensures
            r == self@.watched(now),
            r matches Some(p) ==> p <= BILLION,
    {
        let since: u64 = match self.modes.auto_skip_since {
            Some(s) => s,
            None => {
                return None;
            },
        };
        if !(self.modes.quickview || self.modes.fullview) || self.clips.len() == 0 {
            return None;
        }
        let limit: u64 = if self.setup.tuning.auto_skip < AUTO_SKIP_LEAST {
            AUTO_SKIP_LEAST
        } else {
            self.setup.tuning.auto_skip
        };
        let chosen: u64 = if self.refs.sel_changed_at < since {
            since
        } else {
            self.refs.sel_changed_at
        };
        let first: Option<u64> = match self.lanes.live_sel {
            Some(l) => if l.clip == self.refs.selected {
                l.first_frame
            } else {
                None
            },
            None => None,
        };
        let start: u64 = match first {
            Some(f) => if f < since {
                since
            } else {
                f
            },
            None => if !self.level().live() {
                chosen
            } else if chosen > u64::MAX - AUTO_SKIP_SPAWN_GRACE {
                u64::MAX
            } else {
                chosen + AUTO_SKIP_SPAWN_GRACE
            },
        };
        let e: u64 = elapsed(now, start);
        if e >= limit {
            Some(BILLION)
        } else {
            let p: u128 = (e as u128) * (BILLION as u128) / (limit as u128);
            proof {
                let a = e as int * 1_000_000_000;
                let l = limit as int;
                assert(0 <= a / l <= 1_000_000_000) by (nonlinear_arith)
                    requires
                        0 <= a < l * 1_000_000_000,
                        l > 0,
                ;
            }
            Some(p as u32)
        }
    }

    /// Looks at the slide show's clock: a clip whose time is over gives way to
    /// the next, round the end. While the show rests its clock starts anew.
    pub fn tick_auto_skip(&mut self, now: u64)
        requires
            old(self)@.wf(),
        ensures
            final(self)@ == old(self)@.auto_skipped(now),
            final(self)@.wf(),
    {
        if self.modes.auto_skip_since.is_none() {
            return;
        }
        let suspended = !(self.modes.quickview || self.modes.fullview) || self.clips.len() == 0
            || self.paused() || self.lanes.sel_parked || self.modes.scrubbing
            || self.refs.pending_reselect.is_some() || self.chapters.is_some();
        if suspended {
            self.modes.auto_skip_since = Some(now);
            return;
        }
        let over = match self.auto_skip_progress(now) {
            Some(p) => p == BILLION,
            None => false,
        };
        if over {
            let next: usize = (self.refs.selected + 1) % self.clips.len();
            if next != self.refs.selected {
                self.select_index(next, now);
            }
        }
    }
}

/// Whether the filmstrip, whose middle stands on place `pos` in millionths, is
/// further from clip `i` than a glance.
pub fn strip_is_far(i: usize, pos: i64) -> (r: bool)
    requires
        i <= crate::state::MAX_CLIPS,
    ensures
        r == (i * 1_000_000 - pos > 4_000_000 || pos - i * 1_000_000 > 4_000_000),
{
    let d: i128 = (i as i128) * 1_000_000 - pos as i128;
    d > 4_000_000 || -d > 4_000_000
}

/// The slide show goes through the whole library: from any clip it comes to the
/// next, and from the last to the first.
pub proof fn slide_show_goes_round(s: State, now: u64)
    requires
        s.wf(),
        s.clips.len() > 1,
        s.modes.auto_skip_since is Some,
        !s.watch_suspended(),
        s.watched(now) == Some(BILLION),
    ensures
        ({
            let t = s.auto_skipped(now);
            &&& t.clips == s.clips
            &&& t.refs.selected == (if s.refs.selected + 1 == s.clips.len() {
                0
            } else {
                s.refs.selected + 1
            })
        }),
{
    let n = s.clips.len() as int;
    let k = s.refs.selected as int;
    if k + 1 == n {
        vstd::arithmetic::div_mod::lemma_mod_self_0(n);
    } else {
        vstd::arithmetic::div_mod::lemma_small_mod((k + 1) as nat, n as nat);
    }
}

} // verus!
