//! What the pointer, the wheel and the fingers do.

use vstd::prelude::*;

use crate::model::{Effect, Held, Press};
use crate::select::{BILLION, SETTLE_WAKE};
use crate::state::{after, Modes, Refs, RibbonPack, Scene, State, Switchblade};

verus! {

/// How far a pinch must come to step between the views, in billionths.
pub const MODAL_PINCH_STEP: i64 = 180_000_000;

/// What a press of the button hit.
#[derive(Clone, Copy, PartialEq, Eq, Structural, Debug)]
pub struct Click {
    /// The chapter whose chip was hit.
    pub chapter: Option<usize>,
    /// The fraction of the seekbar that was hit, in billionths.
    pub bar: Option<u32>,
    /// The filmstrip's chip that was hit.
    pub chip: Option<usize>,
    /// The video of the quick view was hit.
    pub video: bool,
    /// The tile of the grid that was hit.
    pub tile: Option<usize>,
    pub cmd: bool,
    pub shift: bool,
}

/// Where the pointer went.
#[derive(Clone, Copy, PartialEq, Eq, Structural, Debug)]
pub struct Pointer {
    /// The pointer really travelled.
    pub moved: bool,
    /// It went further from the press than a click may.
    pub dragged: bool,
    /// The fraction of the seekbar above or below it, in billionths.
    pub share: Option<u32>,
    /// It is over the video or just below.
    pub over_video: bool,
    /// It is at the window's lower edge, where the chapter bar comes up.
    pub at_edge: bool,
}

/// What happened at the window.
#[derive(Clone, Copy, PartialEq, Eq, Structural, Debug)]
pub enum Input {
    /// The wheel turned; the chip that the filmstrip would come to stand on,
    /// where there is a filmstrip to move.
    Scroll { strip: Option<usize> },
    /// The fingers moved by `delta` billionths, apart where that is positive.
    Pinch { delta: i64 },
    Cursor { at: Pointer },
    Focus { focused: bool },
    MouseDown { click: Click },
    /// The button was let go at a fraction of the seekbar, in billionths.
    MouseUp { share: Option<u32> },
}

/// A fraction that may be there is no more than the whole.
pub open spec fn is_share(s: Option<u32>) -> bool {
    s matches Some(f) ==> f <= BILLION
}

/// A place that may be there is one of `n`.
pub open spec fn is_place(p: Option<usize>, n: int) -> bool {
    p matches Some(i) ==> i < n
}

impl Input {
    /// What was hit is there, in a library of `n` clips.
    pub open spec fn fits(self, n: int) -> bool {
        match self {
            Input::Cursor { at } => is_share(at.share),
            Input::MouseUp { share } => is_share(share),
            Input::MouseDown { click } => is_share(click.bar) && is_place(click.chip, n)
                && is_place(click.tile, n),
            _ => true,
        }
    }
}

/// The marks with the places from `a` to `b` among them.
pub open spec fn marked_between(marked: Set<usize>, a: usize, b: usize) -> Set<usize> {
    Set::new(|m: usize| marked.contains(m) || (a <= m <= b) || (b <= m <= a))
}

/// How far a pinch on a modal view has come after `delta` more; a change of
/// direction starts it anew.
pub open spec fn pinch_sum(accum: i64, delta: i64) -> int {
    if accum != 0 && (accum < 0) != (delta < 0) {
        delta as int
    } else {
        accum + delta
    }
}

impl State {
    /// The state after the wheel has turned. A chapter bar that is up pans, one
    /// that is sliding holds everything still, the full view has nothing to
    /// scroll; the filmstrip moves, and the selection with it where that is
    /// set; the grid pans.
    #[verifier::opaque]
    pub open spec fn scrolled(self, strip: Option<usize>, now: u64) -> State {
        match self.chapters {
            Some(b) => if b.open && b.times is Some {
                self.asked(Effect::PanChapters)
            } else {
                self
            },
            None => if self.modes.fullview {
                self
            } else if self.modes.quickview {
                self.strip_moved(strip, now)
            } else {
                State { scene: Scene { last_scroll_event: now, ..self.scene }, ..self }.asked(
                    Effect::PanGrid,
                )
            },
        }
    }

    /// The state after the filmstrip has been moved.
    pub open spec fn strip_moved(self, strip: Option<usize>, now: u64) -> State {
        match strip {
            Some(k) => if self.clips.len() == 0 {
                self
            } else {
                let s = State {
                    scene: Scene { last_scroll_event: now, ..self.scene },
                    ..self
                }.asked(Effect::PanStrip);
                let i = if k < self.clips.len() {
                    k
                } else {
                    (self.clips.len() - 1) as usize
                };
                if self.setup.tuning.strip_scroll_selects && i != self.refs.selected {
                    s.chosen(i, now).asked(Effect::ScrollToSelected)
                } else {
                    s
                }
            },
            None => self,
        }
    }

    /// The state after a pinch has come far enough to step to another view, or
    /// not yet.
    pub open spec fn view_pinched(self, delta: i64, now: u64) -> State {
        let sum = pinch_sum(self.modes.pinch_accum, delta);
        if sum >= MODAL_PINCH_STEP {
            self.pinch_kept(0).dived(now)
        } else if sum <= -MODAL_PINCH_STEP {
            self.pinch_kept(0).backed_out(now)
        } else {
            self.pinch_kept(sum as i64)
        }
    }

    /// The state with a pinch that has come so far.
    #[verifier::opaque]
    pub open spec fn pinch_kept(self, accum: i64) -> State {
        State { modes: Modes { pinch_accum: accum, ..self.modes }, ..self }
    }

    /// The state one view deeper: from the quick view to the full view.
    #[verifier::opaque]
    pub open spec fn dived(self, now: u64) -> State {
        if self.modes.quickview && !self.modes.fullview {
            State { modes: Modes { fullview: true, ..self.modes }, ..self }.woken(now, 300_000_000)
        } else {
            self
        }
    }

    /// The state one view back: from the full view to the quick view, from
    /// there to the grid.
    #[verifier::opaque]
    pub open spec fn backed_out(self, now: u64) -> State {
        if self.modes.fullview {
            self.stepped_down(now)
        } else {
            State { modes: Modes { quickview: false, ..self.modes }, ..self }.woken(
                now,
                300_000_000,
            )
        }
    }

    /// A pinch takes hold of the strip instead of changing the zoom alone.
    pub open spec fn gripping(self) -> bool {
        self.setup.tuning.zoom_ribbon && self.setup.tuning.grid_layout
            == crate::tuning::GridStyle::Flexible && !self.modal() && self.ui()
            && self.clips.len() > 0
    }

    /// The state after the fingers have moved. In the grid the strip must be
    /// held, or is already.
    #[verifier::opaque]
    pub open spec fn pinched(self, delta: i64, now: u64) -> State {
        if self.modal() {
            self.view_pinched(delta, now)
        } else {
            let s = State { modes: Modes { pinch_accum: 0, ..self.modes }, ..self };
            if !self.gripping() {
                s.unribboned().asked(Effect::PinchZoom)
            } else if self.scene.ribbon is None && self.scene.settling {
                State { scene: Scene { settling: false, ..s.scene }, ..s }.asked(
                    Effect::InstallSettled,
                ).asked(Effect::GripRibbon)
            } else {
                s.asked(Effect::GripRibbon)
            }
        }
    }

    /// The state after a pinch has found what it holds. Only a pinch that moves
    /// the zoom keeps the hold alive; one that finds nothing to hold zooms.
    pub open spec fn gripped(self, clip: Option<usize>, moved: bool, now: u64) -> State {
        match self.scene.ribbon {
            Some(h) => State {
                scene: Scene {
                    ribbon: Some(
                        if moved {
                            Held { last: now, ..h }
                        } else {
                            h
                        },
                    ),
                    motion: true,
                    ..self.scene
                },
                ..self
            },
            None => match clip {
                Some(clip) => State {
                    scene: Scene {
                        ribbon: Some(Held { clip, last: now }),
                        motion: true,
                        ..self.scene
                    },
                    ..self
                },
                None => self.unribboned().asked(Effect::PinchZoom),
            },
        }
    }

    /// The state after the hold on the strip has been looked at: one that has
    /// been quiet for too long is let go.
    pub open spec fn grip_checked(self, now: u64) -> State {
        match self.scene.ribbon {
            Some(h) => if crate::state::since(now, h.last) >= crate::state::later(
                self.setup.tuning.zoom_ribbon_release,
                1_000_000,
            ) {
                self.let_go()
            } else {
                State { scene: Scene { motion: true, ..self.scene }, ..self }
            },
            None => self,
        }
    }

    /// The state after the strip has been let go.
    pub open spec fn let_go(self) -> State {
        State { scene: Scene { ribbon: None, ..self.scene }, ..self }.asked(Effect::ReleaseRibbon)
    }

    /// The state after the strip has come nearer to its rest; `t` is how near,
    /// in millionths of the way.
    pub open spec fn settle_checked(self, t: i128) -> State {
        if !self.scene.settling {
            self
        } else if t >= SETTLED {
            State { scene: Scene { settling: false, ..self.scene }, ..self }.asked(
                Effect::InstallSettled,
            )
        } else {
            State { scene: Scene { motion: true, ..self.scene }, ..self }
        }
    }

    /// The state with a press that has become a drag handed to the system.
    pub open spec fn drag_checked(self, dragged: bool) -> State {
        match self.modes.press {
            Some(p) => if dragged {
                let s = if p.clip < self.clips.len() {
                    let c = self.clips[p.clip as int];
                    self.asked(Effect::BeginDrag { path: c.path, cloud: c.cloud })
                } else {
                    self
                };
                State { modes: Modes { press: None, ..self.modes }, ..s }
            } else {
                self
            },
            None => self,
        }
    }

    /// The state with the seekbar shown for a pointer over the video, or the
    /// stream moved along with a pointer that scrubs.
    pub open spec fn bar_pointed(self, share: Option<u32>, over_video: bool, now: u64) -> State {
        let seen = State { modes: Modes { seekbar_seen: Some(now), ..self.modes }, ..self };
        if self.modes.scrubbing {
            match share {
                Some(f) => seen.scrubbed(f as int, false, now),
                None => seen,
            }
        } else if over_video {
            seen.woken(now, self.bar_time())
        } else {
            self
        }
    }

    /// How long a seekbar that has been shown needs to be gone again.
    pub open spec fn bar_time(self) -> u64 {
        crate::state::soon(
            crate::state::soon(self.setup.tuning.seekbar_hide, self.setup.tuning.seekbar_fade),
            200_000_000,
        )
    }

    /// The state after the pointer has moved. Real travel draws the attention;
    /// a pointer that rests at the lower edge of the full view brings the
    /// chapter bar up for a moment.
    #[verifier::opaque]
    pub open spec fn pointed(self, at: Pointer, pos: int, now: u64) -> State {
        let s = if at.moved {
            State { modes: Modes { mouse_attention: true, ..self.modes }, ..self }
        } else {
            self
        };
        let t = s.drag_checked(at.dragged).bar_pointed(at.share, at.over_video, now);
        if self.modes.fullview && !self.modes.scrubbing && at.at_edge {
            t.bar_opened(true, pos, now)
        } else {
            t
        }
    }

    /// The state after the window has got or lost the focus; with it a pinch
    /// loses its fingers.
    #[verifier::opaque]
    pub open spec fn refocused(self, focused: bool) -> State {
        let s = State { modes: Modes { focused, ..self.modes }, ..self };
        if !focused && self.scene.ribbon is Some {
            s.let_go()
        } else {
            s
        }
    }

    /// The state after the seekbar has been taken hold of.
    pub open spec fn scrub_begun(self, share: u32, now: u64) -> State {
        State {
            modes: Modes { scrubbing: true, seekbar_seen: Some(now), ..self.modes },
            ..self
        }.scrubbed(share as int, false, now)
    }

    /// The state after a press in the full view: an open bar takes it, and
    /// goes; then the seekbar; else the view closes.
    #[verifier::opaque]
    pub open spec fn pressed_full(self, click: Click, now: u64) -> State {
        if self.bar_open() {
            match click.chapter {
                Some(i) => self.chapter_sought(i as int, now).bar_closed(now),
                None => self.bar_closed(now),
            }
        } else {
            match click.bar {
                Some(f) => self.scrub_begun(f, now),
                None => State { modes: Modes { fullview: false, ..self.modes }, ..self },
            }
        }
    }

    /// The state after a press in the quick view: on the seekbar, on a chip,
    /// which is selected, on the video, which comes to fill the window, or
    /// beside, which closes the view.
    #[verifier::opaque]
    pub open spec fn pressed_quick(self, click: Click, now: u64) -> State {
        match click.bar {
            Some(f) => self.scrub_begun(f, now),
            None => match click.chip {
                Some(i) => {
                    let s = if i != self.refs.selected {
                        self.chosen(i, now).asked(Effect::ScrollToSelected)
                    } else {
                        self
                    };
                    State {
                        modes: Modes {
                            press: Some(Press { clip: i, open_quickview: false }),
                            ..s.modes
                        },
                        ..s
                    }
                },
                None => if click.video {
                    State { modes: Modes { fullview: true, ..self.modes }, ..self }
                } else {
                    State { modes: Modes { quickview: false, ..self.modes }, ..self }
                },
            },
        }
    }

    /// The state after a press in the grid: on a tile, which is selected, or in
    /// the attention model, with a modifier, marked.
    #[verifier::opaque]
    pub open spec fn pressed_grid(self, click: Click, now: u64) -> State {
        match click.tile {
            Some(i) => if self.attention() && (click.cmd || click.shift) {
                State {
                    marked: if click.shift {
                        marked_between(self.marked, self.refs.selected, i)
                    } else if self.marked.contains(i) {
                        self.marked.remove(i)
                    } else {
                        self.marked.insert(i)
                    },
                    ..self
                }
            } else {
                let s = self.chosen(i, now);
                State {
                    modes: Modes {
                        press: Some(
                            Press {
                                clip: i,
                                open_quickview: self.attention() || i == self.refs.selected,
                            },
                        ),
                        ..s.modes
                    },
                    ..s
                }
            },
            None => self,
        }
    }

    /// The state after a press of the button.
    pub open spec fn pressed(self, click: Click, now: u64) -> State {
        if self.modes.fullview {
            self.pressed_full(click, now)
        } else if self.modes.quickview {
            self.pressed_quick(click, now)
        } else {
            self.pressed_grid(click, now)
        }
    }

    /// The state after the button has been let go: a press that stayed a click
    /// on the selection opens the quick view, and a scrub lands exactly.
    #[verifier::opaque]
    pub open spec fn released(self, share: Option<u32>, now: u64) -> State {
        let r = State { modes: Modes { press: None, ..self.modes }, ..self };
        let s = match self.modes.press {
            Some(p) => if p.open_quickview && p.clip == self.refs.selected {
                State {
                    modes: Modes { quickview: true, quickview_at: now, ..r.modes },
                    ..r
                }.asked(Effect::SnapStrip)
            } else {
                r
            },
            None => r,
        };
        if self.modes.scrubbing {
            let t = State { modes: Modes { scrubbing: false, ..s.modes }, ..s };
            match share {
                Some(f) => t.scrubbed(f as int, true, now),
                None => t,
            }
        } else {
            s
        }
    }

    /// The state after something has happened at the window, the selected
    /// stream being at `pos`. Whatever it was, the loop stays awake for the
    /// timers that it may have started.
    pub open spec fn happened(self, input: Input, pos: int, now: u64) -> State {
        let s = self.woken(now, SETTLE_WAKE);
        match input {
            Input::Scroll { strip } => s.scrolled(strip, now),
            Input::Pinch { delta } => s.pinched(delta, now),
            Input::Cursor { at } => s.pointed(at, pos, now),
            Input::Focus { focused } => s.refocused(focused),
            Input::MouseDown { click } => s.pressed(click, now),
            Input::MouseUp { share } => s.released(share, now),
        }
    }
}

/// How near a strip must have come to count as at rest, in millionths.
pub const SETTLED: i128 = 995_000;


/// Whether a pointer that went `dx` and `dy` from where it was pressed has
/// become a drag, the threshold being at least a pixel. Lengths in micropixels.
pub fn is_drag(dx: i64, dy: i64, threshold: i64) -> (r: bool)
    ensures
        r == (dx * dx + dy * dy >= (if threshold < 1_000_000 {
            1_000_000int
        } else {
            threshold as int
        }) * (if threshold < 1_000_000 {
            1_000_000int
        } else {
            threshold as int
        })),
{
    let t: i128 = if threshold < 1_000_000 {
        1_000_000
    } else {
        threshold as i128
    };
    proof {
        square_fits(dx as int);
        square_fits(dy as int);
        square_fits(t as int);
    }
    let way: u128 = ((dx as i128) * (dx as i128)) as u128 + ((dy as i128) * (dy as i128)) as u128;
    way >= (t * t) as u128
}

proof fn square_fits(a: int)
    requires
        i64::MIN <= a <= i64::MAX,
    ensures
        0 <= a * a <= 0x4000_0000_0000_0000_0000_0000_0000_0000,
{
    assert(0 <= a * a <= 0x8000_0000_0000_0000 * 0x8000_0000_0000_0000) by (nonlinear_arith)
        requires
            -0x8000_0000_0000_0000 <= a <= 0x8000_0000_0000_0000,
    ;
}

impl Switchblade {
    fn scroll(&mut self, strip: Option<usize>, now: u64)
        requires
            old(self)@.wf(),
        ensures
            final(self)@ == old(self)@.scrolled(strip, now),
            final(self)@.wf(),
    {
        proof {
            reveal(State::scrolled);
        }
        let bar: Option<bool> = match &self.chapters {
            Some(b) => Some(b.open && b.times.is_some()),
            None => None,
        };
        match bar {
            Some(pans) => {
                if pans {
                    self.ask(Effect::PanChapters);
                }
            },
            None => {
                if self.modes.fullview {
                } else if self.modes.quickview {
                    self.scroll_strip(strip, now);
                } else {
                    self.scene.last_scroll_event = now;
                    self.ask(Effect::PanGrid);
                }
            },
        }
    }

    fn scroll_strip(&mut self, strip: Option<usize>, now: u64)
        requires
            old(self)@.wf(),
        ensures
            final(self)@ == old(self)@.strip_moved(strip, now),
            final(self)@.wf(),
    {
        match strip {
            Some(k) => {
                let n: usize = self.clips.len();
                if n > 0 {
                    self.scene.last_scroll_event = now;
                    self.ask(Effect::PanStrip);
                    let i: usize = if k < n {
                        k
                    } else {
                        n - 1
                    };
                    if self.setup.tuning.strip_scroll_selects && i != self.refs.selected {
                        self.choose_clip(i, now);
                        self.ask(Effect::ScrollToSelected);
                    }
                }
            },
            None => {},
        }
    }

    fn pinch_view(&mut self, delta: i64, now: u64)
        requires
            old(self)@.wf(),
            old(self)@.modal(),
        ensures
            final(self)@ == old(self)@.view_pinched(delta, now),
            final(self)@.wf(),
    {
        let accum: i64 = self.modes.pinch_accum;
        let sum: i128 = if accum != 0 && (accum < 0) != (delta < 0) {
            delta as i128
        } else {
            accum as i128 + delta as i128
        };
        if sum >= MODAL_PINCH_STEP as i128 {
            self.keep_pinch(0);
            self.dive(now);
        } else if sum <= -(MODAL_PINCH_STEP as i128) {
            self.keep_pinch(0);
            self.back_out(now);
        } else {
            self.keep_pinch(sum as i64);
        }
    }

    fn keep_pinch(&mut self, accum: i64)
        requires
            old(self)@.wf(),
        ensures
            final(self)@ == old(self)@.pinch_kept(accum),
            final(self)@.wf(),
    {
        proof {
            reveal(State::pinch_kept);
        }
        self.modes.pinch_accum = accum;
    }

    fn dive(&mut self, now: u64)
        requires
            old(self)@.wf(),
        ensures
            final(self)@ == old(self)@.dived(now),
            final(self)@.wf(),
    {
        proof {
            reveal(State::dived);
        }
        if self.modes.quickview && !self.modes.fullview {
            self.modes.fullview = true;
            self.wake(now, 300_000_000);
        }
    }

    fn back_out(&mut self, now: u64)
        requires
            old(self)@.wf(),
        ensures
            final(self)@ == old(self)@.backed_out(now),
            final(self)@.wf(),
    {
        proof {
            reveal(State::backed_out);
        }
        if self.modes.fullview {
            self.to_quickview(now);
        } else {
            self.modes.quickview = false;
            self.wake(now, 300_000_000);
        }
    }

    fn pinch(&mut self, delta: i64, now: u64)
        requires
            old(self)@.wf(),
        ensures
            final(self)@ == old(self)@.pinched(delta, now),
            final(self)@.wf(),
    {
        proof {
            reveal(State::pinched);
        }
        if self.modes.quickview || self.modes.fullview {
            self.pinch_view(delta, now);
            return;
        }
        self.modes.pinch_accum = 0;
        if !self.ribbon_on() {
            self.ribbon_reset();
            self.ask(Effect::PinchZoom);
        } else {
            if self.scene.ribbon.is_none() && self.scene.settling {
                self.scene.settling = false;
                self.ask(Effect::InstallSettled);
            }
            self.ask(Effect::GripRibbon);
        }
    }

    /// Takes hold of the strip by clip `clip`, or keeps the hold that is there;
    /// `moved` says whether the fingers moved the zoom. With nothing to hold
    /// the pinch zooms.
    pub fn grip(&mut self, clip: Option<usize>, moved: bool, now: u64)
        requires
            old(self)@.wf(),
        ensures
            final(self)@ == old(self)@.gripped(clip, moved, now),
            final(self)@.wf(),
    {
        match self.scene.ribbon {
            Some(h) => {
                self.scene.ribbon = Some(
                    if moved {
                        Held { clip: h.clip, last: now }
                    } else {
                        h
                    },
                );
                self.scene.motion = true;
            },
            None => match clip {
                Some(c) => {
                    self.scene.ribbon = Some(Held { clip: c, last: now });
                    self.scene.motion = true;
                },
                None => {
                    self.ribbon_reset();
                    self.ask(Effect::PinchZoom);
                },
            },
        }
    }

    /// Lets go of a strip that has been held still for too long.
    pub fn check_grip(&mut self, now: u64)
        requires
            old(self)@.wf(),
        ensures
            final(self)@ == old(self)@.grip_checked(now),
            final(self)@.wf(),
    {
        match self.scene.ribbon {
            Some(h) => {
                let quiet: u64 = crate::state::elapsed(now, h.last);
                let limit: u64 = if self.setup.tuning.zoom_ribbon_release < 1_000_000 {
                    1_000_000
                } else {
                    self.setup.tuning.zoom_ribbon_release
                };
                if quiet >= limit {
                    self.scene.ribbon = None;
                    self.ask(Effect::ReleaseRibbon);
                } else {
                    self.scene.motion = true;
                }
            },
            None => {},
        }
    }

    /// Looks at how near a strip that was let go has come to its rest.
    pub fn check_settle(&mut self, t: i128)
        requires
            old(self)@.wf(),
        ensures
            final(self)@ == old(self)@.settle_checked(t),
            final(self)@.wf(),
    {
        if self.scene.settling {
            if t >= SETTLED {
                self.scene.settling = false;
                self.ask(Effect::InstallSettled);
            } else {
                self.scene.motion = true;
            }
        }
    }

    /// A strip that was let go is on its way to rest.
    pub fn ribbon_settle(&mut self)
        requires
            old(self)@.wf(),
        ensures
            final(self)@ == (State {
                scene: Scene { settling: true, motion: true, ..old(self)@.scene },
                ..old(self)@
            }),
            final(self)@.wf(),
    {
        self.scene.settling = true;
        self.scene.motion = true;
    }

    /// Makes the rows that start with the given clips the grid's, for a window
    /// of width `vw` and a zoom.
    pub fn ribbon_install(&mut self, starts: Vec<usize>, vw: i128, zoom: i128)
        requires
            old(self)@.wf(),
        ensures
            final(self)@.pack matches Some(p) && p.starts@ == starts@ && p.vw == vw && p.zoom == zoom,
            final(self)@ == (State {
                pack: final(self)@.pack,
                reflow: Seq::empty(),
                ..old(self)@
            }),
            final(self)@.wf(),
    {
        self.pack = Some(RibbonPack { starts, vw, zoom });
        self.reflow.clear();
    }

    fn check_drag(&mut self, dragged: bool)
        requires
            old(self)@.wf(),
        ensures
            final(self)@ == old(self)@.drag_checked(dragged),
            final(self)@.wf(),
    {
        match self.modes.press {
            Some(p) => {
                if dragged {
                    if p.clip < self.clips.len() {
                        let c = self.clips[p.clip];
                        self.ask(Effect::BeginDrag { path: c.path, cloud: c.cloud });
                    }
                    self.modes.press = None;
                }
            },
            None => {},
        }
    }

    fn point_at_bar(&mut self, share: Option<u32>, over_video: bool, now: u64)
        requires
            old(self)@.wf(),
            is_share(share),
        ensures
            final(self)@ == old(self)@.bar_pointed(share, over_video, now),
            final(self)@.wf(),
    {
        if self.modes.scrubbing {
            self.modes.seekbar_seen = Some(now);
            match share {
                Some(f) => {
                    self.scrub_seek(f, false, now);
                },
                None => {},
            }
        } else if over_video {
            self.modes.seekbar_seen = Some(now);
            let shown: u64 = after(
                after(self.setup.tuning.seekbar_hide, self.setup.tuning.seekbar_fade),
                200_000_000,
            );
            self.wake(now, shown);
        }
    }

    fn point(&mut self, at: Pointer, pos: i64, now: u64)
        requires
            old(self)@.wf(),
            is_share(at.share),
        ensures
            final(self)@ == old(self)@.pointed(at, pos as int, now),
            final(self)@.wf(),
    {
        proof {
            reveal(State::pointed);
        }
        let reveals = self.modes.fullview && !self.modes.scrubbing && at.at_edge;
        if at.moved {
            self.modes.mouse_attention = true;
        }
        self.check_drag(at.dragged);
        self.point_at_bar(at.share, at.over_video, now);
        if reveals {
            self.open_chapter_bar(true, pos, now);
        }
    }

    fn refocus(&mut self, focused: bool)
        requires
            old(self)@.wf(),
        ensures
            final(self)@ == old(self)@.refocused(focused),
            final(self)@.wf(),
    {
        proof {
            reveal(State::refocused);
        }
        self.modes.focused = focused;
        if !focused && self.scene.ribbon.is_some() {
            self.scene.ribbon = None;
            self.ask(Effect::ReleaseRibbon);
        }
    }

    fn begin_scrub(&mut self, share: u32, now: u64)
        requires
            old(self)@.wf(),
            share <= BILLION,
        ensures
            final(self)@ == old(self)@.scrub_begun(share, now),
            final(self)@.wf(),
    {
        self.modes.scrubbing = true;
        self.modes.seekbar_seen = Some(now);
        self.scrub_seek(share, false, now);
    }

    fn press_full(&mut self, click: Click, now: u64)
        requires
            old(self)@.wf(),
            is_share(click.bar),
        ensures
            final(self)@ == old(self)@.pressed_full(click, now),
            final(self)@.wf(),
    {
        proof {
            reveal(State::pressed_full);
        }
        let bar_open = match &self.chapters {
            Some(b) => b.open,
            None => false,
        };
        if bar_open {
            match click.chapter {
                Some(i) => {
                    self.chapter_seek(i, now);
                },
                None => {},
            }
            self.close_chapter_bar(now);
        } else {
            match click.bar {
                Some(f) => {
                    self.begin_scrub(f, now);
                },
                None => {
                    self.modes.fullview = false;
                },
            }
        }
    }

    fn press_quick(&mut self, click: Click, now: u64)
        requires
            old(self)@.wf(),
            is_share(click.bar),
            is_place(click.chip, old(self)@.clips.len() as int),
        ensures
            final(self)@ == old(self)@.pressed_quick(click, now),
            final(self)@.wf(),
    {
        proof {
            reveal(State::pressed_quick);
        }
        match click.bar {
            Some(f) => {
                self.begin_scrub(f, now);
            },
            None => match click.chip {
                Some(i) => {
                    if i != self.refs.selected {
                        self.choose_clip(i, now);
                        self.ask(Effect::ScrollToSelected);
                    }
                    self.modes.press = Some(Press { clip: i, open_quickview: false });
                },
                None => {
                    if click.video {
                        self.modes.fullview = true;
                    } else {
                        self.modes.quickview = false;
                    }
                },
            },
        }
    }

    fn mark_between(&mut self, a: usize, b: usize)
        requires
            old(self)@.wf(),
            a < old(self)@.clips.len(),
            b < old(self)@.clips.len(),
        ensures
            final(self)@ == (State {
                marked: marked_between(old(self)@.marked, a, b),
                ..old(self)@
            }),
            final(self)@.wf(),
    {
        proof {
            reveal(crate::state::tied);
        }
        let (lo, hi): (usize, usize) = if a < b {
            (a, b)
        } else {
            (b, a)
        };
        let ghost before = self@;
        let mut i: usize = lo;
        while i <= hi
            invariant
                lo <= i <= hi + 1,
                hi < self.clips@.len(),
                self.clips@.len() <= crate::state::MAX_CLIPS,
                self@ == (State { marked: self@.marked, ..before }),
                self@.marked =~= Set::new(
                    |m: usize| before.marked.contains(m) || (lo <= m < i),
                ),
            decreases hi + 1 - i,
        {
            self.marked.insert(i);
            i += 1;
        }
        assert(self@.marked =~= marked_between(before.marked, a, b));
    }

    fn press_grid(&mut self, click: Click, now: u64)
        requires
            old(self)@.wf(),
            is_place(click.tile, old(self)@.clips.len() as int),
        ensures
            final(self)@ == old(self)@.pressed_grid(click, now),
            final(self)@.wf(),
    {
        proof {
            reveal(crate::state::tied);
        }
        proof {
            reveal(State::pressed_grid);
        }
        match click.tile {
            Some(i) => {
                let by_attention = self.attention();
                if by_attention && (click.cmd || click.shift) {
                    if click.shift {
                        self.mark_between(self.refs.selected, i);
                    } else if self.marked.contains(&i) {
                        self.marked.remove(&i);
                    } else {
                        self.marked.insert(i);
                    }
                } else {
                    let was_selected = i == self.refs.selected;
                    self.choose_clip(i, now);
                    self.modes.press = Some(
                        Press { clip: i, open_quickview: by_attention || was_selected },
                    );
                }
            },
            None => {},
        }
    }

    fn press(&mut self, click: Click, now: u64)
        requires
            old(self)@.wf(),
            is_share(click.bar),
            is_place(click.chip, old(self)@.clips.len() as int),
            is_place(click.tile, old(self)@.clips.len() as int),
        ensures
            final(self)@ == old(self)@.pressed(click, now),
            final(self)@.wf(),
    {
        if self.modes.fullview {
            self.press_full(click, now);
        } else if self.modes.quickview {
            self.press_quick(click, now);
        } else {
            self.press_grid(click, now);
        }
    }

    fn release(&mut self, share: Option<u32>, now: u64)
        requires
            old(self)@.wf(),
            is_share(share),
        ensures
            final(self)@ == old(self)@.released(share, now),
            final(self)@.wf(),
    {
        proof {
            reveal(State::released);
        }
        match self.modes.press {
            Some(p) => {
                self.modes.press = None;
                if p.open_quickview && p.clip == self.refs.selected {
                    self.modes.quickview = true;
                    self.modes.quickview_at = now;
                    self.ask(Effect::SnapStrip);
                }
            },
            None => {},
        }
        if self.modes.scrubbing {
            self.modes.scrubbing = false;
            match share {
                Some(f) => {
                    self.scrub_seek(f, true, now);
                },
                None => {},
            }
        }
    }

    /// Handles what happened at the window, the selected stream being at
    /// `pos`.
    pub fn event(&mut self, input: Input, pos: i64, now: u64)
        requires
            old(self)@.wf(),
            input.fits(old(self)@.clips.len() as int),
        ensures
            final(self)@ == old(self)@.happened(input, pos as int, now),
            final(self)@.wf(),
    {
        self.wake(now, SETTLE_WAKE);
        match input {
            Input::Scroll { strip } => {
                self.scroll(strip, now);
            },
            Input::Pinch { delta } => {
                self.pinch(delta, now);
            },
            Input::Cursor { at } => {
                self.point(at, pos, now);
            },
            Input::Focus { focused } => {
                self.refocus(focused);
            },
            Input::MouseDown { click } => {
                self.press(click, now);
            },
            Input::MouseUp { share } => {
                self.release(share, now);
            },
        }
    }
}

} // verus!
