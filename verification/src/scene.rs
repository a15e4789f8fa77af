//! What a frame shows: which tiles, where, from which texture and under which
//! border; the backdrop of the views; the bars over them.

use vstd::prelude::*;

use crate::grid::{Layout, Rect};
use crate::model::{Extent, SelLive, Thumb, TileReflow};
use crate::ribbon::{glide, RibbonRow};
use crate::select::BILLION;
use crate::state::{elapsed, Jobs, Scene, State, Switchblade};
use crate::step::in_reach;
use crate::tuning::BackdropStyle;

verus! {

/// How long the flash of the position stays, and how long it takes to fade.
pub const SKIP_BAR_HOLD: u64 = 1_000_000_000;

pub const SKIP_BAR_FADE: u64 = 250_000_000;

/// How long the bar of finished work takes to fade.
pub const JOBS_FADE: u64 = 700_000_000;

/// Where a tile's picture comes from.
#[derive(Clone, Copy, PartialEq, Eq, Structural, Debug)]
pub enum Source {
    /// Nothing is there yet.
    Blank,
    /// The thumbnail in a slot.
    Still { slot: usize, tw: u32, th: u32 },
    /// A cell of the storyboard in a slot.
    Sheet { slot: usize, tw: u32, th: u32 },
    /// The hovered stream's slot.
    Lane { slot: usize },
    /// The large texture.
    Large,
}

/// What a tile is filled with where its picture does not cover it.
#[derive(Clone, Copy, PartialEq, Eq, Structural, Debug)]
pub enum Fill {
    Cloud,
    Unreadable,
    /// The window's own background.
    Body,
    /// As much black as there is picture.
    Picture,
}

/// A tile's border.
#[derive(Clone, Copy, PartialEq, Eq, Structural, Debug)]
pub enum Border {
    Selected,
    Marked,
    Hovered,
    /// The outline of a tile without a picture.
    Outline,
    Bare,
}

/// A tile of the grid, as it is to be drawn: where, and where its second copy is
/// while it crosses a row boundary.
#[derive(Clone, Copy, PartialEq, Eq, Structural, Debug)]
pub struct TilePlan {
    pub clip: usize,
    pub rect: Rect,
    pub copy: Option<Rect>,
    pub source: Source,
    pub fill: Fill,
    pub border: Border,
    pub cloud: bool,
    pub loading: bool,
    /// The flash of the position is drawn on it.
    pub flash: bool,
}

/// A tile and where it lies.
#[derive(Clone, Copy, PartialEq, Eq, Structural, Debug)]
pub struct Placed {
    pub clip: usize,
    pub rect: Rect,
    pub copy: Option<Rect>,
}

/// What lies behind a view.
#[derive(Clone, Copy, PartialEq, Eq, Structural, Debug)]
pub enum Backdrop {
    /// The grid itself is shown.
    Grid,
    /// The grid as it was, blurred.
    Blurred,
    /// A stage of one colour; the grid is not drawn.
    Stage,
}

impl State {
    /// A stream's frames, or what the large texture still holds of its clip, can
    /// be shown.
    pub open spec fn showable(self, l: SelLive) -> bool {
        l.first_frame is Some || self.lanes.hires_shown == Some(l.path)
    }

    /// Tiles cycle through storyboards: they are asked to, and nothing rests.
    pub open spec fn cycles(self) -> bool {
        self.modes.animated_thumbs && self.live() && !self.paused() && !self.modal()
    }

    /// The picture of the tile of clip `i` while no stream plays in it: its
    /// thumbnail, or its storyboard where tiles cycle and there is one.
    pub open spec fn tile_still(self, i: usize) -> Source {
        let c = self.clips[i as int];
        if self.cycles() && c.anim is Ready {
            Source::Sheet { slot: c.anim->slot, tw: c.anim->tw, th: c.anim->th }
        } else {
            match c.thumb {
                Thumb::Ready { slot, tw, th, .. } => Source::Still { slot, tw, th },
                _ => Source::Blank,
            }
        }
    }

    /// The picture of the tile of clip `i`. Behind a view no tile shows the
    /// large stream, which plays on in the view itself.
    pub open spec fn tile_source(self, i: usize) -> Source {
        let c = self.clips[i as int];
        let still = self.tile_still(i);
        if (i == self.refs.selected || self.attention_target() == Some(i)) && !self.modal() {
            match self.lanes.live_sel {
                Some(l) => if l.path == c.path && self.showable(l) {
                    Source::Large
                } else {
                    still
                },
                None => still,
            }
        } else if self.refs.hovered == Some(i) {
            match self.lanes.live_hover {
                Some(h) => if h.clip == i && h.first_frame is Some {
                    Source::Lane { slot: h.slot }
                } else {
                    still
                },
                None => still,
            }
        } else {
            still
        }
    }

    /// What the tile of clip `i` is filled with.
    pub open spec fn tile_fill(self, i: usize) -> Fill {
        let c = self.clips[i as int];
        if c.cloud {
            Fill::Cloud
        } else if !c.readable {
            Fill::Unreadable
        } else if i == self.refs.selected {
            Fill::Body
        } else {
            Fill::Picture
        }
    }

    /// The tile has neither a thumbnail nor a hovered stream to show.
    pub open spec fn tile_empty(self, i: usize) -> bool {
        !(self.clips[i as int].thumb is Ready) && !(self.tile_source(i) is Lane)
    }

    /// The border of the tile of clip `i`.
    pub open spec fn tile_border(self, i: usize) -> Border {
        let c = self.clips[i as int];
        if i == self.refs.selected {
            Border::Selected
        } else if self.marked.contains(i) {
            Border::Marked
        } else if self.refs.hovered == Some(i) {
            Border::Hovered
        } else if self.tile_empty(i) && c.readable && !c.cloud {
            Border::Outline
        } else {
            Border::Bare
        }
    }

    /// The tile of clip `i` has begun to fade in.
    pub open spec fn tile_shown(self, i: usize, now: u64) -> bool {
        !self.ui() || now > self.clips[i as int].spawned
    }

    /// The layer that the tile of clip `i` is drawn in: the hovered one over the
    /// rest, the selected one over all.
    pub open spec fn tile_layer(self, i: usize) -> int {
        if i == self.refs.selected {
            2
        } else if self.refs.hovered == Some(i) {
            1
        } else {
            0
        }
    }

    /// A tile as it is to be drawn.
    pub open spec fn tile_plan(self, p: Placed, flashing: bool) -> TilePlan {
        TilePlan {
            clip: p.clip,
            rect: p.rect,
            copy: p.copy,
            source: self.tile_source(p.clip),
            fill: self.tile_fill(p.clip),
            border: self.tile_border(p.clip),
            cloud: self.clips[p.clip as int].cloud,
            loading: self.clips[p.clip as int].thumb is Pending,
            flash: p.clip == self.refs.selected && !self.modes.quickview && flashing,
        }
    }

    /// Of the first `n` tiles, those of a layer, as they are to be drawn.
    pub open spec fn layer_plan(
        self,
        placed: Seq<Placed>,
        layer: int,
        flashing: bool,
        now: u64,
        n: int,
    ) -> Seq<TilePlan>
        decreases n,
    {
        if n <= 0 {
            Seq::empty()
        } else {
            let rest = self.layer_plan(placed, layer, flashing, now, n - 1);
            let p = placed[n - 1];
            if p.clip < self.clips.len() && self.tile_shown(p.clip, now) && self.tile_layer(p.clip)
                == layer {
                rest.push(self.tile_plan(p, flashing))
            } else {
                rest
            }
        }
    }

    /// The tiles as they are to be drawn, each over those before it.
    pub open spec fn tiles_planned(self, placed: Seq<Placed>, flashing: bool, now: u64) -> Seq<
        TilePlan,
    > {
        let n = placed.len() as int;
        self.layer_plan(placed, 0, flashing, now, n) + self.layer_plan(placed, 1, flashing, now, n)
            + self.layer_plan(placed, 2, flashing, now, n)
    }

    /// What lies behind the view that is up.
    pub open spec fn backdrop(self) -> Backdrop {
        let style = if self.modes.fullview {
            self.setup.tuning.fullview_backdrop
        } else {
            self.setup.tuning.quickview_backdrop
        };
        if !self.modal() {
            Backdrop::Grid
        } else if style == BackdropStyle::Blur {
            Backdrop::Blurred
        } else {
            Backdrop::Stage
        }
    }

    /// The state before a frame in a window of a size: a picture of the grid
    /// that was kept for a view goes with the view, and with the size.
    pub open spec fn thawed(self, window: Extent) -> State {
        if !self.modal() || (self.scene.frozen matches Some(f) && f != window) {
            State { scene: Scene { frozen: None, ..self.scene }, ..self }
        } else {
            self
        }
    }

    /// The grid is drawn anew: nothing kept stands for it, and the view that is
    /// up shows it.
    pub open spec fn draws_grid(self) -> bool {
        self.scene.frozen is None && !(self.backdrop() is Stage)
    }

    /// The state after the grid has been drawn, or what stood for it: behind a
    /// view the picture is kept; a change of the columns fades the old grid out.
    /// `tiles` says whether there were any.
    pub open spec fn grid_drawn(self, window: Extent, cols: usize, tiles: bool, now: u64) -> State {
        let frozen = if self.draws_grid() && self.modal() {
            Some(window)
        } else {
            self.scene.frozen
        };
        let transition = if self.modal() {
            None
        } else if self.ui() && !self.reflowing() && cols != self.scene.last_cols && self.scene.drawn {
            Some(now)
        } else {
            self.scene.transition
        };
        State {
            scene: Scene { frozen, transition, last_cols: cols, drawn: tiles, ..self.scene },
            ..self
        }
    }

    /// How much of the crossfade is over, in billionths; none where it is done.
    pub open spec fn fade_progress(self, now: u64) -> Option<u32> {
        match self.scene.transition {
            Some(at) => {
                let e = crate::state::since(now, at);
                let whole = crate::state::later(self.setup.tuning.zoom_fade, 1_000_000);
                if e >= whole {
                    None
                } else {
                    Some((e * BILLION / (whole as int)) as u32)
                }
            },
            None => None,
        }
    }

    /// The state without a crossfade that is done.
    pub open spec fn fade_checked(self, now: u64) -> State {
        if self.fade_progress(now) is None {
            State { scene: Scene { transition: None, ..self.scene }, ..self }
        } else {
            self
        }
    }

    /// What a view shows of the selected clip: the large stream, which may be
    /// one that a new listing is waited for, else the thumbnail.
    pub open spec fn video_source(self) -> Source {
        match self.selected_clip() {
            Some(c) => {
                let still = match c.thumb {
                    Thumb::Ready { slot, tw, th, .. } => Source::Still { slot, tw, th },
                    _ => Source::Blank,
                };
                match self.lanes.live_sel {
                    Some(l) => if (l.path == c.path || self.refs.pending_reselect == Some(l.path))
                        && self.showable(l) {
                        Source::Large
                    } else {
                        still
                    },
                    None => still,
                }
            },
            None => Source::Blank,
        }
    }

    /// How much of the selected clip has played, in billionths, its stream being
    /// at `pos`.
    pub open spec fn played(self, pos: int) -> Option<u32> {
        match (self.lanes.live_sel, self.selected_clip()) {
            (Some(l), Some(c)) => if l.path == c.path {
                match crate::chapters::usable(l.duration) {
                    Some(d) => Some(((pos % (d as int)) * BILLION / (d as int)) as u32),
                    None => None,
                }
            } else {
                None
            },
            _ => None,
        }
    }

    /// How strongly the position flashes after a skip, in billionths.
    pub open spec fn flash_strength(self, now: u64) -> Option<u32> {
        match self.modes.skip_flash_at {
            Some(at) => {
                let e = crate::state::since(now, at);
                if e >= SKIP_BAR_HOLD + SKIP_BAR_FADE {
                    None
                } else if e < SKIP_BAR_HOLD {
                    Some(BILLION)
                } else if self.ui() {
                    Some(
                        ((SKIP_BAR_HOLD + SKIP_BAR_FADE - e) * BILLION / (
                        SKIP_BAR_FADE as int)) as u32,
                    )
                } else {
                    None
                }
            },
            None => None,
        }
    }

    /// How visible the seekbar is, in billionths: wholly while it is scrubbed or
    /// the pointer has been over the video of late, then fading.
    pub open spec fn seekbar_strength(self, now: u64) -> u32 {
        if self.modes.scrubbing {
            BILLION
        } else {
            match self.modes.seekbar_seen {
                Some(at) => {
                    let e = crate::state::since(now, at);
                    let hide = self.setup.tuning.seekbar_hide;
                    let fade = crate::state::later(self.setup.tuning.seekbar_fade, 1_000_000);
                    if e <= hide {
                        BILLION
                    } else if !self.ui() || e - hide >= fade {
                        0
                    } else {
                        ((fade - (e - hide)) * BILLION / (fade as int)) as u32
                    }
                },
                None => 0,
            }
        }
    }

    /// The storyboard that the chapter chips are cut from may still come.
    pub open spec fn sheet_coming(self) -> bool {
        match self.selected_clip() {
            Some(c) => c.anim is Pending || (c.anim is Absent && !(c.thumb is Failed)),
            None => false,
        }
    }
}

/// The bar of background work: how much is done of what was asked for, which is
/// over the whole where more is answered than was counted, and how visible the bar
/// is, in billionths.
#[derive(Clone, Copy, PartialEq, Eq, Structural, Debug)]
pub struct JobsBar {
    pub progress: u128,
    pub fade: u32,
}

impl State {
    /// When the last of the background work was done, while the bar is fading.
    pub open spec fn work_finished(self, now: u64) -> Option<u64> {
        if self.working() {
            None
        } else {
            match self.jobs.finished_at {
                Some(at) => Some(at),
                None => Some(now),
            }
        }
    }

    /// The bar of background work.
    pub open spec fn jobs_bar(self, now: u64) -> Option<JobsBar> {
        if self.jobs.total == 0 {
            None
        } else {
            let progress = (self.jobs.done * BILLION / (self.jobs.total as int)) as u128;
            match self.work_finished(now) {
                Some(at) => {
                    let e = crate::state::since(now, at);
                    if e >= JOBS_FADE {
                        None
                    } else {
                        Some(
                            JobsBar {
                                progress,
                                fade: ((JOBS_FADE - e) * BILLION / (JOBS_FADE as int)) as u32,
                            },
                        )
                    }
                },
                None => Some(JobsBar { progress, fade: BILLION }),
            }
        }
    }

    /// The state after the bar has been drawn: once it has faded the count starts
    /// anew.
    pub open spec fn jobs_shown(self, now: u64) -> State {
        if self.jobs.total == 0 {
            self
        } else if self.jobs_bar(now) is None {
            State { jobs: Jobs { total: 0, done: 0, finished_at: None, ..self.jobs }, ..self }
        } else {
            State { jobs: Jobs { finished_at: self.work_finished(now), ..self.jobs }, ..self }
        }
    }
}

/// The ease of a crossing, from rest to rest: `x` millionths of the time gone,
/// in millionths of the way.
pub open spec fn eased(x: int) -> int {
    if x <= 0 {
        0
    } else if x >= 1_000_000 {
        1_000_000
    } else if x < 500_000 {
        4 * x * x * x / 1_000_000_000_000
    } else {
        let y = 2_000_000 - 2 * x;
        1_000_000 - y * y * y / 2_000_000_000_000
    }
}

/// How far a tile's crossing has come, in millionths of its way: a row further
/// down starts later.
pub open spec fn crossing_progress(elapsed: u64, row: usize, stagger: u64, time: u64) -> int {
    let late = row * stagger;
    eased(
        if elapsed <= late {
            0
        } else {
            (elapsed - late) * 1_000_000 / (crate::state::later(time, 1_000_000) as int)
        },
    )
}

/// The window's width, the gap, and how rows are staggered.
#[derive(Clone, Copy, PartialEq, Eq, Structural, Debug)]
pub struct Crossing {
    pub vw: i128,
    pub gap: i128,
    pub stagger: u64,
    pub time: u64,
}

/// Where a tile lies that glides or crosses. A tile that crosses comes in from
/// the window's other edge, while its copy leaves by the edge it went over.
pub open spec fn reflow_place(i: usize, r: TileReflow, c: Crossing) -> Placed {
    match r.wrap {
        Some(w) => {
            let p = crossing_progress(w.elapsed, r.row, c.stagger, c.time);
            let enter = if w.forward {
                -(r.rect.w + c.gap)
            } else {
                c.vw + c.gap
            };
            let exit = if w.forward {
                c.vw + c.gap
            } else {
                -(w.from.w + c.gap)
            };
            Placed {
                clip: i,
                rect: Rect {
                    x: crate::ribbon::between(enter, r.rect.x as int, p) as i128,
                    ..r.rect
                },
                copy: Some(
                    Rect {
                        x: crate::ribbon::between(w.from.x as int, exit, p) as i128,
                        ..w.from
                    },
                ),
            }
        },
        None => Placed { clip: i, rect: r.rect, copy: None },
    }
}

impl State {
    /// Where the tile of clip `i` lies: on its way, or at its place in the grid.
    pub open spec fn tile_place(self, lay: Layout, i: usize, c: Crossing) -> Placed {
        if self.reflowing() && i < self.reflow.len() && self.reflow[i as int].init && drawable(
            self.reflow[i as int],
        ) {
            reflow_place(i, self.reflow[i as int], c)
        } else {
            Placed { clip: i, rect: lay.rect_of(i as int), copy: None }
        }
    }

    /// Where the tiles at `places` lie.
    pub open spec fn tile_places(self, lay: Layout, places: Seq<usize>, c: Crossing) -> Seq<Placed> {
        places.map_values(|i: usize| self.tile_place(lay, i, c))
    }
}

/// The tiles of the first `n` of the strip's tiles, each once: where it is first
/// met, with a copy where it is met again.
pub open spec fn gathered(items: Seq<(usize, Rect)>, len: int, n: int) -> Seq<Placed>
    decreases n,
{
    if n <= 0 {
        Seq::empty()
    } else {
        let rest = gathered(items, len, n - 1);
        let (clip, rect) = items[n - 1];
        if clip >= len {
            rest
        } else {
            match met(rest, clip, 0) {
                Some(k) => rest.update(k, Placed { copy: Some(rect), ..rest[k] }),
                None => rest.push(Placed { clip, rect, copy: None }),
            }
        }
    }
}

/// Where a clip is among the tiles, from `k` on.
pub open spec fn met(placed: Seq<Placed>, clip: usize, k: int) -> Option<int>
    decreases placed.len() - k,
{
    if k < 0 || k >= placed.len() {
        None
    } else if placed[k].clip == clip {
        Some(k)
    } else {
        met(placed, clip, k + 1)
    }
}

/// The tiles of the first `r` rows of a strip, one after the other, in the
/// content, which is scrolled by `scroll`.
pub open spec fn strip_items(rows: Seq<RibbonRow>, scroll: int, r: int) -> Seq<(usize, Rect)>
    decreases r,
{
    if r <= 0 {
        Seq::empty()
    } else {
        let row = rows[r - 1];
        strip_items(rows, scroll, r - 1) + Seq::new(
            row.items@.len(),
            |k: int|
                (
                    row.items@[k].clip,
                    Rect {
                        x: row.items@[k].x,
                        y: (row.y + scroll) as i128,
                        w: row.items@[k].w,
                        h: row.h,
                    },
                ),
        )
    }
}


/// How long a tile shows one cell of its storyboard.
pub const SHEET_STEP: u64 = 600_000_000;

/// The cell of a storyboard of `cells` cells that the tile of clip `i` shows:
/// each tile one cell on from the tile before it.
pub open spec fn cycle_cell(i: usize, cells: u32, now: u64) -> int {
    (now / SHEET_STEP + i) % (cells as int)
}

/// The cell of its storyboard that the tile of clip `i` shows.
pub fn cell_of(i: usize, cells: u32, now: u64) -> (k: u32)
    requires
        cells > 0,
    ensures
        k == cycle_cell(i, cells, now),
        k < cells,
{
    let k: u128 = ((now / SHEET_STEP) as u128 + i as u128) % (cells as u128);
    k as u32
}

impl State {
    /// The state after tiles have been drawn: one that cycles keeps the loop
    /// awake until its next cell.
    pub open spec fn cycling_kept(self, plans: Seq<TilePlan>, now: u64) -> State {
        if exists|k: int| 0 <= k < plans.len() && (#[trigger] plans[k]).source is Sheet {
            self.woken(now, SHEET_STEP)
        } else {
            self
        }
    }
}

impl Switchblade {
    /// Keeps the loop awake for the tiles that cycle.
    pub fn keep_cycling(&mut self, plans: &Vec<TilePlan>, now: u64)
        requires
            old(self)@.wf(),
        ensures
            final(self)@ == old(self)@.cycling_kept(plans@, now),
            final(self)@.wf(),
    {
        let mut k: usize = 0;
        while k < plans.len()
            invariant
                k <= plans@.len(),
                *self == *old(self),
                self@.wf(),
                forall|j: int| 0 <= j < k ==> !((#[trigger] plans@[j]).source is Sheet),
            decreases plans@.len() - k,
        {
            match plans[k].source {
                Source::Sheet { slot: _, tw: _, th: _ } => {
                    assert(plans@[k as int].source is Sheet);
                    self.wake(now, SHEET_STEP);
                    return;
                },
                _ => {},
            }
            k += 1;
        }
    }
}

/// `a` parts of `whole`, in billionths.
fn billionths(a: u64, whole: u64) -> (r: u32)
    requires
        a <= whole,
        whole > 0,
    ensures
        r == a * BILLION / (whole as int),
        r <= BILLION,
{
    let p: u128 = (a as u128) * (BILLION as u128) / (whole as u128);
    proof {
        let x = a as int * 1_000_000_000;
        let w = whole as int;
        assert(0 <= x / w <= 1_000_000_000) by (nonlinear_arith)
            requires
                0 <= x <= w * 1_000_000_000,
                w > 0,
        ;
    }
    p as u32
}

impl Switchblade {
    fn can_show(&self, l: SelLive) -> (r: bool)
        ensures
            r == self@.showable(l),
    {
        l.first_frame.is_some() || match self.lanes.hires_shown {
            Some(p) => p == l.path,
            None => false,
        }
    }

    fn is_hovered(&self, i: usize) -> (r: bool)
        ensures
            r == (self@.refs.hovered == Some(i)),
    {
        match self.refs.hovered {
            Some(h) => h == i,
            None => false,
        }
    }

    fn still_of(&self, i: usize) -> (r: Source)
        requires
            i < self@.clips.len(),
        ensures
            r == self@.tile_still(i),
    {
        let c = self.clips[i];
        let cycles = self.modes.animated_thumbs && self.level().live() && !self.paused() && !(
        self.modes.quickview || self.modes.fullview);
        match (cycles, c.anim) {
            (true, Thumb::Ready { slot, at: _, tw, th }) => Source::Sheet { slot, tw, th },
            _ => match c.thumb {
                Thumb::Ready { slot, at: _, tw, th } => Source::Still { slot, tw, th },
                _ => Source::Blank,
            },
        }
    }

    fn source_of(&self, i: usize) -> (r: Source)
        requires
            i < self@.clips.len(),
        ensures
            r == self@.tile_source(i),
    {
        let c = self.clips[i];
        let still = self.still_of(i);
        let attended = match self.attention_target() {
            Some(t) => t == i,
            None => false,
        };
        if (i == self.refs.selected || attended) && !(self.modes.quickview || self.modes.fullview) {
            match self.lanes.live_sel {
                Some(l) => if l.path == c.path && self.can_show(l) {
                    Source::Large
                } else {
                    still
                },
                None => still,
            }
        } else if self.is_hovered(i) {
            match self.lanes.live_hover {
                Some(h) => if h.clip == i && h.first_frame.is_some() {
                    Source::Lane { slot: h.slot }
                } else {
                    still
                },
                None => still,
            }
        } else {
            still
        }
    }

    fn plan_tile(&self, p: Placed, flashing: bool) -> (r: TilePlan)
        requires
            p.clip < self@.clips.len(),
        ensures
            r == self@.tile_plan(p, flashing),
    {
        let c = self.clips[p.clip];
        let source = self.source_of(p.clip);
        let selected = p.clip == self.refs.selected;
        let pictured = match c.thumb {
            Thumb::Ready { slot: _, at: _, tw: _, th: _ } => true,
            _ => false,
        };
        let lane = match source {
            Source::Lane { slot: _ } => true,
            _ => false,
        };
        let fill = if c.cloud {
            Fill::Cloud
        } else if !c.readable {
            Fill::Unreadable
        } else if selected {
            Fill::Body
        } else {
            Fill::Picture
        };
        let border = if selected {
            Border::Selected
        } else if self.marked.contains(&p.clip) {
            Border::Marked
        } else if self.is_hovered(p.clip) {
            Border::Hovered
        } else if !pictured && !lane && c.readable && !c.cloud {
            Border::Outline
        } else {
            Border::Bare
        };
        let loading = match c.thumb {
            Thumb::Pending => true,
            _ => false,
        };
        TilePlan {
            clip: p.clip,
            rect: p.rect,
            copy: p.copy,
            source,
            fill,
            border,
            cloud: c.cloud,
            loading,
            flash: selected && !self.modes.quickview && flashing,
        }
    }

    fn layer_of(&self, i: usize) -> (r: u8)
        ensures
            r == self@.tile_layer(i),
    {
        if i == self.refs.selected {
            2
        } else if self.is_hovered(i) {
            1
        } else {
            0
        }
    }

    fn plan_layer(
        &self,
        placed: &Vec<Placed>,
        layer: u8,
        flashing: bool,
        now: u64,
        out: &mut Vec<TilePlan>,
    )
        ensures
            final(out)@ == old(out)@ + self@.layer_plan(
                placed@,
                layer as int,
                flashing,
                now,
                placed@.len() as int,
            ),
    {
        let ghost before = out@;
        let ui = self.level().ui();
        let mut k: usize = 0;
        assert(out@ =~= before + Seq::<TilePlan>::empty());
        while k < placed.len()
            invariant
                k <= placed@.len(),
                ui == self@.ui(),
                out@ == before + self@.layer_plan(placed@, layer as int, flashing, now, k as int),
            decreases placed@.len() - k,
        {
            let p = placed[k];
            if p.clip < self.clips.len() && (!ui || now > self.clips[p.clip].spawned)
                && self.layer_of(p.clip) == layer {
                let plan = self.plan_tile(p, flashing);
                let ghost rest = self@.layer_plan(placed@, layer as int, flashing, now, k as int);
                out.push(plan);
                assert(out@ =~= before + rest.push(plan));
            }
            k += 1;
        }
    }

    /// How the tiles are to be drawn, each over those before it: the hovered one
    /// over the rest, the selected one over all. A tile that has not begun to
    /// fade in is left out.
    pub fn plan_tiles(&self, placed: &Vec<Placed>, flashing: bool, now: u64) -> (r: Vec<TilePlan>)
        ensures
            r@ == self@.tiles_planned(placed@, flashing, now),
    {
        let mut out: Vec<TilePlan> = Vec::new();
        self.plan_layer(placed, 0, flashing, now, &mut out);
        self.plan_layer(placed, 1, flashing, now, &mut out);
        self.plan_layer(placed, 2, flashing, now, &mut out);
        assert(out@ =~= self@.tiles_planned(placed@, flashing, now));
        out
    }

    /// What lies behind the view that is up.
    pub fn backdrop(&self) -> (r: Backdrop)
        ensures
            r == self@.backdrop(),
    {
        if !(self.modes.quickview || self.modes.fullview) {
            return Backdrop::Grid;
        }
        let style = if self.modes.fullview {
            self.setup.tuning.fullview_backdrop
        } else {
            self.setup.tuning.quickview_backdrop
        };
        if style == BackdropStyle::Blur {
            Backdrop::Blurred
        } else {
            Backdrop::Stage
        }
    }

    /// Begins a frame in a window of a size. Returns whether the grid is to be
    /// drawn anew.
    pub fn begin_frame(&mut self, window: Extent) -> (r: bool)
        requires
            old(self)@.wf(),
        ensures
            final(self)@ == old(self)@.thawed(window),
            r == final(self)@.draws_grid(),
            final(self)@.wf(),
    {
        let stale = match self.scene.frozen {
            Some(f) => f.w != window.w || f.h != window.h,
            None => false,
        };
        if !(self.modes.quickview || self.modes.fullview) || stale {
            self.scene.frozen = None;
        }
        let staged = match self.backdrop() {
            Backdrop::Stage => true,
            _ => false,
        };
        self.scene.frozen.is_none() && !staged
    }

    /// Notes that the grid has been drawn in `cols` columns, or what stood for
    /// it.
    pub fn note_grid(&mut self, window: Extent, cols: usize, tiles: bool, now: u64)
        requires
            old(self)@.wf(),
        ensures
            final(self)@ == old(self)@.grid_drawn(window, cols, tiles, now),
            final(self)@.wf(),
    {
        let modal = self.modes.quickview || self.modes.fullview;
        let staged = match self.backdrop() {
            Backdrop::Stage => true,
            _ => false,
        };
        let fades = self.level().ui() && !self.reflow_active() && cols != self.scene.last_cols
            && self.scene.drawn;
        if self.scene.frozen.is_none() && !staged && modal {
            self.scene.frozen = Some(window);
        }
        if modal {
            self.scene.transition = None;
        } else if fades {
            self.scene.transition = Some(now);
        }
        self.scene.last_cols = cols;
        self.scene.drawn = tiles;
    }

    /// How much of the crossfade of the last arrangement is over, in
    /// billionths. One that is done is dropped.
    pub fn fade_arrangement(&mut self, now: u64) -> (r: Option<u32>)
        requires
            old(self)@.wf(),
        ensures
            r == old(self)@.fade_progress(now),
            final(self)@ == old(self)@.fade_checked(now),
            final(self)@.wf(),
    {
        match self.scene.transition {
            Some(at) => {
                let e: u64 = elapsed(now, at);
                let whole: u64 = if self.setup.tuning.zoom_fade < 1_000_000 {
                    1_000_000
                } else {
                    self.setup.tuning.zoom_fade
                };
                if e >= whole {
                    self.scene.transition = None;
                    None
                } else {
                    Some(billionths(e, whole))
                }
            },
            None => None,
        }
    }

    /// What a view shows of the selected clip.
    pub fn selected_video_src(&self) -> (r: Source)
        ensures
            r == self@.video_source(),
    {
        if self.refs.selected >= self.clips.len() {
            return Source::Blank;
        }
        let c = self.clips[self.refs.selected];
        let still = match c.thumb {
            Thumb::Ready { slot, at: _, tw, th } => Source::Still { slot, tw, th },
            _ => Source::Blank,
        };
        match self.lanes.live_sel {
            Some(l) => {
                let waited = match self.refs.pending_reselect {
                    Some(p) => p == l.path,
                    None => false,
                };
                if (l.path == c.path || waited) && self.can_show(l) {
                    Source::Large
                } else {
                    still
                }
            },
            None => still,
        }
    }

    /// How much of the selected clip has played, in billionths, its stream being
    /// at `pos`.
    pub fn seekbar_pos(&self, pos: i64) -> (r: Option<u32>)
        ensures
            r == self@.played(pos as int),
    {
        let l = match self.lanes.live_sel {
            Some(l) => l,
            None => {
                return None;
            },
        };
        if self.refs.selected >= self.clips.len() || self.clips[self.refs.selected].path != l.path {
            return None;
        }
        match crate::chapters::usable_duration(l.duration) {
            Some(d) => {
                let p: i64 = crate::chapters::rem(pos as i128, d);
                Some(billionths(p as u64, d as u64))
            },
            None => None,
        }
    }

    /// How strongly the position flashes after a skip, and how much has played,
    /// in billionths.
    pub fn skip_bar(&self, pos: i64, now: u64) -> (r: Option<(u32, u32)>)
        ensures
            r == (match (self@.flash_strength(now), self@.played(pos as int)) {
                (Some(a), Some(p)) => Some((p, a)),
                _ => None,
            }),
    {
        let at: u64 = match self.modes.skip_flash_at {
            Some(at) => at,
            None => {
                return None;
            },
        };
        let e: u64 = elapsed(now, at);
        if e >= SKIP_BAR_HOLD + SKIP_BAR_FADE {
            return None;
        }
        let a: u32 = if e < SKIP_BAR_HOLD {
            BILLION
        } else if self.level().ui() {
            billionths(SKIP_BAR_HOLD + SKIP_BAR_FADE - e, SKIP_BAR_FADE)
        } else {
            return None;
        };
        match self.seekbar_pos(pos) {
            Some(p) => Some((p, a)),
            None => None,
        }
    }

    /// How visible the seekbar is, in billionths.
    pub fn seekbar_alpha(&self, now: u64) -> (r: u32)
        ensures
            r == self@.seekbar_strength(now),
            r <= BILLION,
    {
        if self.modes.scrubbing {
            return BILLION;
        }
        match self.modes.seekbar_seen {
            Some(at) => {
                let e: u64 = elapsed(now, at);
                let hide: u64 = self.setup.tuning.seekbar_hide;
                let fade: u64 = if self.setup.tuning.seekbar_fade < 1_000_000 {
                    1_000_000
                } else {
                    self.setup.tuning.seekbar_fade
                };
                if e <= hide {
                    BILLION
                } else if !self.level().ui() || e - hide >= fade {
                    0
                } else {
                    billionths(fade - (e - hide), fade)
                }
            },
            None => 0,
        }
    }

    /// Whether the storyboard that the chapter chips are cut from may still
    /// come.
    pub fn awaits_sheet(&self) -> (r: bool)
        ensures
            r == self@.sheet_coming(),
    {
        if self.refs.selected >= self.clips.len() {
            return false;
        }
        let c = self.clips[self.refs.selected];
        match c.anim {
            Thumb::Pending => true,
            Thumb::Absent => match c.thumb {
                Thumb::Failed => false,
                _ => true,
            },
            _ => false,
        }
    }

    /// The bar of background work, if it is to be drawn.
    pub fn show_jobs(&mut self, now: u64) -> (r: Option<JobsBar>)
        requires
            old(self)@.wf(),
        ensures
            r == old(self)@.jobs_bar(now),
            final(self)@ == old(self)@.jobs_shown(now),
            final(self)@.wf(),
    {
        let total: u64 = self.jobs.total;
        let done: u64 = self.jobs.done;
        if total == 0 {
            return None;
        }
        let progress: u128 = done as u128 * 1_000_000_000 / (total as u128);
        if total > done {
            self.jobs.finished_at = None;
            return Some(JobsBar { progress, fade: BILLION });
        }
        let at: u64 = match self.jobs.finished_at {
            Some(at) => at,
            None => now,
        };
        let e: u64 = elapsed(now, at);
        if e >= JOBS_FADE {
            self.jobs.total = 0;
            self.jobs.done = 0;
            self.jobs.finished_at = None;
            None
        } else {
            self.jobs.finished_at = Some(at);
            Some(JobsBar { progress, fade: billionths(JOBS_FADE - e, JOBS_FADE) })
        }
    }
}

proof fn cube_fits(x: int)
    requires
        0 <= x <= 1_000_000,
    ensures
        0 <= x * x <= 1_000_000_000_000,
        0 <= x * x * x <= 1_000_000_000_000_000_000,
        4 * x * x == 4 * (x * x),
        4 * x * x * x == 4 * (x * x * x),
{
    assert(0 <= x * x <= 1_000_000_000_000) by (nonlinear_arith)
        requires
            0 <= x <= 1_000_000,
    ;
    assert(0 <= x * x * x <= 1_000_000_000_000_000_000) by (nonlinear_arith)
        requires
            0 <= x <= 1_000_000,
            0 <= x * x <= 1_000_000_000_000,
    ;
    assert(4 * x * x == 4 * (x * x)) by (nonlinear_arith);
    assert(4 * x * x * x == 4 * (x * x * x)) by (nonlinear_arith);
}

/// The ease of a crossing.
fn ease(x: i128) -> (r: i128)
    ensures
        r == eased(x as int),
        0 <= r <= 1_000_000,
{
    if x <= 0 {
        0
    } else if x >= 1_000_000 {
        1_000_000
    } else if x < 500_000 {
        proof {
            cube_fits(x as int);
            assert(x * x * x <= 125_000_000_000_000_000) by (nonlinear_arith)
                requires
                    0 <= x <= 500_000,
            ;
        }
        4 * x * x * x / 1_000_000_000_000
    } else {
        let y: i128 = 2_000_000 - 2 * x;
        proof {
            cube_fits(y as int);
        }
        1_000_000 - y * y * y / 2_000_000_000_000
    }
}

/// A crossing starts at rest and ends at rest, and never turns back.
pub proof fn ease_goes_from_rest_to_rest(a: int, b: int)
    requires
        a <= b,
    ensures
        a <= 0 ==> eased(a) == 0,
        b >= 1_000_000 ==> eased(b) == 1_000_000,
        eased(a) <= eased(b),
        0 <= eased(a) <= 1_000_000,
{
    let x = if a < 0 {
        0
    } else if a > 1_000_000 {
        1_000_000
    } else {
        a
    };
    let y = if b < 0 {
        0
    } else if b > 1_000_000 {
        1_000_000
    } else {
        b
    };
    cube_fits(x);
    cube_fits(y);
    assert(x * x * x <= y * y * y) by (nonlinear_arith)
        requires
            0 <= x <= y,
    ;
    if x >= 500_000 {
        let (p, q) = (2_000_000 - 2 * x, 2_000_000 - 2 * y);
        cube_fits(p);
        cube_fits(q);
        assert(q * q * q <= p * p * p) by (nonlinear_arith)
            requires
                0 <= q <= p,
        ;
    } else {
        assert(x * x * x <= 125_000_000_000_000_000) by (nonlinear_arith)
            requires
                0 <= x <= 500_000,
        ;
        if y >= 500_000 {
            let q = 2_000_000 - 2 * y;
            cube_fits(q);
        }
    }
}

/// A rectangle is within what is drawn.
pub open spec fn rect_drawable(r: Rect) -> bool {
    crate::step::rect_glides(r) && 0 <= r.w <= crate::flex::HEIGHT_LIMIT
}

/// A tile on its way is within what is drawn.
pub open spec fn drawable(r: TileReflow) -> bool {
    rect_drawable(r.rect) && (r.wrap matches Some(w) ==> rect_drawable(w.from))
}

fn is_drawable(r: &TileReflow) -> (b: bool)
    ensures
        b == drawable(*r),
{
    is_rect_drawable(&r.rect) && match &r.wrap {
        Some(w) => is_rect_drawable(&w.from),
        None => true,
    }
}

fn is_rect_drawable(r: &Rect) -> (b: bool)
    ensures
        b == rect_drawable(*r),
{
    in_reach(r.x) && in_reach(r.y) && in_reach(r.w) && in_reach(r.h) && 0 <= r.w && r.w
        <= crate::flex::HEIGHT_LIMIT
}

fn place_reflow(i: usize, r: TileReflow, c: Crossing) -> (p: Placed)
    requires
        drawable(r),
        0 <= c.vw <= crate::flex::LENGTH_LIMIT,
        0 <= c.gap <= crate::flex::LENGTH_LIMIT,
        c.stagger <= 1_000_000_000_000,
    ensures
        p == reflow_place(i, r, c),
{
    match r.wrap {
        Some(w) => {
            let time: u64 = if c.time < 1_000_000 {
                1_000_000
            } else {
                c.time
            };
            proof {
                assert(0 <= r.row * c.stagger <= 0xffff_ffff_ffff_ffff * 1_000_000_000_000)
                    by (nonlinear_arith)
                    requires
                        0 <= r.row <= 0xffff_ffff_ffff_ffff,
                        0 <= c.stagger <= 1_000_000_000_000,
                ;
            }
            let late: i128 = (r.row as i128) * (c.stagger as i128);
            let gone: i128 = if w.elapsed as i128 <= late {
                0
            } else {
                (w.elapsed as i128 - late) * 1_000_000 / (time as i128)
            };
            let p: i128 = ease(gone);
            let enter: i128 = if w.forward {
                -(r.rect.w + c.gap)
            } else {
                c.vw + c.gap
            };
            let exit: i128 = if w.forward {
                c.vw + c.gap
            } else {
                -(w.from.w + c.gap)
            };
            Placed {
                clip: i,
                rect: Rect { x: glide(enter, r.rect.x, p), ..r.rect },
                copy: Some(Rect { x: glide(w.from.x, exit, p), ..w.from }),
            }
        },
        None => Placed { clip: i, rect: r.rect, copy: None },
    }
}

impl Switchblade {
    /// Where the tiles of the rows `first` to `last` lie.
    pub fn place_grid(&self, lay: &Layout, first: usize, last: usize, c: Crossing) -> (v: Vec<Placed>)
        requires
            self@.wf(),
            lay.wf(),
            lay.len <= crate::state::MAX_CLIPS,
            last == 0 || last < lay.row_count(),
            0 <= c.vw <= crate::flex::LENGTH_LIMIT,
            0 <= c.gap <= crate::flex::LENGTH_LIMIT,
            c.stagger <= 1_000_000_000_000,
        ensures
            v@ == self@.tile_places(
                *lay,
                crate::grid::places_of(
                    *lay,
                    crate::step::rows_between(first, last),
                    crate::step::rows_between(first, last).len() as int,
                ),
                c,
            ),
    {
        proof {
            crate::media::row_count_fits(*lay);
        }
        let rows = crate::step::count_rows(first, last);
        let places = crate::grid::zone_places(lay, &rows);
        let moving = self.reflow_active();
        let mut v: Vec<Placed> = Vec::new();
        let mut k: usize = 0;
        while k < places.len()
            invariant
                k <= places@.len(),
                lay.wf(),
                moving == self@.reflowing(),
                0 <= c.vw <= crate::flex::LENGTH_LIMIT,
                0 <= c.gap <= crate::flex::LENGTH_LIMIT,
                c.stagger <= 1_000_000_000_000,
                v@.len() == k,
                forall|j: int|
                    0 <= j < k ==> (#[trigger] v@[j]) == self@.tile_place(*lay, places@[j], c),
            decreases places@.len() - k,
        {
            let i: usize = places[k];
            let p = if moving && i < self.reflow.len() && self.reflow[i].init && is_drawable(
                &self.reflow[i],
            ) {
                place_reflow(i, self.reflow[i], c)
            } else {
                Placed { clip: i, rect: lay.tile_rect(i), copy: None }
            };
            v.push(p);
            k += 1;
        }
        assert(v@ =~= self@.tile_places(*lay, places@, c));
        v
    }

    /// Where the tiles of a strip lie that is held or settles: each once, with a
    /// copy where it stands in a second row.
    pub fn place_strip(&self, rows: &Vec<RibbonRow>, scroll: i128) -> (v: Vec<Placed>)
        requires
            forall|r: int|
                0 <= r < rows@.len() ==> crate::ribbon::near(#[trigger] rows@[r]),
            -4 * crate::ribbon::FAR <= scroll <= 4 * crate::ribbon::FAR,
        ensures
            ({
                let items = strip_items(rows@, scroll as int, rows@.len() as int);
                v@ == gathered(items, self@.clips.len() as int, items.len() as int)
            }),
    {
        let n: usize = self.clips.len();
        let mut items: Vec<(usize, Rect)> = Vec::new();
        let mut r: usize = 0;
        while r < rows.len()
            invariant
                r <= rows@.len(),
                forall|r: int| 0 <= r < rows@.len() ==> crate::ribbon::near(#[trigger] rows@[r]),
                -4 * crate::ribbon::FAR <= scroll <= 4 * crate::ribbon::FAR,
                items@ == strip_items(rows@, scroll as int, r as int),
            decreases rows@.len() - r,
        {
            let row = &rows[r];
            let ghost before = items@;
            assert(crate::ribbon::near(rows@[r as int]));
            let y: i128 = row.y + scroll;
            let mut k: usize = 0;
            while k < row.items.len()
                invariant
                    k <= row.items@.len(),
                    y == row.y + scroll,
                    items@ == before + Seq::new(
                        k as nat,
                        |k: int|
                            (
                                row.items@[k].clip,
                                Rect { x: row.items@[k].x, y, w: row.items@[k].w, h: row.h },
                            ),
                    ),
                decreases row.items@.len() - k,
            {
                let it = row.items[k];
                items.push((it.clip, Rect { x: it.x, y, w: it.w, h: row.h }));
                k += 1;
                assert(items@ =~= before + Seq::new(
                    k as nat,
                    |k: int|
                        (
                            row.items@[k].clip,
                            Rect { x: row.items@[k].x, y, w: row.items@[k].w, h: row.h },
                        ),
                ));
            }
            r += 1;
            assert(items@ =~= strip_items(rows@, scroll as int, r as int));
        }
        let mut v: Vec<Placed> = Vec::new();
        let mut k: usize = 0;
        while k < items.len()
            invariant
                k <= items@.len(),
                v@ == gathered(items@, n as int, k as int),
            decreases items@.len() - k,
        {
            let (clip, rect) = items[k];
            if clip < n {
                match find_placed(&v, clip) {
                    Some(j) => {
                        let p = v[j];
                        v.set(j, Placed { copy: Some(rect), ..p });
                    },
                    None => {
                        v.push(Placed { clip, rect, copy: None });
                    },
                }
            }
            k += 1;
        }
        v
    }
}

fn find_placed(v: &Vec<Placed>, clip: usize) -> (r: Option<usize>)
    ensures
        match r {
            Some(k) => met(v@, clip, 0) == Some(k as int) && k < v@.len(),
            None => met(v@, clip, 0) is None,
        },
{
    let mut k: usize = 0;
    while k < v.len()
        invariant
            k <= v@.len(),
            met(v@, clip, k as int) == met(v@, clip, 0),
        decreases v@.len() - k,
    {
        if v[k].clip == clip {
            return Some(k);
        }
        k += 1;
    }
    None
}

} // verus!
