//! What a frame does before anything is drawn: what is hovered, which bars go,
//! how tiles glide, and when the next frame is due.

use vstd::prelude::*;

use crate::grid::{Layout, Rect};
use crate::model::{unplaced_tile, Effect, TileReflow, WrapEvent};
use crate::ribbon::glide;
use crate::state::{after, elapsed, Modes, Refs, Scene, State, Switchblade};
use crate::tuning::GridStyle;

verus! {

/// How long the filmstrip is left where a gesture put it.
pub const STRIP_REST: u64 = 120_000_000;

/// How long after the last scroll the scrolling coasts.
pub const COAST_AFTER: u64 = 40_000_000;

/// How far a tile may be from its place and count as there, in micropixels.
pub const GLIDE_REST: i128 = 300_000;

/// Coordinates up to this are glided between; a tile further out is put in its
/// place at once.
pub const GLIDE_LIMIT: i128 = 40_000_000_000_000_000_000_000_000_000_000_000_000;

impl State {
    /// The state with what the pointer is over, given the tile and the chip
    /// there. A view hides the grid, a bar hides both, and a pinch hovers
    /// nothing.
    pub open spec fn hovers(self, tile: Option<usize>, chip: Option<usize>, now: u64) -> State {
        let t = if self.modal() || self.chapters is Some || self.scene.ribbon is Some {
            None
        } else {
            tile
        };
        let c = if self.modes.quickview && !self.modes.fullview && self.chapters is None {
            chip
        } else {
            None
        };
        State {
            refs: Refs {
                hovered: t,
                strip_hover: c,
                hover_changed_at: if t != self.refs.hovered || c != self.refs.strip_hover {
                    now
                } else {
                    self.refs.hover_changed_at
                },
                ..self.refs
            },
            ..self
        }
    }

    /// The filmstrip comes home to the selection: a gesture has rested, and the
    /// strip follows the selection or the selection has moved since.
    pub open spec fn strip_homes(self, now: u64) -> bool {
        self.modes.quickview && (self.setup.tuning.strip_scroll_selects
            || self.refs.sel_changed_at >= self.scene.last_scroll_event) && crate::state::since(
            now,
            self.scene.last_scroll_event,
        ) > STRIP_REST
    }

    /// The state after a bar that shows for a moment only has looked at the
    /// clock.
    pub open spec fn peek_checked(self, now: u64) -> State {
        match self.chapters {
            Some(b) => match b.peek_until {
                Some(until) => if b.open && now >= until {
                    crate::chapters::with_bar(
                        self,
                        crate::state::BarModel { open: false, peek_until: None, ..b },
                    ).woken(now, crate::chapters::BAR_WAKE)
                } else {
                    self
                },
                None => self,
            },
            None => self,
        }
    }

    /// The state without a bar that has gone down; `down` says that its slide
    /// has landed.
    pub open spec fn bar_landed(self, down: bool) -> State {
        match self.chapters {
            Some(b) => if !b.open && down {
                State { chapters: None, ..self }
            } else {
                self
            },
            None => self,
        }
    }

    /// The clip is the one that fills the full view.
    pub open spec fn fills_the_view(self, path: u64) -> bool {
        self.modes.fullview && (self.selected_clip() matches Some(c) && c.path == path)
    }

    /// The state without a bar, or a chapter gone to without one, whose clip is not
    /// the selection or that has lost the full view.
    pub open spec fn bar_kept(self) -> State {
        State {
            chapters: match self.chapters {
                Some(b) if self.fills_the_view(b.path) => Some(b),
                _ => None,
            },
            modes: Modes {
                gone_to: match self.modes.gone_to {
                    Some(g) if self.fills_the_view(g.path) => Some(g),
                    _ => None,
                },
                ..self.modes
            },
            ..self
        }
    }

    /// The state with the chapters of the clip in the full view asked for, once.
    pub open spec fn chapters_prewarmed(self, now: u64) -> State {
        if self.modes.fullview && self.prewarmable(now) {
            match self.chaptered_clip() {
                Some(path) => if self.chapter_probe.contains_key(path) {
                    self
                } else {
                    State { chapter_probe: self.chapter_probe.insert(path, None), ..self }.asked(
                        Effect::RequestChapters { path },
                    )
                },
                None => self,
            }
        } else {
            self
        }
    }

    /// Something moves on the screen.
    pub open spec fn animating(self, now: u64) -> bool {
        self.scene.motion || self.scene.transition is Some || now < self.scene.wake_until
    }
}

/// A coordinate that is glided to.
pub open spec fn glides(v: i128) -> bool {
    -GLIDE_LIMIT <= v <= GLIDE_LIMIT
}

pub open spec fn rect_glides(r: Rect) -> bool {
    glides(r.x) && glides(r.y) && glides(r.w) && glides(r.h)
}

/// A tile on its way, part `a` of what is left covered, in millionths.
pub open spec fn glided(r: Rect, to: Rect, a: i128) -> Rect {
    Rect {
        x: crate::ribbon::between(r.x as int, to.x as int, a as int) as i128,
        y: crate::ribbon::between(r.y as int, to.y as int, a as int) as i128,
        w: crate::ribbon::between(r.w as int, to.w as int, a as int) as i128,
        h: crate::ribbon::between(r.h as int, to.h as int, a as int) as i128,
    }
}

/// Two coordinates are so far apart that a tile is still on its way.
pub open spec fn off(a: i128, b: i128) -> bool {
    a - b > GLIDE_REST || b - a > GLIDE_REST
}

pub open spec fn rect_off(a: Rect, b: Rect) -> bool {
    off(a.x, b.x) || off(a.y, b.y) || off(a.w, b.w) || off(a.h, b.h)
}

/// A tile after `dt` more: one that crosses a row boundary gets there in time.
pub open spec fn wrap_ticked(r: TileReflow, dt: u64, time: u64) -> TileReflow {
    match r.wrap {
        Some(w) => {
            let e = crate::state::soon(w.elapsed, dt);
            TileReflow {
                wrap: if e >= time {
                    None
                } else {
                    Some(WrapEvent { elapsed: e, ..w })
                },
                ..r
            }
        },
        None => r,
    }
}

/// A tile on its way to place `to` in row `row`: one that was never placed is
/// put there, one that changes its row is put there and, when a zoom did it,
/// shown crossing; any other glides.
pub open spec fn reflowed(r: TileReflow, to: Rect, row: usize, zoomed: bool, a: i128) -> TileReflow {
    if !r.init {
        TileReflow { rect: to, row, init: true, wrap: None }
    } else if row != r.row {
        TileReflow {
            rect: to,
            row,
            init: true,
            wrap: if zoomed {
                Some(WrapEvent { from: r.rect, elapsed: 0, forward: row > r.row })
            } else {
                None
            },
        }
    } else if rect_glides(r.rect) && rect_glides(to) {
        TileReflow { rect: glided(r.rect, to, a), ..r }
    } else {
        TileReflow { rect: to, ..r }
    }
}

/// A tile is on its way after a step.
pub open spec fn under_way(before: TileReflow, after: TileReflow, to: Rect, row: usize) -> bool {
    after.wrap is Some || (before.init && row == before.row && rect_off(after.rect, to))
}

/// The table with the tiles of `places[..k]` moved.
pub open spec fn table_moved(
    table: Seq<TileReflow>,
    lay: Layout,
    places: Seq<usize>,
    zoomed: bool,
    a: i128,
    k: int,
) -> Seq<TileReflow>
    decreases k,
{
    if k <= 0 {
        table
    } else {
        let t = table_moved(table, lay, places, zoomed, a, k - 1);
        let i = places[k - 1];
        if i < t.len() {
            t.update(
                i as int,
                reflowed(
                    t[i as int],
                    lay.rect_of(i as int),
                    lay.row_holding(i as int) as usize,
                    zoomed,
                    a,
                ),
            )
        } else {
            t
        }
    }
}

/// One of the tiles of `places[..k]` is on its way after its step.
pub open spec fn any_under_way(
    table: Seq<TileReflow>,
    lay: Layout,
    places: Seq<usize>,
    zoomed: bool,
    a: i128,
    k: int,
) -> bool
    decreases k,
{
    if k <= 0 {
        false
    } else {
        let t = table_moved(table, lay, places, zoomed, a, k - 1);
        let u = table_moved(table, lay, places, zoomed, a, k);
        let i = places[k - 1];
        any_under_way(table, lay, places, zoomed, a, k - 1) || (i < t.len() && under_way(
            t[i as int],
            u[i as int],
            lay.rect_of(i as int),
            lay.row_holding(i as int) as usize,
        ))
    }
}

/// The table brought to the size of the library, each crossing `dt` further.
pub open spec fn table_ticked(table: Seq<TileReflow>, n: nat, dt: u64, time: u64) -> Seq<TileReflow> {
    Seq::new(
        n,
        |i: int|
            if i < table.len() {
                wrap_ticked(table[i], dt, time)
            } else {
                crate::model::unplaced()
            },
    )
}

/// A tile of the table is crossing.
pub open spec fn crossing(table: Seq<TileReflow>, i: int) -> bool {
    0 <= i < table.len() && table[i].wrap is Some
}


impl State {
    /// Tiles glide to their places and cross row boundaries.
    pub open spec fn reflowing(self) -> bool {
        self.setup.tuning.grid_layout == crate::tuning::GridStyle::Flexible
            && self.setup.tuning.zoom_wrap && !self.modal() && self.ui()
    }

    /// How long a tile takes to cross a row boundary.
    pub open spec fn wrap_time(self) -> u64 {
        crate::state::later(self.setup.tuning.zoom_wrap_time, 1_000_000)
    }

    /// The state after the tiles at `places` have moved for `dt`, `a` millionths
    /// of the way that is left; `zoomed` says that the zoom changed the rows.
    /// Where tiles do not glide, nothing is kept of where they were.
    pub open spec fn reflow_stepped(
        self,
        lay: Layout,
        places: Seq<usize>,
        a: i128,
        dt: u64,
        zoomed: bool,
    ) -> State {
        if !self.reflowing() {
            State { reflow: Seq::empty(), ..self }
        } else {
            let ticked = table_ticked(self.reflow, self.clips.len(), dt, self.wrap_time());
            let n = places.len() as int;
            State {
                reflow: table_moved(ticked, lay, places, zoomed, a, n),
                scene: Scene {
                    motion: self.scene.motion || (exists|i: int| crossing(ticked, i))
                        || any_under_way(ticked, lay, places, zoomed, a, n),
                    ..self.scene
                },
                ..self
            }
        }
    }
}

pub(crate) fn in_reach(v: i128) -> (r: bool)
    ensures
        r == glides(v),
{
    -GLIDE_LIMIT <= v && v <= GLIDE_LIMIT
}

fn is_off(a: i128, b: i128) -> (r: bool)
    requires
        glides(a),
        glides(b),
    ensures
        r == off(a, b),
{
    a - b > GLIDE_REST || b - a > GLIDE_REST
}

/// Moves one tile a step towards its place. Returns it and whether it is on its
/// way.
fn move_tile(r: TileReflow, to: Rect, row: usize, zoomed: bool, a: i128) -> (m: (TileReflow, bool))
    requires
        0 <= a <= 1_000_000,
        rect_glides(to),
    ensures
        m.0 == reflowed(r, to, row, zoomed, a),
        m.1 == under_way(r, m.0, to, row),
{
    if !r.init {
        (TileReflow { rect: to, row, init: true, wrap: None }, false)
    } else if row != r.row {
        let wrap: Option<WrapEvent> = if zoomed {
            Some(WrapEvent { from: r.rect, elapsed: 0, forward: row > r.row })
        } else {
            None
        };
        (TileReflow { rect: to, row, init: true, wrap }, zoomed)
    } else if in_reach(r.rect.x) && in_reach(r.rect.y) && in_reach(r.rect.w) && in_reach(r.rect.h) {
        let rect = Rect {
            x: glide(r.rect.x, to.x, a),
            y: glide(r.rect.y, to.y, a),
            w: glide(r.rect.w, to.w, a),
            h: glide(r.rect.h, to.h, a),
        };
        let away = is_off(rect.x, to.x) || is_off(rect.y, to.y) || is_off(rect.w, to.w) || is_off(
            rect.h,
            to.h,
        );
        (TileReflow { rect, ..r }, r.wrap.is_some() || away)
    } else {
        (TileReflow { rect: to, ..r }, r.wrap.is_some())
    }
}

fn tick_table(table: &Vec<TileReflow>, n: usize, dt: u64, time: u64) -> (r: (Vec<TileReflow>, bool))
    ensures
        r.0@ == table_ticked(table@, n as nat, dt, time),
        r.1 == exists|i: int| crossing(r.0@, i),
{
    let mut t: Vec<TileReflow> = Vec::new();
    let mut any = false;
    let mut i: usize = 0;
    while i < n
        invariant
            i <= n,
            t@.len() == i,
            forall|k: int|
                0 <= k < i ==> (#[trigger] t@[k]) == table_ticked(table@, n as nat, dt, time)[k],
            any ==> exists|k: int| crossing(t@, k),
            !any ==> forall|k: int| 0 <= k < i ==> (#[trigger] t@[k]).wrap is None,
        decreases n - i,
    {
        let r: TileReflow = if i < table.len() {
            let r = table[i];
            match r.wrap {
                Some(w) => {
                    let e: u64 = after(w.elapsed, dt);
                    if e >= time {
                        TileReflow { wrap: None, ..r }
                    } else {
                        TileReflow { wrap: Some(WrapEvent { elapsed: e, ..w }), ..r }
                    }
                },
                None => r,
            }
        } else {
            unplaced_tile()
        };
        let ghost before = t@;
        t.push(r);
        if r.wrap.is_some() {
            any = true;
            assert(crossing(t@, i as int));
        } else if any {
            proof {
                let k = choose|k: int| crossing(before, k);
                assert(crossing(t@, k));
            }
        }
        i += 1;
    }
    assert(t@ =~= table_ticked(table@, n as nat, dt, time));
    (t, any)
}

/// The rows `first` to `last`, downward.
pub fn count_rows(first: usize, last: usize) -> (v: Vec<usize>)
    requires
        last < usize::MAX,
    ensures
        v@ == rows_between(first, last),
{
    let mut v: Vec<usize> = Vec::new();
    let mut r: usize = first;
    while r <= last
        invariant
            first <= last ==> first <= r <= last + 1,
            first > last ==> r == first,
            last < usize::MAX,
            v@.len() == r - first,
            forall|k: int| 0 <= k < v@.len() ==> (#[trigger] v@[k]) == first + k,
        decreases last + 1 - r,
    {
        v.push(r);
        r += 1;
    }
    assert(v@ =~= rows_between(first, last));
    v
}

/// The rows `first` to `last`, downward.
pub open spec fn rows_between(first: usize, last: usize) -> Seq<usize> {
    Seq::new(
        (if first <= last {
            last - first + 1
        } else {
            0
        }) as nat,
        |k: int| (first + k) as usize,
    )
}

impl Switchblade {
    /// Notes what the pointer is over, given the tile and the chip there.
    pub fn hover(&mut self, tile: Option<usize>, chip: Option<usize>, now: u64)
        requires
            old(self)@.wf(),
            crate::input::is_place(tile, old(self)@.clips.len() as int),
            crate::input::is_place(chip, old(self)@.clips.len() as int),
        ensures
            final(self)@ == old(self)@.hovers(tile, chip, now),
            final(self)@.wf(),
    {
        let modal = self.modes.quickview || self.modes.fullview;
        let t: Option<usize> = if modal || self.chapters.is_some() || self.scene.ribbon.is_some() {
            None
        } else {
            tile
        };
        let c: Option<usize> = if self.modes.quickview && !self.modes.fullview
            && self.chapters.is_none() {
            chip
        } else {
            None
        };
        if !same_place(t, self.refs.hovered) || !same_place(c, self.refs.strip_hover) {
            self.refs.hover_changed_at = now;
        }
        self.refs.hovered = t;
        self.refs.strip_hover = c;
    }

    /// Whether the filmstrip comes home to the selection.
    pub fn homes_strip(&self, now: u64) -> (r: bool)
        ensures
            r == self@.strip_homes(now),
    {
        self.modes.quickview && (self.setup.tuning.strip_scroll_selects || self.refs.sel_changed_at
            >= self.scene.last_scroll_event) && elapsed(now, self.scene.last_scroll_event)
            > STRIP_REST
    }

    /// Whether the scrolling coasts: where it may, once no scroll has come for a
    /// moment.
    pub fn coasts(&self, inertia: bool, now: u64) -> (r: bool)
        ensures
            r == (inertia && crate::state::since(now, self@.scene.last_scroll_event) > COAST_AFTER),
    {
        inertia && elapsed(now, self.scene.last_scroll_event) > COAST_AFTER
    }

    /// Whether the zoom is taken at once, because the tiles slide to their new
    /// places themselves.
    pub fn zooms_at_once(&self) -> (r: bool)
        ensures
            r == (self@.ui() && self@.setup.tuning.zoom_wrap && self@.setup.tuning.grid_layout
                == GridStyle::Flexible),
    {
        self.level().ui() && self.setup.tuning.zoom_wrap && self.setup.tuning.grid_layout
            == GridStyle::Flexible
    }

    /// Where the rows of the packing start that the strip was left with, if it was
    /// left in a window of this width and at this zoom.
    pub fn packing(&self, vw: i128, zoom: i128) -> (r: Option<&Vec<usize>>)
        ensures
            match self@.pack {
                Some(p) => if p.vw == vw && p.zoom == zoom {
                    r matches Some(v) && v@ == p.starts@
                } else {
                    r is None
                },
                None => r is None,
            },
    {
        match &self.pack {
            Some(p) => if p.vw == vw && p.zoom == zoom {
                Some(&p.starts)
            } else {
                None
            },
            None => None,
        }
    }

    /// Takes a bar down that was to show for a moment only.
    pub fn check_peek(&mut self, now: u64)
        requires
            old(self)@.wf(),
        ensures
            final(self)@ == old(self)@.peek_checked(now),
            final(self)@.wf(),
    {
        let over = match &self.chapters {
            Some(b) => match b.peek_until {
                Some(until) => b.open && now >= until,
                None => false,
            },
            None => false,
        };
        if over {
            match self.chapters.take() {
                Some(mut b) => {
                    b.open = false;
                    b.peek_until = None;
                    self.chapters = Some(b);
                },
                None => {},
            }
            self.wake(now, crate::chapters::BAR_WAKE);
        }
    }

    /// Drops a bar that has gone down.
    pub fn land_bar(&mut self, down: bool)
        requires
            old(self)@.wf(),
        ensures
            final(self)@ == old(self)@.bar_landed(down),
            final(self)@.wf(),
    {
        let closed = match &self.chapters {
            Some(b) => !b.open,
            None => false,
        };
        if closed && down {
            self.chapters = None;
        }
    }

    /// Drops a bar, or a chapter gone to without one, that has lost the full view
    /// or its clip.
    pub fn keep_bar(&mut self)
        requires
            old(self)@.wf(),
        ensures
            final(self)@ == old(self)@.bar_kept(),
            final(self)@.wf(),
    {
        let filling: Option<u64> = if self.modes.fullview && self.refs.selected < self.clips.len() {
            Some(self.clips[self.refs.selected].path)
        } else {
            None
        };
        let kept = match (&self.chapters, filling) {
            (Some(b), Some(path)) => path == b.path,
            _ => false,
        };
        if !kept {
            self.chapters = None;
        }
        let held = match (self.modes.gone_to, filling) {
            (Some(g), Some(path)) => path == g.path,
            _ => false,
        };
        if !held {
            self.modes.gone_to = None;
        }
    }

    /// Asks for the chapters of the clip in the full view before they are
    /// needed. Returns whether work that only prepares may start there.
    pub fn prewarm_chapters(&mut self, now: u64) -> (r: bool)
        requires
            old(self)@.wf(),
        ensures
            final(self)@ == old(self)@.chapters_prewarmed(now),
            r == (old(self)@.modes.fullview && !old(self)@.setup.demo && old(self)@.prewarmable(now)),
            final(self)@.wf(),
    {
        if !self.modes.fullview || self.setup.demo || !self.prewarm_ok(now) {
            return false;
        }
        if self.refs.selected < self.clips.len() {
            let c = self.clips[self.refs.selected];
            if c.readable && !c.cloud && !self.chapter_probe.contains_key(&c.path) {
                self.chapter_probe.insert(c.path, None);
                self.ask(Effect::RequestChapters { path: c.path });
            }
        }
        true
    }

    /// Moves the tiles of the rows `first` to `last` for `dt` towards their
    /// places, `a` millionths of the way that is left. `zoomed` says that the
    /// zoom changed the rows.
    pub fn step_reflow(
        &mut self,
        lay: &Layout,
        first: usize,
        last: usize,
        a: i128,
        dt: u64,
        zoomed: bool,
    )
        requires
            old(self)@.wf(),
            lay.wf(),
            lay.within_range(),
            lay.len == old(self)@.clips.len(),
            last == 0 || last < lay.row_count(),
            0 <= a <= 1_000_000,
        ensures
            final(self)@ == old(self)@.reflow_stepped(
                *lay,
                crate::grid::places_of(
                    *lay,
                    rows_between(first, last),
                    rows_between(first, last).len() as int,
                ),
                a,
                dt,
                zoomed,
            ),
            final(self)@.wf(),
    {
        if !self.reflow_active() {
            self.reflow.clear();
            return;
        }
        proof {
            crate::media::row_count_fits(*lay);
        }
        let rows = count_rows(first, last);
        let places = crate::grid::zone_places(lay, &rows);
        let time: u64 = if self.setup.tuning.zoom_wrap_time < 1_000_000 {
            1_000_000
        } else {
            self.setup.tuning.zoom_wrap_time
        };
        let n: usize = self.clips.len();
        let (mut table, crossing_any) = tick_table(&self.reflow, n, dt, time);
        let ghost ticked = table@;
        let mut moving = false;
        let mut k: usize = 0;
        while k < places.len()
            invariant
                k <= places@.len(),
                lay.wf(),
                lay.within_range(),
                lay.len == n,
                n <= crate::state::MAX_CLIPS,
                0 <= a <= 1_000_000,
                ticked.len() == n,
                table@.len() == n,
                table@ == table_moved(ticked, *lay, places@, zoomed, a, k as int),
                moving == any_under_way(ticked, *lay, places@, zoomed, a, k as int),
            decreases places@.len() - k,
        {
            let i: usize = places[k];
            if i < n {
                let to = lay.tile_rect(i);
                let row: usize = lay.row_of(i);
                proof {
                    crate::grid::rect_in_range(*lay, i as int);
                    crate::grid::row_of_is_one(*lay, i as int, row as int);
                }
                let (r, away) = move_tile(table[i], to, row, zoomed, a);
                table.set(i, r);
                moving = moving || away;
            }
            k += 1;
        }
        self.reflow = table;
        if crossing_any || moving {
            self.scene.motion = true;
        }
    }

    /// Whether something moves on the screen, so that frames follow at once.
    pub fn is_animating(&self, now: u64) -> (r: bool)
        ensures
            r == self@.animating(now),
    {
        self.scene.motion || self.scene.transition.is_some() || now < self.scene.wake_until
    }

    /// When the next frame is due: with the next frame of a stream that is
    /// shown, given when those of the large and of the hovered stream are.
    pub fn next_frame_due(&self, sel: Option<u64>, hover: Option<u64>) -> (r: Option<u64>)
        ensures
            r == ({
                let s = if self@.lanes.live_sel is Some && !self@.lanes.sel_parked {
                    sel
                } else {
                    None
                };
                let h = if self@.lanes.live_hover is Some {
                    hover
                } else {
                    None
                };
                match (s, h) {
                    (Some(a), Some(b)) => Some(
                        if a < b {
                            a
                        } else {
                            b
                        },
                    ),
                    (Some(a), None) => Some(a),
                    (None, b) => b,
                }
            }),
    {
        let s: Option<u64> = if self.lanes.live_sel.is_some() && !self.lanes.sel_parked {
            sel
        } else {
            None
        };
        let h: Option<u64> = if self.lanes.live_hover.is_some() {
            hover
        } else {
            None
        };
        match (s, h) {
            (Some(a), Some(b)) => Some(
                if a < b {
                    a
                } else {
                    b
                },
            ),
            (Some(a), None) => Some(a),
            (None, b) => b,
        }
    }
}

fn same_place(a: Option<usize>, b: Option<usize>) -> (r: bool)
    ensures
        r == (a == b),
{
    match (a, b) {
        (Some(x), Some(y)) => x == y,
        (None, None) => true,
        _ => false,
    }
}

} // verus!
