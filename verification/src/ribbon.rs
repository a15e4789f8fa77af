//! A pinch on the flexible grid. The library is one long strip of tiles wrapped
//! at the window's width and held at a point on the tile under the fingers:
//! zooming scales the strip about that point, and a tile pushed past one edge
//! is at the same time entering the neighbouring row. Let go, the strip settles
//! on the nearest rows without a tile cut by the window.

use vstd::prelude::*;

use crate::flex;
use crate::flex::{Aspect, FlexGrid, FlexRow, Pane, TALL_LIMIT, LENGTH_LIMIT, WHOLE};
use crate::grid::{Layout, Rect};

verus! {

/// How far past an edge a tile must reach to count as crossing it.
pub const CROSSING: i128 = 1_000;

/// One copy of a tile inside a ribbon row.
#[derive(Clone, Copy, PartialEq, Eq, Structural, Debug)]
pub struct RibbonItem {
    pub clip: usize,
    pub x: i128,
    pub w: i128,
}

/// A ribbon row: its top edge in the window, its height, and its tiles from
/// left to right.
pub struct RibbonRow {
    pub y: i128,
    pub h: i128,
    pub items: Vec<RibbonItem>,
}

/// A held strip: the tile under the fingers, where on it they rest (a fraction
/// of its width and of its height), the point in the window that it is pinned
/// to, the zooms at the start and now, the row it was taken in and the heights
/// of the resting rows, and how far the rows have blended to one height.
pub struct RibbonGrip {
    pub clip: usize,
    pub fx: i128,
    pub fx_of: i128,
    pub fy: i128,
    pub fy_of: i128,
    pub cx: i128,
    pub cy: i128,
    pub z0: i128,
    pub zoom: i128,
    pub grip_row: usize,
    pub rest_h: Vec<i128>,
    pub blend: i128,
}

impl RibbonGrip {
    pub open spec fn wf(self, n: int) -> bool {
        &&& self.clip < n
        &&& 0 <= self.fx <= self.fx_of
        &&& 0 < self.fx_of <= TALL_LIMIT
        &&& 0 <= self.fy <= self.fy_of
        &&& 0 < self.fy_of <= TALL_LIMIT
        &&& -LENGTH_LIMIT <= self.cx <= LENGTH_LIMIT
        &&& -LENGTH_LIMIT <= self.cy <= LENGTH_LIMIT
        &&& ZOOM_FLOOR <= self.z0 <= 100 * WHOLE
        &&& 0 < self.zoom <= 100 * WHOLE
        &&& 0 <= self.blend <= WHOLE
        &&& forall|r: int|
            0 <= r < self.rest_h@.len() ==> 0 <= #[trigger] self.rest_h@[r] <= 4 * LENGTH_LIMIT
    }

    /// The height at rest of the row `off` rows below the one held: what it
    /// was when the strip was taken, or what a row past the ends would have
    /// been.
    pub open spec fn rest(self, nominal: int, off: int) -> int {
        let r = self.grip_row + off;
        if 0 <= r < self.rest_h@.len() {
            self.rest_h@[r] as int
        } else if 100 * self.zoom < self.z0 {
            100 * nominal
        } else {
            nominal * self.z0 / (self.zoom as int)
        }
    }

    /// The height of the row `off` rows below the one held: its height at rest,
    /// scaled with the zoom, blended towards the common height.
    pub open spec fn row_h(self, nominal: int, off: int) -> int {
        let scaled = self.rest(nominal, off) * self.zoom / (self.z0 as int);
        (scaled * (WHOLE - self.blend) + nominal * self.blend) / (WHOLE as int)
    }
}

proof fn row_h_bounds(g: RibbonGrip, n: int, nominal: int, off: int)
    requires
        g.wf(n),
        0 <= nominal <= LENGTH_LIMIT,
    ensures
        0 <= g.rest(nominal, off) <= 100_000_000_000_000_000_000_000,
        0 <= g.rest(nominal, off) * g.zoom <= 10_000_000_000_000_000_000_000_000_000_000,
        0 <= g.rest(nominal, off) * g.zoom / (g.z0 as int) <= 40_000_000_000_000_000,
        0 <= g.row_h(nominal, off) <= 50_000_000_000_000_000,
        0 <= nominal * g.z0 <= 100_000_000_000_000_000_000,
{
    let z = g.zoom as int;
    let o = g.z0 as int;
    let b = g.rest(nominal, off);
    assert(0 <= nominal * o <= 1_000_000_000_000 * 100_000_000) by (nonlinear_arith)
        requires
            0 <= nominal <= 1_000_000_000_000,
            0 <= o <= 100_000_000,
    ;
    let r = g.grip_row + off;
    if 0 <= r < g.rest_h@.len() {
        assert(0 <= b * z / o <= 40_000_000_000_000_000) by (nonlinear_arith)
            requires
                0 <= b <= 4_000_000_000_000,
                0 < z <= 10_000 * o,
                0 < o,
        {
            assert(b * z <= 4_000_000_000_000 * z);
            assert(b * z <= 40_000_000_000_000_000 * o);
        }
    } else if 100 * z < o {
        assert(0 <= b * z / o <= 1_000_000_000_000) by (nonlinear_arith)
            requires
                b == 100 * nominal,
                0 <= nominal <= 1_000_000_000_000,
                0 < z,
                100 * z < o,
        {
            assert(b * z == nominal * (100 * z));
            assert(nominal * (100 * z) <= nominal * o);
            assert(b * z <= 1_000_000_000_000 * o);
        }
    } else {
        assert(0 <= b && b * z / o <= 1_000_000_000_000 && b <= 100 * nominal) by (nonlinear_arith)
            requires
                b == nominal * o / z,
                0 <= nominal <= 1_000_000_000_000,
                0 < z,
                0 < o,
                o <= 100 * z,
        {
            assert(b * z <= nominal * o);
            assert(nominal * o <= 1_000_000_000_000 * o);
            assert(nominal * o <= (100 * nominal) * z);
        }
    }
    assert(0 <= b * z <= 1_000_000_000_000_000_000_000_000) by (nonlinear_arith)
        requires
            0 <= b <= 100_000_000_000_000,
            0 < z <= 100_000_000,
    ;
    assert(b * z / o >= 0) by (nonlinear_arith)
        requires
            b * z >= 0,
            o > 0,
    ;
    let s = b * z / o;
    let l = g.blend as int;
    assert(0 <= s * (1_000_000 - l) + nominal * l <= 50_000_000_000_000_000 * 1_000_000)
        by (nonlinear_arith)
        requires
            0 <= s <= 40_000_000_000_000_000,
            0 <= nominal <= 1_000_000_000_000,
            0 <= l <= 1_000_000,
    {
        assert(s * (1_000_000 - l) <= 40_000_000_000_000_000 * 1_000_000);
        assert(nominal * l <= 1_000_000_000_000 * 1_000_000);
    }
}

impl RibbonGrip {
    fn row_height(&self, n: usize, nominal: i128, off: i128) -> (h: i128)
        requires
            self.wf(n as int),
            0 <= nominal <= LENGTH_LIMIT,
            -usize::MAX <= off <= usize::MAX,
        ensures
            h == self.row_h(nominal as int, off as int),
            0 <= h <= 50_000_000_000_000_000,
    {
        proof {
            row_h_bounds(*self, n as int, nominal as int, off as int);
        }
        let r: i128 = self.grip_row as i128 + off;
        let base: i128 = if 0 <= r && r < self.rest_h.len() as i128 {
            self.rest_h[r as usize]
        } else if 100 * self.zoom < self.z0 {
            100 * nominal
        } else {
            nominal * self.z0 / self.zoom
        };
        let scaled: i128 = base * self.zoom / self.z0;
        proof {
            let l = self.blend as int;
            assert(0 <= scaled * (1_000_000 - l) <= 40_000_000_000_000_000 * 1_000_000)
                by (nonlinear_arith)
                requires
                    0 <= scaled <= 40_000_000_000_000_000,
                    0 <= l <= 1_000_000,
            ;
            assert(0 <= nominal * l <= 1_000_000_000_000 * 1_000_000) by (nonlinear_arith)
                requires
                    0 <= nominal <= 1_000_000_000_000,
                    0 <= l <= 1_000_000,
            ;
        }
        (scaled * (WHOLE - self.blend) + nominal * self.blend) / WHOLE
    }
}

/// Each tile is as wide as its shape asks at the row's height.
pub open spec fn in_shape(asp: Seq<Aspect>, items: Seq<RibbonItem>, h: int) -> bool {
    forall|k: int|
        0 <= k < items.len() ==> (#[trigger] items[k]).clip < asp.len() && items[k].w
            == flex::width_at(asp[items[k].clip as int], h)
}

/// The tiles are one strip: neighbours in the library, one gap apart.
pub open spec fn joined(items: Seq<RibbonItem>, gap: int) -> bool {
    forall|k: int|
        0 < k < items.len() ==> (#[trigger] items[k]).clip == items[k - 1].clip + 1 && items[k].x
            == items[k - 1].x + items[k - 1].w + gap
}

/// Lays tiles to the right from `first` at `x0` until the right edge is
/// reached or the library ends.
fn lay_right(
    asp: &Vec<Aspect>,
    first: usize,
    x0: i128,
    h: i128,
    gap: i128,
    edge_r: i128,
) -> (items: Vec<RibbonItem>)
    requires
        flex::all_shown(asp@),
        first < asp.len(),
        -10 * TALL_LIMIT <= x0 <= 10 * TALL_LIMIT,
        0 <= h <= TALL_LIMIT,
        0 <= gap <= LENGTH_LIMIT,
        0 <= edge_r <= 2 * LENGTH_LIMIT,
    ensures
        items@.len() > 0,
        items@[0].clip == first,
        items@[0].x == x0,
        in_shape(asp@, items@, h as int),
        joined(items@, gap as int),
        forall|k: int| 0 < k < items@.len() ==> (#[trigger] items@[k]).x < edge_r,
        items@.last().clip + 1 == asp.len() || items@.last().x + items@.last().w + gap >= edge_r,
        items@.last().x <= 10 * TALL_LIMIT,
        items@.last().x >= -10 * TALL_LIMIT,
{
    let mut items: Vec<RibbonItem> = Vec::new();
    let w0: i128 = flex::tile_width(asp[first], h);
    items.push(RibbonItem { clip: first, x: x0, w: w0 });
    let mut x: i128 = x0 + w0 + gap;
    let mut i: usize = first + 1;
    while i < asp.len() && x < edge_r
        invariant
            flex::all_shown(asp@),
            first < i <= asp.len(),
            0 <= h <= TALL_LIMIT,
            0 <= gap <= LENGTH_LIMIT,
            0 <= edge_r <= 2 * LENGTH_LIMIT,
            -10 * TALL_LIMIT <= x0 <= 10 * TALL_LIMIT,
            items@.len() == i - first,
            items@[0].clip == first,
            items@[0].x == x0,
            items@.last().clip + 1 == i,
            x == items@.last().x + items@.last().w + gap,
            x0 <= items@.last().x <= 10 * TALL_LIMIT,
            0 <= items@.last().w <= 3 * TALL_LIMIT,
            in_shape(asp@, items@, h as int),
            joined(items@, gap as int),
            forall|k: int| 0 < k < items@.len() ==> (#[trigger] items@[k]).x < edge_r,
        decreases asp.len() - i,
    {
        let w: i128 = flex::tile_width(asp[i], h);
        items.push(RibbonItem { clip: i, x, w });
        x = x + w + gap;
        i += 1;
    }
    items
}

/// Lays tiles to the left from `last` at `x_last` for as long as they still
/// show past the left edge.
fn lay_left(
    asp: &Vec<Aspect>,
    last: usize,
    x_last: i128,
    h: i128,
    gap: i128,
    edge_l: i128,
) -> (items: Vec<RibbonItem>)
    requires
        flex::all_shown(asp@),
        last < asp.len(),
        -10 * TALL_LIMIT <= x_last <= 10 * TALL_LIMIT,
        0 <= h <= TALL_LIMIT,
        0 <= gap <= LENGTH_LIMIT,
        0 <= edge_l <= 2 * LENGTH_LIMIT,
    ensures
        items@.len() > 0,
        items@.last().clip == last,
        items@.last().x == x_last,
        in_shape(asp@, items@, h as int),
        joined(items@, gap as int),
        forall|k: int| 0 <= k < items@.len() - 1 ==> (#[trigger] items@[k]).x + items@[k].w > edge_l,
        items@[0].clip == 0 || items@[0].x - gap <= edge_l,
        -10 * TALL_LIMIT <= items@[0].x <= 10 * TALL_LIMIT,
{
    let mut rev: Vec<RibbonItem> = Vec::new();
    let w0: i128 = flex::tile_width(asp[last], h);
    rev.push(RibbonItem { clip: last, x: x_last, w: w0 });
    let mut xe: i128 = x_last;
    let mut clip: usize = last;
    while clip > 0 && xe - gap > edge_l
        invariant
            flex::all_shown(asp@),
            clip <= last < asp.len(),
            0 <= h <= TALL_LIMIT,
            0 <= gap <= LENGTH_LIMIT,
            0 <= edge_l <= 2 * LENGTH_LIMIT,
            -10 * TALL_LIMIT <= xe <= x_last <= 10 * TALL_LIMIT,
            rev@.len() == last - clip + 1,
            rev@[0].clip == last,
            rev@[0].x == x_last,
            rev@.last().clip == clip,
            rev@.last().x == xe,
            in_shape(asp@, rev@, h as int),
            forall|k: int|
                0 < k < rev@.len() ==> (#[trigger] rev@[k]).clip + 1 == rev@[k - 1].clip && rev@[k].x
                    + rev@[k].w + gap == rev@[k - 1].x,
            forall|k: int|
                0 < k < rev@.len() ==> (#[trigger] rev@[k]).x + rev@[k].w > edge_l,
        decreases clip,
    {
        clip -= 1;
        let w: i128 = flex::tile_width(asp[clip], h);
        let x: i128 = xe - gap - w;
        rev.push(RibbonItem { clip, x, w });
        xe = x;
    }
    let items = backwards(&rev);
    proof {
        assert forall|k: int| 0 < k < items@.len() implies (#[trigger] items@[k]).clip == items@[k
            - 1].clip + 1 && items@[k].x == items@[k - 1].x + items@[k - 1].w + gap by {
            let j = rev@.len() - k;
            assert(items@[k] == rev@[j - 1]);
            assert(items@[k - 1] == rev@[j]);
            assert(rev@[j].clip + 1 == rev@[j - 1].clip);
        }
        assert forall|k: int| 0 <= k < items@.len() - 1 implies (#[trigger] items@[k]).x
            + items@[k].w > edge_l by {
            let j = rev@.len() - 1 - k;
            assert(items@[k] == rev@[j]);
        }
        assert forall|k: int| 0 <= k < items@.len() implies (#[trigger] items@[k]).clip
            < asp@.len() && items@[k].w == flex::width_at(asp@[items@[k].clip as int], h as int) by {
            let j = rev@.len() - 1 - k;
            assert(items@[k] == rev@[j]);
        }
    }
    items
}

fn backwards(v: &Vec<RibbonItem>) -> (r: Vec<RibbonItem>)
    ensures
        r@ == v@.reverse(),
{
    let mut r: Vec<RibbonItem> = Vec::new();
    let mut i: usize = v.len();
    while i > 0
        invariant
            i <= v.len(),
            r@.len() == v.len() - i,
            forall|k: int| 0 <= k < r@.len() ==> #[trigger] r@[k] == v@[v.len() - 1 - k],
        decreases i,
    {
        i -= 1;
        r.push(v[i]);
    }
    assert(r@ =~= v@.reverse());
    r
}


/// The window that the strip is wrapped in.
#[derive(Clone, Copy, PartialEq, Eq, Structural, Debug)]
pub struct Window {
    pub vw: i128,
    pub vh: i128,
    pub gap: i128,
}

impl Window {
    pub open spec fn wf(self) -> bool {
        &&& 0 <= self.vw <= LENGTH_LIMIT
        &&& 0 <= self.vh <= LENGTH_LIMIT
        &&& 0 <= self.gap <= LENGTH_LIMIT
    }

    pub open spec fn left(self) -> int {
        self.gap as int
    }

    pub open spec fn right(self) -> int {
        if self.vw - self.gap < self.gap + flex::PIXEL {
            self.gap + flex::PIXEL
        } else {
            self.vw - self.gap
        }
    }

    /// A row at `y` of height `h` shows in the window.
    pub open spec fn on_screen(self, y: int, h: int) -> bool {
        y < self.vh && y + h > 0
    }

    /// A row lies more than a window's height outside it, so that no part of
    /// it can come into view while the strip settles.
    pub open spec fn far(self, y: int, h: int) -> bool {
        y + h < -self.vh || y > 2 * self.vh
    }

    /// The tile reaches past the right edge.
    pub open spec fn over_right(self, it: RibbonItem) -> bool {
        it.x + it.w > self.right() + CROSSING
    }

    /// The tile reaches past the left edge.
    pub open spec fn over_left(self, it: RibbonItem) -> bool {
        it.x < self.left() - CROSSING
    }

    /// How much of a tile that crosses the right edge shows before it.
    pub open spec fn shown(self, it: RibbonItem) -> int {
        within(self.right() - it.x, it.w as int)
    }

    /// How much of a tile that crosses the left edge is hidden behind it.
    pub open spec fn hidden(self, it: RibbonItem) -> int {
        within(self.left() - it.x, it.w as int)
    }

    /// Where a tile that crosses the right edge enters the row below, where it
    /// is `w` wide: the part that showed above is hidden there.
    pub open spec fn entry(self, it: RibbonItem, w: int) -> int {
        self.left() - part(self.shown(it), it.w as int, w)
    }

    /// Where a tile that crosses the left edge shows in the row above, where it
    /// is `w` wide: the part that is hidden below shows there.
    pub open spec fn exit(self, it: RibbonItem, w: int) -> int {
        self.right() - part(self.hidden(it), it.w as int, w)
    }
}

/// `a`, kept between nothing and `w`.
pub open spec fn within(a: int, w: int) -> int {
    if a < 0 {
        0
    } else if a > w {
        w
    } else {
        a
    }
}

/// The same share of `w` that `a` is of `of`.
pub open spec fn part(a: int, of: int, w: int) -> int {
    if of <= 0 {
        0
    } else {
        a * w / of
    }
}

fn part_of(a: i128, of: i128, w: i128) -> (r: i128)
    requires
        0 <= a <= of,
        0 <= of <= 3 * TALL_LIMIT,
        0 <= w <= 3 * TALL_LIMIT,
    ensures
        r == part(a as int, of as int, w as int),
        0 <= r <= w,
{
    if of <= 0 {
        return 0;
    }
    proof {
        assert(0 <= a * w <= 300_000_000_000_000_000 * 300_000_000_000_000_000) by (nonlinear_arith)
            requires
                0 <= a <= 300_000_000_000_000_000,
                0 <= w <= 300_000_000_000_000_000,
        ;
        assert(0 <= a * w / (of as int) <= w) by (nonlinear_arith)
            requires
                0 <= a <= of,
                0 < of,
                0 <= w,
        {
            assert(a * w <= w * of);
        }
    }
    a * w / of
}

fn keep_within(a: i128, w: i128) -> (r: i128)
    requires
        w >= 0,
    ensures
        r == within(a as int, w as int),
        0 <= r <= w,
{
    if a < 0 {
        0
    } else if a > w {
        w
    } else {
        a
    }
}

fn right_edge(win: &Window) -> (r: i128)
    requires
        win.wf(),
    ensures
        r == win.right(),
        0 <= r <= 2 * LENGTH_LIMIT,
{
    if win.vw - win.gap < win.gap + flex::PIXEL {
        win.gap + flex::PIXEL
    } else {
        win.vw - win.gap
    }
}

/// The tiles fill the window from edge to edge, as far as the library of `n`
/// clips goes.
pub open spec fn reaches(n: int, win: Window, items: Seq<RibbonItem>) -> bool {
    &&& items.last().clip + 1 == n || items.last().x + items.last().w + win.gap >= win.right()
    &&& items[0].clip == 0 || items[0].x - win.gap <= win.left()
}

/// One joined strip of height `h`: every tile in shape, from edge to edge.
#[verifier::opaque]
pub open spec fn full_strip(asp: Seq<Aspect>, win: Window, items: Seq<RibbonItem>, h: int) -> bool {
    &&& items.len() > 0
    &&& in_shape(asp, items, h)
    &&& joined(items, win.gap as int)
    &&& reaches(asp.len() as int, win, items)
}

/// What is kept of a strip: of one too far away to be seen, the two outermost
/// tiles alone.
pub open spec fn kept_of(win: Window, y: int, h: int, full: Seq<RibbonItem>) -> Seq<RibbonItem> {
    if win.far(y, h) && full.len() > 2 {
        seq![full[0], full.last()]
    } else {
        full
    }
}

/// No tile but the first begins past the right edge.
pub open spec fn ends_at_right(win: Window, items: Seq<RibbonItem>) -> bool {
    forall|k: int| 0 < k < items.len() ==> (#[trigger] items[k]).x < win.right()
}

/// No tile but the last ends before the left edge.
pub open spec fn ends_at_left(win: Window, items: Seq<RibbonItem>) -> bool {
    forall|k: int| 0 <= k < items.len() - 1 ==> (#[trigger] items[k]).x + items[k].w > win.left()
}

/// The row was laid from its first tile to the right, until the edge.
#[verifier::opaque]
pub open spec fn laid_down(asp: Seq<Aspect>, win: Window, row: RibbonRow) -> bool {
    exists|full: Seq<RibbonItem>| #[trigger]
        full_strip(asp, win, full, row.h as int) && ends_at_right(win, full) && row.items@
            == kept_of(win, row.y as int, row.h as int, full)
}

/// The row was laid from its last tile to the left, until the edge.
#[verifier::opaque]
pub open spec fn laid_up(asp: Seq<Aspect>, win: Window, row: RibbonRow) -> bool {
    exists|full: Seq<RibbonItem>| #[trigger]
        full_strip(asp, win, full, row.h as int) && ends_at_left(win, full) && row.items@
            == kept_of(win, row.y as int, row.h as int, full)
}

/// A row of the walk: of height `h`, every tile in shape, from edge to edge.
#[verifier::opaque]
pub open spec fn row_ok(asp: Seq<Aspect>, win: Window, row: RibbonRow, h: int) -> bool {
    &&& row.h == h
    &&& row.items@.len() > 0
    &&& in_shape(asp, row.items@, h)
    &&& reaches(asp.len() as int, win, row.items@)
}

/// The row follows `prev` downward: one gap under it, opening with the tile
/// that crosses `prev`'s right edge, or with the next one at the left edge, and
/// laid on from there.
pub open spec fn follows_down(asp: Seq<Aspect>, win: Window, prev: RibbonRow, row: RibbonRow) -> bool {
    let last = prev.items@.last();
    let head = row.items@[0];
    &&& laid_down(asp, win, row)
    &&& row.y == prev.y + prev.h + win.gap
    &&& if win.over_right(last) {
        head.clip == last.clip && head.x == win.entry(last, head.w as int)
    } else {
        head.clip == last.clip + 1 && head.x == win.left()
    }
}

/// The row follows `next` upward: one gap over it, closing with the tile that
/// crosses `next`'s left edge, or with the one before it at the right edge, and
/// laid on from there.
pub open spec fn follows_up(asp: Seq<Aspect>, win: Window, next: RibbonRow, row: RibbonRow) -> bool {
    let head = next.items@[0];
    let last = row.items@.last();
    &&& laid_up(asp, win, row)
    &&& row.y + row.h + win.gap == next.y
    &&& if win.over_left(head) {
        last.clip == head.clip && last.x == win.exit(head, last.w as int)
    } else {
        last.clip + 1 == head.clip && last.x == win.right() - last.w
    }
}

/// Positions stay where sums of them are exact.
#[verifier::opaque]
pub open spec fn in_reach(row: RibbonRow) -> bool {
    &&& 0 <= row.h <= 50_000_000_000_000_000
    &&& forall|k: int|
        0 <= k < row.items@.len() ==> 0 <= (#[trigger] row.items@[k]).w <= 3 * TALL_LIMIT
    &&& -10 * TALL_LIMIT <= row.items@[0].x <= 10 * TALL_LIMIT
    &&& -10 * TALL_LIMIT <= row.items@.last().x <= 10 * TALL_LIMIT
}

/// Drops the middle of a row that is too far away to be seen.
fn shed(win: &Window, y: i128, h: i128, items: Vec<RibbonItem>) -> (r: Vec<RibbonItem>)
    requires
        win.wf(),
        items@.len() > 0,
        joined(items@, win.gap as int),
        -FAR <= y <= FAR,
        0 <= h <= 50_000_000_000_000_000,
    ensures
        r@.len() > 0,
        r@[0] == items@[0],
        r@.last() == items@.last(),
        r@ == kept_of(*win, y as int, h as int, items@),
{
    if (y + h < -win.vh || y > 2 * win.vh) && items.len() > 2 {
        let mut r: Vec<RibbonItem> = Vec::new();
        r.push(items[0]);
        r.push(items[items.len() - 1]);
        assert(r@ =~= seq![items@[0], items@.last()]);
        r
    } else {
        items
    }
}

proof fn clips_ascend(items: Seq<RibbonItem>, gap: int, k: int)
    requires
        joined(items, gap),
        0 <= k < items.len(),
    ensures
        items[k].clip == items[0].clip + k,
    decreases k,
{
    if k > 0 {
        clips_ascend(items, gap, k - 1);
        assert(items[k].clip == items[k - 1].clip + 1);
    }
}

/// The furthest that a row may lie from the window.
pub const FAR: i128 = 10_000_000_000_000_000_000_000_000_000_000_000_000;

/// The row below `prev`, of height `h`; none where the library has ended.
#[verifier::spinoff_prover]
#[verifier::rlimit(30)]
fn row_below(asp: &Vec<Aspect>, win: &Window, prev: &RibbonRow, h: i128) -> (r: Option<RibbonRow>)
    requires
        flex::all_shown(asp@),
        win.wf(),
        row_ok(asp@, *win, *prev, prev.h as int),
        in_reach(*prev),
        -FAR / 2 <= prev.y <= FAR / 2,
        0 <= h <= 50_000_000_000_000_000,
    ensures
        r is None <==> prev.items@.last().clip + 1 == asp@.len() && !win.over_right(
            prev.items@.last(),
        ),
        r matches Some(row) ==> {
            &&& row_ok(asp@, *win, row, h as int)
            &&& row.h == h
            &&& in_reach(row)
            &&& follows_down(asp@, *win, *prev, row)
        },
{
    proof {
        reveal(in_reach);
    }
    proof {
        reveal(row_ok);
    }
    let edge_r: i128 = right_edge(win);
    let k: usize = prev.items.len() - 1;
    let last: RibbonItem = prev.items[k];
    let crosses: bool = last.x + last.w > edge_r + CROSSING;
    assert(last.clip < asp@.len());
    if !crosses && last.clip >= asp.len() - 1 {
        return None;
    }
    let start: usize = if crosses {
        last.clip
    } else {
        last.clip + 1
    };
    let x: i128 = if crosses {
        let shown: i128 = keep_within(edge_r - last.x, last.w);
        win.gap - part_of(shown, last.w, flex::tile_width(asp[start], h))
    } else {
        win.gap
    };
    let items = lay_right(asp, start, x, h, win.gap, edge_r);
    let y: i128 = prev.y + prev.h + win.gap;
    proof {
        widths_in_reach(asp@, items@, h as int);
        clips_ascend(items@, win.gap as int, items@.len() - 1);
    }
    let ghost full = items@;
    let kept = shed(win, y, h, items);
    let row = RibbonRow { y, h, items: kept };
    proof {
        reveal(laid_down);
        reveal(full_strip);
        assert(full_strip(asp@, *win, full, h as int));
    }
    Some(row)
}

proof fn widths_in_reach(asp: Seq<Aspect>, items: Seq<RibbonItem>, h: int)
    requires
        flex::all_shown(asp),
        in_shape(asp, items, h),
        0 <= h <= TALL_LIMIT,
    ensures
        forall|k: int| 0 <= k < items.len() ==> 0 <= (#[trigger] items[k]).w <= 3 * TALL_LIMIT,
{
    assert forall|k: int| 0 <= k < items.len() implies 0 <= (#[trigger] items[k]).w <= 3
        * TALL_LIMIT by {
        flex::width_bounds(asp[items[k].clip as int], h);
    }
}

/// The row above `next`, of height `h`; none where the library has begun.
#[verifier::spinoff_prover]
#[verifier::rlimit(30)]
fn row_above(asp: &Vec<Aspect>, win: &Window, next: &RibbonRow, h: i128) -> (r: Option<RibbonRow>)
    requires
        flex::all_shown(asp@),
        win.wf(),
        row_ok(asp@, *win, *next, next.h as int),
        in_reach(*next),
        -FAR / 2 <= next.y <= FAR / 2,
        0 <= h <= 50_000_000_000_000_000,
    ensures
        r is None <==> next.items@[0].clip == 0 && !win.over_left(next.items@[0]),
        r matches Some(row) ==> {
            &&& row_ok(asp@, *win, row, h as int)
            &&& row.h == h
            &&& in_reach(row)
            &&& follows_up(asp@, *win, *next, row)
        },
{
    proof {
        reveal(in_reach);
    }
    proof {
        reveal(row_ok);
    }
    let edge_r: i128 = right_edge(win);
    let head: RibbonItem = next.items[0];
    let crosses: bool = head.x < win.gap - CROSSING;
    if !crosses && head.clip == 0 {
        return None;
    }
    let end: usize = if crosses {
        head.clip
    } else {
        head.clip - 1
    };
    let w: i128 = flex::tile_width(asp[end], h);
    let x: i128 = if crosses {
        let hidden: i128 = keep_within(win.gap - head.x, head.w);
        edge_r - part_of(hidden, head.w, w)
    } else {
        edge_r - w
    };
    let items = lay_left(asp, end, x, h, win.gap, win.gap);
    let y: i128 = next.y - h - win.gap;
    proof {
        widths_in_reach(asp@, items@, h as int);
        clips_ascend(items@, win.gap as int, items@.len() - 1);
    }
    let ghost full = items@;
    let kept = shed(win, y, h, items);
    let row = RibbonRow { y, h, items: kept };
    proof {
        reveal(laid_up);
        reveal(full_strip);
        assert(full_strip(asp@, *win, full, h as int));
    }
    Some(row)
}

/// Two strips, of which the first ends with the tile that the second begins with,
/// are one strip.
proof fn meet_in_the_middle(
    asp: Seq<Aspect>,
    l: Seq<RibbonItem>,
    rt: Seq<RibbonItem>,
    items: Seq<RibbonItem>,
    gap: int,
    h: int,
)
    requires
        l.len() > 0,
        rt.len() > 0,
        in_shape(asp, l, h),
        in_shape(asp, rt, h),
        joined(l, gap),
        joined(rt, gap),
        l.last() == rt[0],
        items == l + rt.subrange(1, rt.len() as int),
    ensures
        items.len() == l.len() + rt.len() - 1,
        in_shape(asp, items, h),
        joined(items, gap),
        items[0] == l[0],
        items[l.len() - 1] == rt[0],
        items.last() == rt.last(),
{
    let m = l.len() - 1;
    assert forall|i: int| 0 <= i < items.len() implies (#[trigger] items[i]).clip < asp.len()
        && items[i].w == flex::width_at(asp[items[i].clip as int], h) by {
        if i <= m {
            assert(items[i] == l[i]);
        } else {
            assert(items[i] == rt[i - m]);
        }
    }
    assert forall|i: int| 0 < i < items.len() implies (#[trigger] items[i]).clip == items[i
        - 1].clip + 1 && items[i].x == items[i - 1].x + items[i - 1].w + gap by {
        if i <= m {
            assert(items[i] == l[i]);
            assert(items[i - 1] == l[i - 1]);
        } else {
            assert(items[i] == rt[i - m]);
            assert(items[i - 1] == rt[i - 1 - m]);
        }
    }
}

/// What a sound row says of its height.
proof fn row_has_its_height(asp: Seq<Aspect>, win: Window, row: RibbonRow, h: int)
    requires
        row_ok(asp, win, row, h),
    ensures
        row.h == h,
        row_ok(asp, win, row, row.h as int),
        row.items@.len() > 0,
{
    reveal(row_ok);
}

/// How high a row may be.
proof fn height_in_reach(row: RibbonRow)
    requires
        in_reach(row),
    ensures
        0 <= row.h <= 50_000_000_000_000_000,
{
    reveal(in_reach);
}

/// The row that is held: the tile under the fingers at the point it is pinned
/// to, and its neighbours out to both edges.
#[verifier::rlimit(30)]
fn held_row(asp: &Vec<Aspect>, win: &Window, g: &RibbonGrip, h: i128) -> (r: RibbonRow)
    requires
        flex::all_shown(asp@),
        win.wf(),
        g.wf(asp@.len() as int),
        0 <= h <= 50_000_000_000_000_000,
    ensures
        row_ok(asp@, *win, r, h as int),
        in_reach(r),
        joined(r.items@, win.gap as int),
        pinned(asp@, *win, *g, r),
        -FAR / 4 <= r.y <= FAR / 4,
{
    let w0: i128 = flex::tile_width(asp[g.clip], h);
    let x0: i128 = g.cx - share(g.fx, g.fx_of, w0);
    let right = lay_right(asp, g.clip, x0, h, win.gap, right_edge(win));
    let left = lay_left(asp, g.clip, x0, h, win.gap, win.gap);
    let ghost l = left@;
    let ghost rt = right@;
    assert(l.last() == rt[0]);
    let mut items = left;
    let mut k: usize = 1;
    while k < right.len()
        invariant
            1 <= k <= right@.len(),
            right@ == rt,
            items@ == l + rt.subrange(1, k as int),
        decreases right@.len() - k,
    {
        items.push(right[k]);
        k += 1;
        assert(items@ =~= l + rt.subrange(1, k as int));
    }
    proof {
        reveal(row_ok);
        reveal(in_reach);
        reveal(full_strip);
        meet_in_the_middle(asp@, l, rt, items@, win.gap as int, h as int);
        widths_in_reach(asp@, items@, h as int);
        let m = l.len() - 1;
        assert forall|j: int| m < j < items@.len() implies (#[trigger] items@[j]).x
            < win.right() by {
            assert(items@[j] == rt[j - m]);
        }
        assert forall|j: int| 0 <= j < m implies (#[trigger] items@[j]).x + items@[j].w
            > win.left() by {
            assert(items@[j] == l[j]);
        }
        assert(pinned_at(*win, *g, items@, m));
    }
    RibbonRow { y: g.cy - share(g.fy, g.fy_of, h), h, items }
}

/// The share `a` of `of`, taken of `w`.
fn share(a: i128, of: i128, w: i128) -> (r: i128)
    requires
        0 <= a <= of,
        0 < of <= TALL_LIMIT,
        0 <= w <= 3 * TALL_LIMIT,
    ensures
        r == a * w / (of as int),
        0 <= r <= w,
{
    part_of(a, of, w)
}

/// The tile under the fingers stands in the row where it is pinned, and the row
/// is laid from it until both edges.
pub open spec fn pinned(asp: Seq<Aspect>, win: Window, g: RibbonGrip, row: RibbonRow) -> bool {
    &&& row.y == g.cy - g.fy * row.h / (g.fy_of as int)
    &&& full_strip(asp, win, row.items@, row.h as int)
    &&& exists|k: int| #[trigger] pinned_at(win, g, row.items@, k)
}

/// Tile `k` is the one under the fingers; those right of it begin before the
/// right edge, those left of it end after the left one.
pub open spec fn pinned_at(win: Window, g: RibbonGrip, items: Seq<RibbonItem>, k: int) -> bool {
    &&& 0 <= k < items.len()
    &&& items[k].clip == g.clip
    &&& items[k].x == g.cx - g.fx * items[k].w / (g.fx_of as int)
    &&& forall|j: int| k < j < items.len() ==> (#[trigger] items[j]).x < win.right()
    &&& forall|j: int| 0 <= j < k ==> (#[trigger] items[j]).x + items[j].w > win.left()
}


/// The rows that a held strip shows: the held row at its height with the tile
/// pinned, and above and below it rows that carry on across the edges.
pub open spec fn walked(
    asp: Seq<Aspect>,
    win: Window,
    nominal: int,
    g: RibbonGrip,
    rows: Seq<RibbonRow>,
    at: int,
) -> bool {
    &&& 0 <= at < rows.len()
    &&& pinned(asp, win, g, rows[at])
    &&& forall|r: int|
        0 <= r < rows.len() ==> row_ok(asp, win, #[trigger] rows[r], g.row_h(nominal, r - at))
    &&& forall|r: int|
        at < r < rows.len() ==> follows_down(asp, win, rows[r - 1], #[trigger] rows[r])
    &&& forall|r: int| 0 <= r < at ==> follows_up(asp, win, rows[r + 1], #[trigger] rows[r])
}

/// The strip goes on under the walked rows, which end with `last`: the library
/// is not over.
pub open spec fn goes_on_below(n: int, win: Window, last: RibbonRow) -> bool {
    last.items@.last().clip + 1 < n || win.over_right(last.items@.last())
}

/// The strip goes on over the walked rows, which begin with `first`.
pub open spec fn goes_on_above(win: Window, first: RibbonRow) -> bool {
    first.items@[0].clip > 0 || win.over_left(first.items@[0])
}

/// No row is missing below `last`, which lies `off` rows under the held one:
/// the library ends there, or the next row is out of the window and only what
/// the window shows is asked for, or as many rows as clips have been walked.
pub open spec fn done_below(
    n: int,
    win: Window,
    nominal: int,
    g: RibbonGrip,
    all: bool,
    last: RibbonRow,
    off: int,
) -> bool {
    ||| off >= n
    ||| !goes_on_below(n, win, last)
    ||| !all && !win.on_screen(last.y + last.h + win.gap, g.row_h(nominal, off + 1))
}

/// No row is missing above `first`, which lies `off` rows over the held one.
pub open spec fn done_above(
    n: int,
    win: Window,
    nominal: int,
    g: RibbonGrip,
    all: bool,
    first: RibbonRow,
    off: int,
) -> bool {
    ||| off >= n
    ||| !goes_on_above(win, first)
    ||| !all && !win.on_screen(
        first.y - g.row_h(nominal, -(off + 1)) - win.gap,
        g.row_h(nominal, -(off + 1)),
    )
}

/// Whether the walk takes a row in: every row when `all` is set, else those in
/// the window.
fn wanted(win: &Window, all: bool, y: i128, h: i128) -> (r: bool)
    requires
        win.wf(),
        -FAR <= y <= FAR,
        0 <= h <= 50_000_000_000_000_000,
    ensures
        r == (all || win.on_screen(y as int, h as int)),
{
    all || (y < win.vh && y + h > 0)
}

proof fn row_step(k: int)
    requires
        0 <= k <= usize::MAX,
    ensures
        (k + 1) * 60_000_000_000_000_000 == k * 60_000_000_000_000_000 + 60_000_000_000_000_000,
        0 <= k * 60_000_000_000_000_000 <= FAR / 8,
{
    assert(usize::MAX <= 18_446_744_073_709_551_615);
}

/// The rows under the held one, each following the last; the walk stops at the
/// end of the library, at the window's edge unless `all` is set, or after as
/// many rows as there are clips.
fn walk_down(
    asp: &Vec<Aspect>,
    win: &Window,
    p: &Pane,
    g: &RibbonGrip,
    all: bool,
    held: RibbonRow,
) -> (rows: Vec<RibbonRow>)
    requires
        flex::all_shown(asp@),
        win.wf(),
        p.wf(),
        g.wf(asp@.len() as int),
        row_ok(asp@, *win, held, g.row_h(p.nominal as int, 0)),
        in_reach(held),
        -FAR / 4 <= held.y <= FAR / 4,
    ensures
        rows@.len() > 0,
        rows@[0] == held,
        forall|r: int|
            0 <= r < rows@.len() ==> row_ok(
                asp@,
                *win,
                #[trigger] rows@[r],
                g.row_h(p.nominal as int, r),
            ) && in_reach(rows@[r]) && -FAR <= rows@[r].y <= FAR,
        forall|r: int|
            0 < r < rows@.len() ==> follows_down(asp@, *win, rows@[r - 1], #[trigger] rows@[r]),
        done_below(
            asp@.len() as int,
            *win,
            p.nominal as int,
            *g,
            all,
            rows@.last(),
            rows@.len() - 1,
        ),
        forall|r: int|
            0 < r < rows@.len() && !all ==> win.on_screen(
                (#[trigger] rows@[r]).y as int,
                rows@[r].h as int,
            ),
{
    let n: usize = asp.len();
    let mut rows: Vec<RibbonRow> = Vec::new();
    rows.push(held);
    let mut off: usize = 0;
    while off < n
        invariant_except_break
            rows@.len() == off + 1,
        invariant
            n == asp@.len(),
            off <= n,
            flex::all_shown(asp@),
            win.wf(),
            p.wf(),
            g.wf(n as int),
            rows@.len() > 0,
            rows@[0] == held,
            -FAR / 4 <= held.y <= FAR / 4,
            held.y <= rows@.last().y <= held.y + off * 60_000_000_000_000_000,
            forall|r: int|
                0 <= r < rows@.len() ==> row_ok(
                    asp@,
                    *win,
                    #[trigger] rows@[r],
                    g.row_h(p.nominal as int, r),
                ) && in_reach(rows@[r]) && -FAR <= rows@[r].y <= FAR,
            forall|r: int|
                0 < r < rows@.len() ==> follows_down(asp@, *win, rows@[r - 1], #[trigger] rows@[r]),
            forall|r: int|
                0 < r < rows@.len() && !all ==> win.on_screen(
                    (#[trigger] rows@[r]).y as int,
                    rows@[r].h as int,
                ),
        ensures
            done_below(
                n as int,
                *win,
                p.nominal as int,
                *g,
                all,
                rows@.last(),
                rows@.len() - 1,
            ),
        decreases n - off,
    {
        let h: i128 = g.row_height(n, p.nominal, off as i128 + 1);
        proof {
            row_step(off as int);
        }
        proof {
            let last = rows@.last();
            assert(rows@[rows@.len() - 1] == last);
            row_has_its_height(asp@, *win, last, g.row_h(p.nominal as int, rows@.len() - 1));
            height_in_reach(last);
        }
        let next: Option<RibbonRow> = row_below(asp, win, &rows[rows.len() - 1], h);
        match next {
            None => {
                break;
            },
            Some(row) => {
                if !wanted(win, all, row.y, row.h) {
                    break;
                }
                rows.push(row);
                off += 1;
            },
        }
    }
    rows
}

/// The rows over the held one, nearest first.
fn walk_up(
    asp: &Vec<Aspect>,
    win: &Window,
    p: &Pane,
    g: &RibbonGrip,
    all: bool,
    held: &RibbonRow,
) -> (rows: Vec<RibbonRow>)
    requires
        flex::all_shown(asp@),
        win.wf(),
        p.wf(),
        g.wf(asp@.len() as int),
        row_ok(asp@, *win, *held, g.row_h(p.nominal as int, 0)),
        in_reach(*held),
        -FAR / 4 <= held.y <= FAR / 4,
    ensures
        forall|r: int|
            0 <= r < rows@.len() ==> row_ok(
                asp@,
                *win,
                #[trigger] rows@[r],
                g.row_h(p.nominal as int, -(r + 1)),
            ) && in_reach(rows@[r]) && -FAR <= rows@[r].y <= FAR,
        rows@.len() > 0 ==> follows_up(asp@, *win, *held, rows@[0]),
        forall|r: int|
            0 < r < rows@.len() ==> follows_up(asp@, *win, rows@[r - 1], #[trigger] rows@[r]),
        done_above(
            asp@.len() as int,
            *win,
            p.nominal as int,
            *g,
            all,
            if rows@.len() == 0 {
                *held
            } else {
                rows@.last()
            },
            rows@.len() as int,
        ),
        forall|r: int|
            0 <= r < rows@.len() && !all ==> win.on_screen(
                (#[trigger] rows@[r]).y as int,
                rows@[r].h as int,
            ),
{
    let n: usize = asp.len();
    let mut rows: Vec<RibbonRow> = Vec::new();
    let mut off: usize = 0;
    while off < n
        invariant_except_break
            rows@.len() == off,
        invariant
            n == asp@.len(),
            off <= n,
            flex::all_shown(asp@),
            win.wf(),
            p.wf(),
            g.wf(n as int),
            row_ok(asp@, *win, *held, g.row_h(p.nominal as int, 0)),
            in_reach(*held),
            -FAR / 4 <= held.y <= FAR / 4,
            rows@.len() > 0 ==> held.y - off * 60_000_000_000_000_000 <= rows@.last().y <= held.y,
            forall|r: int|
                0 <= r < rows@.len() ==> row_ok(
                    asp@,
                    *win,
                    #[trigger] rows@[r],
                    g.row_h(p.nominal as int, -(r + 1)),
                ) && in_reach(rows@[r]) && -FAR <= rows@[r].y <= FAR,
            rows@.len() > 0 ==> follows_up(asp@, *win, *held, rows@[0]),
            forall|r: int|
                0 < r < rows@.len() ==> follows_up(asp@, *win, rows@[r - 1], #[trigger] rows@[r]),
            forall|r: int|
                0 <= r < rows@.len() && !all ==> win.on_screen(
                    (#[trigger] rows@[r]).y as int,
                    rows@[r].h as int,
                ),
        ensures
            done_above(
                n as int,
                *win,
                p.nominal as int,
                *g,
                all,
                if rows@.len() == 0 {
                    *held
                } else {
                    rows@.last()
                },
                rows@.len() as int,
            ),
        decreases n - off,
    {
        let h: i128 = g.row_height(n, p.nominal, -(off as i128) - 1);
        proof {
            row_step(off as int);
        }
        proof {
            row_has_its_height(asp@, *win, *held, g.row_h(p.nominal as int, 0));
            height_in_reach(*held);
            if rows@.len() > 0 {
                let last = rows@.last();
                assert(rows@[rows@.len() - 1] == last);
                row_has_its_height(asp@, *win, last, g.row_h(p.nominal as int, -rows@.len()));
                height_in_reach(last);
            }
        }
        let next: Option<RibbonRow> = if rows.len() == 0 {
            row_above(asp, win, held, h)
        } else {
            row_above(asp, win, &rows[rows.len() - 1], h)
        };
        match next {
            None => {
                break;
            },
            Some(row) => {
                if !wanted(win, all, row.y, row.h) {
                    break;
                }
                rows.push(row);
                off += 1;
            },
        }
    }
    rows
}

/// Lays the held strip out: the rows, from top to bottom, and the held row's
/// place among them. `all` walks the whole library; else the walk stops once
/// rows leave the window.
#[verifier::rlimit(30)]
pub fn ribbon_walk(asp: &Vec<Aspect>, win: &Window, p: &Pane, g: &RibbonGrip, all: bool) -> (r: (
    Vec<RibbonRow>,
    usize,
))
    requires
        flex::all_shown(asp@),
        win.wf(),
        p.wf(),
        g.wf(asp@.len() as int),
    ensures
        walked(asp@, *win, p.nominal as int, *g, r.0@, r.1 as int),
        !all ==> forall|k: int|
            0 <= k < r.0@.len() && k != r.1 ==> win.on_screen(
                (#[trigger] r.0@[k]).y as int,
                r.0@[k].h as int,
            ),
        done_above(
            asp@.len() as int,
            *win,
            p.nominal as int,
            *g,
            all,
            r.0@[0],
            r.1 as int,
        ),
        done_below(
            asp@.len() as int,
            *win,
            p.nominal as int,
            *g,
            all,
            r.0@.last(),
            r.0@.len() - 1 - r.1,
        ),
        forall|k: int| 0 <= k < r.0@.len() ==> in_reach(#[trigger] r.0@[k]),
        forall|k: int| 0 <= k < r.0@.len() ==> -FAR <= (#[trigger] r.0@[k]).y <= FAR,
{
    let n: usize = asp.len();
    let h0: i128 = g.row_height(n, p.nominal, 0);
    let held = held_row(asp, win, g, h0);
    let ghost held_g = held;
    let up = walk_up(asp, win, p, g, all, &held);
    let down = walk_down(asp, win, p, g, all, held);
    let ghost u = up@;
    let ghost d = down@;
    let at: usize = up.len();
    let mut above = up;
    let mut rows: Vec<RibbonRow> = Vec::new();
    let mut k: usize = at;
    while k > 0
        invariant
            k <= at,
            at == u.len(),
            above@ == u.take(k as int),
            rows@.len() == at - k,
            forall|i: int| 0 <= i < rows@.len() ==> #[trigger] rows@[i] == u[at - 1 - i],
        decreases k,
    {
        k -= 1;
        match above.pop() {
            Some(row) => {
                rows.push(row);
            },
            None => {},
        }
    }
    let mut below = down;
    rows.append(&mut below);
    proof {
        let all_rows = rows@;
        assert forall|r: int| 0 <= r < all_rows.len() implies row_ok(
            asp@,
            *win,
            #[trigger] all_rows[r],
            g.row_h(p.nominal as int, r - at),
        ) by {
            if r < at {
                assert(all_rows[r] == u[at - 1 - r]);
            } else {
                assert(all_rows[r] == d[r - at]);
            }
        }
        assert forall|r: int| at < r < all_rows.len() implies follows_down(
            asp@,
            *win,
            all_rows[r - 1],
            #[trigger] all_rows[r],
        ) by {
            assert(all_rows[r] == d[r - at]);
            assert(all_rows[r - 1] == d[r - at - 1]);
        }
        assert forall|r: int| 0 <= r < at implies follows_up(
            asp@,
            *win,
            all_rows[r + 1],
            #[trigger] all_rows[r],
        ) by {
            assert(all_rows[r] == u[at - 1 - r]);
            if r + 1 < at {
                assert(all_rows[r + 1] == u[at - 2 - r]);
            } else {
                assert(all_rows[r + 1] == d[0]);
            }
        }
        assert(all_rows[at as int] == d[0]);
        assert(all_rows.last() == d.last());
        if at > 0 {
            assert(all_rows[0] == u.last());
        }
        assert forall|k: int| 0 <= k < all_rows.len() implies in_reach(#[trigger] all_rows[k])
            && -FAR <= all_rows[k].y <= FAR by {
            if k < at {
                assert(all_rows[k] == u[at - 1 - k]);
            } else {
                assert(all_rows[k] == d[k - at]);
            }
        }
        assert forall|k: int|
            0 <= k < all_rows.len() && k != at && !all implies win.on_screen(
            (#[trigger] all_rows[k]).y as int,
            all_rows[k].h as int,
        ) by {
            if k < at {
                assert(all_rows[k] == u[at - 1 - k]);
            } else {
                assert(all_rows[k] == d[k - at]);
            }
        }
    }
    (rows, at)
}


/// From row to row the strip goes on: the next row opens with the tile that
/// closed the last one, or with the one after it. No clip is left out.
pub proof fn walk_leaves_no_clip_out(
    asp: Seq<Aspect>,
    win: Window,
    nominal: int,
    g: RibbonGrip,
    rows: Seq<RibbonRow>,
    at: int,
    r: int,
)
    requires
        walked(asp, win, nominal, g, rows, at),
        0 < r < rows.len(),
    ensures
        rows[r].items@[0].clip == rows[r - 1].items@.last().clip || rows[r].items@[0].clip
            == rows[r - 1].items@.last().clip + 1,
        rows[r].y == rows[r - 1].y + rows[r - 1].h + win.gap,
{
    reveal(row_ok);
    if r > at {
        assert(follows_down(asp, win, rows[r - 1], rows[r]));
    } else {
        assert(follows_up(asp, win, rows[r - 1 + 1], rows[r - 1]));
    }
}

/// The row's clips ascend from its first tile to its last.
spec fn one_run(row: RibbonRow) -> bool {
    &&& row.items@.len() > 0
    &&& forall|i: int, j: int|
        0 <= i < j < row.items@.len() ==> (#[trigger] row.items@[i]).clip < (
        #[trigger] row.items@[j]).clip
}

proof fn a_strip_is_one_run(asp: Seq<Aspect>, win: Window, row: RibbonRow, full: Seq<RibbonItem>)
    requires
        full_strip(asp, win, full, row.h as int),
        row.items@ == kept_of(win, row.y as int, row.h as int, full),
    ensures
        one_run(row),
{
    reveal(full_strip);
    assert forall|i: int, j: int| 0 <= i < j < row.items@.len() implies (
    #[trigger] row.items@[i]).clip < (#[trigger] row.items@[j]).clip by {
        if row.items@ == full {
            clips_ascend(full, win.gap as int, i);
            clips_ascend(full, win.gap as int, j);
        } else {
            clips_ascend(full, win.gap as int, full.len() - 1);
        }
    }
}

proof fn a_walked_row_is_one_run(
    asp: Seq<Aspect>,
    win: Window,
    nominal: int,
    g: RibbonGrip,
    rows: Seq<RibbonRow>,
    at: int,
    r: int,
)
    requires
        walked(asp, win, nominal, g, rows, at),
        0 <= r < rows.len(),
    ensures
        one_run(rows[r]),
{
    let row = rows[r];
    if r == at {
        reveal(full_strip);
        assert forall|i: int, j: int| 0 <= i < j < row.items@.len() implies (
        #[trigger] row.items@[i]).clip < (#[trigger] row.items@[j]).clip by {
            clips_ascend(row.items@, win.gap as int, i);
            clips_ascend(row.items@, win.gap as int, j);
        }
    } else if r > at {
        assert(follows_down(asp, win, rows[r - 1], rows[r]));
        reveal(laid_down);
        let full = choose|full: Seq<RibbonItem>| #[trigger]
            full_strip(asp, win, full, row.h as int) && ends_at_right(win, full) && row.items@
                == kept_of(win, row.y as int, row.h as int, full);
        a_strip_is_one_run(asp, win, row, full);
    } else {
        assert(follows_up(asp, win, rows[r + 1], rows[r]));
        reveal(laid_up);
        let full = choose|full: Seq<RibbonItem>| #[trigger]
            full_strip(asp, win, full, row.h as int) && ends_at_left(win, full) && row.items@
                == kept_of(win, row.y as int, row.h as int, full);
        a_strip_is_one_run(asp, win, row, full);
    }
}

/// A row ends no later in the library than a lower one begins.
proof fn walked_rows_ascend(
    asp: Seq<Aspect>,
    win: Window,
    nominal: int,
    g: RibbonGrip,
    rows: Seq<RibbonRow>,
    at: int,
    r: int,
    s: int,
)
    requires
        walked(asp, win, nominal, g, rows, at),
        0 <= r < s < rows.len(),
    ensures
        rows[r].items@.last().clip <= rows[s].items@[0].clip,
    decreases s - r,
{
    walk_leaves_no_clip_out(asp, win, nominal, g, rows, at, s);
    if r + 1 < s {
        walked_rows_ascend(asp, win, nominal, g, rows, at, r, s - 1);
        a_walked_row_is_one_run(asp, win, nominal, g, rows, at, s - 1);
    }
}

/// No tile is wider than the window between its margins.
pub open spec fn no_tile_is_wider(win: Window, rows: Seq<RibbonRow>) -> bool {
    forall|r: int, k: int|
        0 <= r < rows.len() && 0 <= k < rows[r].items@.len() ==> (
        #[trigger] rows[r].items@[k]).w <= win.right() - win.left()
}

proof fn part_is_within(a: int, of: int, w: int)
    requires
        0 <= w,
    ensures
        0 <= part(within(a, of), of, w) <= w,
{
    let b = within(a, of);
    if of > 0 {
        assert(0 <= b * w / of <= w) by (nonlinear_arith)
            requires
                0 <= b <= of,
                0 <= w,
                0 < of,
        {
            assert(0 <= b * w <= of * w);
        }
    }
}

/// A row of one tile shares it with the row above or with the one below, not with
/// both.
proof fn a_lone_tile_goes_on_once(
    asp: Seq<Aspect>,
    win: Window,
    nominal: int,
    g: RibbonGrip,
    rows: Seq<RibbonRow>,
    at: int,
    r: int,
)
    requires
        walked(asp, win, nominal, g, rows, at),
        flex::all_shown(asp),
        g.wf(asp.len() as int),
        0 <= nominal <= LENGTH_LIMIT,
        no_tile_is_wider(win, rows),
        0 < r < rows.len() - 1,
        rows[r].items@.len() == 1,
    ensures
        !(shared(rows, r - 1) && shared(rows, r)),
{
    let it = rows[r].items@[0];
    assert(it == rows[r].items@.last());
    assert(0 <= it.w <= win.right() - win.left()) by {
        assert(row_ok(asp, win, rows[r], g.row_h(nominal, r - at)));
        reveal(row_ok);
        row_h_bounds(g, asp.len() as int, nominal, r - at);
        flex::width_bounds(asp[it.clip as int], rows[r].h as int);
        assert(rows[r].items@[0].w <= win.right() - win.left());
    }
    if r >= at {
        assert(follows_down(asp, win, rows[r + 1 - 1], rows[r + 1]));
    } else {
        assert(follows_up(asp, win, rows[r + 1], rows[r]));
    }
    if r > at {
        let above = rows[r - 1].items@.last();
        assert(follows_down(asp, win, rows[r - 1], rows[r]));
        part_is_within(win.right() - above.x, above.w as int, it.w as int);
    } else {
        assert(follows_up(asp, win, rows[r - 1 + 1], rows[r - 1]));
        if r < at {
            let below = rows[r + 1].items@[0];
            part_is_within(win.left() - below.x, below.w as int, it.w as int);
        }
    }
}

/// Where no tile is wider than the window, a clip is drawn in at most two rows of
/// the strip, one under the other, and once in each.
pub proof fn a_clip_is_drawn_in_at_most_two_rows(
    asp: Seq<Aspect>,
    win: Window,
    nominal: int,
    g: RibbonGrip,
    rows: Seq<RibbonRow>,
    at: int,
    r: int,
    k: int,
    s: int,
    m: int,
)
    requires
        walked(asp, win, nominal, g, rows, at),
        flex::all_shown(asp),
        g.wf(asp.len() as int),
        0 <= nominal <= LENGTH_LIMIT,
        no_tile_is_wider(win, rows),
        0 <= r <= s < rows.len(),
        0 <= k < rows[r].items@.len(),
        0 <= m < rows[s].items@.len(),
        rows[r].items@[k].clip == rows[s].items@[m].clip,
    ensures
        s <= r + 1,
        s == r ==> k == m,
{
    let c = rows[r].items@[k].clip;
    a_walked_row_is_one_run(asp, win, nominal, g, rows, at, r);
    a_walked_row_is_one_run(asp, win, nominal, g, rows, at, s);
    if s == r {
        if k < m {
            assert(rows[r].items@[k].clip < rows[r].items@[m].clip);
        } else if m < k {
            assert(rows[r].items@[m].clip < rows[r].items@[k].clip);
        }
    } else if r + 1 < s {
        let mid = rows[r + 1];
        let last = mid.items@.len() - 1;
        a_walked_row_is_one_run(asp, win, nominal, g, rows, at, r + 1);
        walked_rows_ascend(asp, win, nominal, g, rows, at, r, r + 1);
        walked_rows_ascend(asp, win, nominal, g, rows, at, r + 1, s);
        assert(c <= rows[r].items@.last().clip);
        assert(rows[s].items@[0].clip <= c);
        if last > 0 {
            assert(mid.items@[0].clip < mid.items@[last].clip);
        }
        walked_rows_ascend(asp, win, nominal, g, rows, at, r + 1, r + 2);
        if r + 2 < s {
            walked_rows_ascend(asp, win, nominal, g, rows, at, r + 2, s);
            a_walked_row_is_one_run(asp, win, nominal, g, rows, at, r + 2);
        }
        reveal(row_ok);
        assert(row_ok(asp, win, rows[r + 2], g.row_h(nominal, r + 2 - at)));
        a_lone_tile_goes_on_once(asp, win, nominal, g, rows, at, r + 1);
    }
}

/// The tile that closes row `i` also opens the next one.
pub open spec fn shared(rows: Seq<RibbonRow>, i: int) -> bool {
    rows[i + 1].items@.len() > 0 && rows[i + 1].items@[0].clip == rows[i].items@.last().clip
}

/// At least half of the tile shows before the right edge.
pub open spec fn half_shown(p: Pane, it: RibbonItem) -> bool {
    let edge = if p.vw - p.gap < flex::PIXEL {
        flex::PIXEL as int
    } else {
        p.vw - p.gap
    };
    2 * (edge - it.x) >= it.w
}

/// The tile that closes row `i` stays in it when the row starts at `cur`: it
/// stands in no other row, or most of it shows here and the row can hold it.
pub open spec fn stays_up(
    p: Pane,
    asp: Seq<Aspect>,
    rows: Seq<RibbonRow>,
    i: int,
    cur: int,
) -> bool {
    let last = rows[i].items@.last();
    !shared(rows, i) || (half_shown(p, last) && cur <= last.clip && p.fits(
        asp,
        cur,
        last.clip + 1,
    ))
}

/// Where the row after row `i` starts, row `i` itself starting at `cur`: after
/// the tile that closes row `i`, or with it; later than `cur` and within the
/// library.
pub open spec fn next_start(
    p: Pane,
    asp: Seq<Aspect>,
    rows: Seq<RibbonRow>,
    i: int,
    cur: int,
) -> int {
    let last = rows[i].items@.last().clip;
    let s = if stays_up(p, asp, rows, i, cur) {
        last + 1
    } else {
        last as int
    };
    if s < cur + 1 {
        cur + 1
    } else if s > asp.len() - 1 {
        asp.len() - 1
    } else {
        s
    }
}

/// The row starts that the walked rows settle on, from row `i` on, which
/// starts at `cur`. Once the last clip starts a row, no further row follows.
pub open spec fn settled(
    p: Pane,
    asp: Seq<Aspect>,
    rows: Seq<RibbonRow>,
    i: int,
    cur: int,
) -> Seq<usize>
    decreases rows.len() - i,
{
    if i + 1 >= rows.len() || cur + 1 > asp.len() - 1 {
        Seq::empty()
    } else {
        let s = next_start(p, asp, rows, i, cur);
        seq![s as usize] + settled(p, asp, rows, i + 1, s)
    }
}

/// Each start lies after the ones before it.
pub open spec fn ascending(v: Seq<usize>) -> bool {
    forall|i: int, j: int| 0 <= i < j < v.len() ==> #[trigger] v[i] < #[trigger] v[j]
}

/// Settles walked rows on the nearest packing in which no tile is cut: every
/// tile on a boundary joins the row that shows more of it, unless that row
/// cannot hold it. The result is the list of row starts.
pub fn ribbon_quantize(p: &Pane, asp: &Vec<Aspect>, rows: &Vec<RibbonRow>) -> (starts: Vec<usize>)
    requires
        p.wf(),
        flex::all_shown(asp@),
        asp@.len() > 0,
        forall|k: int|
            0 <= k < rows@.len() ==> (#[trigger] rows@[k]).items@.len() > 0 && in_reach(rows@[k])
                && rows@[k].items@.last().clip < asp@.len(),
    ensures
        starts@ == seq![0usize] + settled(*p, asp@, rows@, 0, 0),
        ascending(starts@),
        forall|k: int| 0 <= k < starts@.len() ==> #[trigger] starts@[k] < asp@.len(),
{
    proof {
        reveal(in_reach);
    }
    let n: usize = asp.len();
    let edge: i128 = if p.vw - p.gap < flex::PIXEL {
        flex::PIXEL
    } else {
        p.vw - p.gap
    };
    let mut starts: Vec<usize> = Vec::new();
    starts.push(0);
    let mut cur: usize = 0;
    let mut i: usize = 0;
    proof {
        assert(starts@ + settled(*p, asp@, rows@, 0, 0) =~= seq![0usize] + settled(
            *p,
            asp@,
            rows@,
            0,
            0,
        ));
    }
    while rows.len() > 0 && i < rows.len() - 1 && cur < n - 1
        invariant
            p.wf(),
            flex::all_shown(asp@),
            n == asp@.len(),
            n > 0,
            edge == (if p.vw - p.gap < flex::PIXEL {
                flex::PIXEL as int
            } else {
                p.vw - p.gap
            }),
            forall|k: int|
                0 <= k < rows@.len() ==> (#[trigger] rows@[k]).items@.len() > 0 && in_reach(rows@[k])
                    && rows@[k].items@.last().clip < asp@.len(),
            0 <= i <= rows@.len(),
            cur < n,
            starts@.len() > 0,
            starts@.last() == cur,
            starts@ + settled(*p, asp@, rows@, i as int, cur as int) == seq![0usize] + settled(
                *p,
                asp@,
                rows@,
                0,
                0,
            ),
            ascending(starts@),
            forall|k: int| 0 <= k < starts@.len() ==> #[trigger] starts@[k] < n,
        decreases rows@.len() - i,
    {
        let row = &rows[i];
        let next = &rows[i + 1];
        proof {
            reveal(in_reach);
        }
        let last: RibbonItem = row.items[row.items.len() - 1];
        let both: bool = next.items[0].clip == last.clip;
        let up: bool = if !both {
            true
        } else if 2 * (edge - last.x) >= last.w && cur <= last.clip {
            flex::row_fits(p, asp, cur, last.clip + 1)
        } else {
            false
        };
        assert(up == stays_up(*p, asp@, rows@, i as int, cur as int));
        let s: usize = if up {
            last.clip + 1
        } else {
            last.clip
        };
        let start: usize = if s < cur + 1 {
            cur + 1
        } else if s > n - 1 {
            n - 1
        } else {
            s
        };
        let ghost before = starts@;
        proof {
            assert(start == next_start(*p, asp@, rows@, i as int, cur as int));
            let rest = settled(*p, asp@, rows@, i + 1, start as int);
            assert(settled(*p, asp@, rows@, i as int, cur as int) == seq![start] + rest);
            assert(before.push(start) + rest =~= before + (seq![start] + rest));
        }
        starts.push(start);
        cur = start;
        i += 1;
    }
    proof {
        assert(settled(*p, asp@, rows@, i as int, cur as int) =~= Seq::<usize>::empty());
        assert(starts@ + Seq::<usize>::empty() =~= starts@);
    }
    starts
}


/// What letting go of the strip leads to: rows that glide from where the pinch
/// left them to where they rest, or, where the rows do not correspond one to
/// one, the packing at once.
pub enum Release {
    Install { starts: Vec<usize> },
    Settle {
        /// The walked rows that are seen on the way.
        kept: Vec<usize>,
        /// Where each of them comes to rest.
        to: Vec<RibbonRow>,
        starts: Vec<usize>,
        scroll: i128,
    },
}

/// `grid` is the packing that the row starts give.
pub open spec fn rebuilt(p: Pane, asp: Seq<Aspect>, starts: Seq<usize>, grid: FlexGrid) -> bool {
    &&& grid.wf(asp.len() as int, p.gap as int)
    &&& flex::spans(grid.rows@) == p.packed(asp, starts, 0, 1)
    &&& forall|r: int|
        0 <= r < grid.rows@.len() ==> {
            let row = #[trigger] grid.rows@[r];
            let (h, indented) = p.settled_height(asp, row.start as int, row.end as int);
            &&& row.h == h
            &&& row.h <= 4 * LENGTH_LIMIT
            &&& row.strip(asp, p.gap as int, flex::settled_left(p, row, indented))
        }
}

/// The scroll that leaves the held row where it is, as far as the content
/// reaches.
pub open spec fn settled_scroll(win: Window, from: RibbonRow, rest: FlexRow, height: int) -> int {
    let s = rest.y - from.y;
    let max = if height > win.vh {
        height - win.vh
    } else {
        0
    };
    if s < 0 {
        0
    } else if s > max {
        max
    } else {
        s
    }
}

/// The row is in the window somewhere between where it is and where it rests.
pub open spec fn seen(win: Window, from: RibbonRow, rest: FlexRow, scroll: int) -> bool {
    let y = rest.y - scroll;
    &&& from.y < win.vh || y < win.vh
    &&& from.y + from.h > 0 || y + rest.h > 0
}

/// Where a tile of a walked row comes to rest in the window: in its place in
/// the row, or, where it has left the row, past the edge that it leaves by.
pub open spec fn rest_x(win: Window, rest: FlexRow, it: RibbonItem, w: int) -> int {
    if it.clip < rest.start {
        let x = rest.x@[0] - win.gap - w;
        if x < -w {
            x
        } else {
            -w
        }
    } else if it.clip >= rest.end {
        let x = rest.x@.last() + rest.w@.last() + win.gap;
        if x > win.vw {
            x
        } else {
            win.vw as int
        }
    } else {
        rest.x@[it.clip - rest.start] as int
    }
}

/// `to` is where `from` comes to rest: the same tiles in the same order, in
/// shape at the resting row's height.
pub open spec fn rests(
    asp: Seq<Aspect>,
    win: Window,
    from: RibbonRow,
    rest: FlexRow,
    scroll: int,
    to: RibbonRow,
) -> bool {
    &&& to.y == rest.y - scroll
    &&& to.h == rest.h
    &&& to.items@.len() == from.items@.len()
    &&& forall|k: int|
        0 <= k < to.items@.len() ==> {
            let it = #[trigger] to.items@[k];
            &&& it.clip == from.items@[k].clip
            &&& it.w == flex::width_at(asp[it.clip as int], rest.h as int)
            &&& it.x == rest_x(win, rest, from.items@[k], it.w as int)
        }
}

/// The window of a pane.
pub open spec fn same_window(win: Window, p: Pane) -> bool {
    win.vw == p.vw && win.gap == p.gap
}

fn rest_row(
    asp: &Vec<Aspect>,
    win: &Window,
    from: &RibbonRow,
    rest: &FlexRow,
    scroll: i128,
) -> (to: RibbonRow)
    requires
        flex::all_shown(asp@),
        win.wf(),
        in_shape(asp@, from.items@, from.h as int),
        0 <= rest.h <= 4 * LENGTH_LIMIT,
        rest.start < rest.end <= asp@.len(),
        rest.x@.len() == rest.end - rest.start,
        rest.w@.len() == rest.end - rest.start,
        forall|k: int|
            0 <= k < rest.x@.len() ==> -FAR <= #[trigger] rest.x@[k] <= FAR && 0 <= rest.w@[k]
                <= FAR,
        -FAR <= rest.y <= FAR,
        0 <= scroll <= 3 * FAR,
    ensures
        rests(asp@, *win, *from, *rest, scroll as int, to),
{
    let mut items: Vec<RibbonItem> = Vec::new();
    let mut k: usize = 0;
    while k < from.items.len()
        invariant
            flex::all_shown(asp@),
            win.wf(),
            in_shape(asp@, from.items@, from.h as int),
            0 <= rest.h <= 4 * LENGTH_LIMIT,
            rest.start < rest.end <= asp@.len(),
            rest.x@.len() == rest.end - rest.start,
            rest.w@.len() == rest.end - rest.start,
            forall|k: int|
                0 <= k < rest.x@.len() ==> -FAR <= #[trigger] rest.x@[k] <= FAR && 0 <= rest.w@[k]
                    <= FAR,
            k <= from.items@.len(),
            items@.len() == k,
            forall|j: int|
                0 <= j < k ==> {
                    let it = #[trigger] items@[j];
                    &&& it.clip == from.items@[j].clip
                    &&& it.w == flex::width_at(asp@[it.clip as int], rest.h as int)
                    &&& it.x == rest_x(*win, *rest, from.items@[j], it.w as int)
                },
        decreases from.items@.len() - k,
    {
        let it: RibbonItem = from.items[k];
        assert(it.clip < asp@.len());
        let w: i128 = flex::tile_width(asp[it.clip], rest.h);
        let m: usize = rest.x.len() - 1;
        assert(-FAR <= rest.x@[0] <= FAR);
        assert(-FAR <= rest.x@[m as int] <= FAR);
        let x: i128 = if it.clip < rest.start {
            let x: i128 = rest.x[0] - win.gap - w;
            if x < -w {
                x
            } else {
                -w
            }
        } else if it.clip >= rest.end {
            let x: i128 = rest.x[m] + rest.w[m] + win.gap;
            if x > win.vw {
                x
            } else {
                win.vw
            }
        } else {
            rest.x[it.clip - rest.start]
        };
        items.push(RibbonItem { clip: it.clip, x, w });
        k += 1;
    }
    RibbonRow { y: rest.y - scroll, h: rest.h, items }
}

/// The walked rows `from` settle on `grid`, the packing of the row starts: the
/// scroll leaves the held row in place, and each row that is seen on the way
/// has a place to rest.
pub open spec fn settles(
    p: Pane,
    asp: Seq<Aspect>,
    win: Window,
    from: Seq<RibbonRow>,
    at: int,
    kept: Seq<usize>,
    to: Seq<RibbonRow>,
    starts: Seq<usize>,
    scroll: int,
    grid: FlexGrid,
) -> bool {
    &&& rebuilt(p, asp, starts, grid)
    &&& grid.rows@.len() == from.len()
    &&& scroll == settled_scroll(win, from[at], grid.rows@[at], grid.height as int)
    &&& ascending(kept)
    &&& forall|k: usize| #[trigger]
        kept.contains(k) <==> k < from.len() && seen(win, from[k as int], grid.rows@[k as int], scroll)
    &&& to.len() == kept.len()
    &&& forall|k: int|
        0 <= k < to.len() ==> rests(
            asp,
            win,
            from[kept[k] as int],
            grid.rows@[kept[k] as int],
            scroll,
            #[trigger] to[k],
        )
}

/// Lets go of a strip whose whole library has been walked into `from`, with
/// the held row at `at`.
pub fn ribbon_release(
    asp: &Vec<Aspect>,
    win: &Window,
    p: &Pane,
    from: &Vec<RibbonRow>,
    at: usize,
) -> (r: Release)
    requires
        flex::all_shown(asp@),
        0 < asp@.len() < usize::MAX,
        win.wf(),
        p.wf(),
        same_window(*win, *p),
        at < from@.len(),
        forall|k: int|
            0 <= k < from@.len() ==> {
                let row = #[trigger] from@[k];
                &&& row.items@.len() > 0
                &&& in_shape(asp@, row.items@, row.h as int)
                &&& in_reach(row)
                &&& -FAR <= row.y <= FAR
            },
    ensures
        match r {
            Release::Install { starts } => {
                &&& starts@ == seq![0usize] + settled(*p, asp@, from@, 0, 0)
                &&& p.packed(asp@, starts@, 0, 1).len() != from@.len()
            },
            Release::Settle { kept, to, starts, scroll } => {
                &&& starts@ == seq![0usize] + settled(*p, asp@, from@, 0, 0)
                &&& p.packed(asp@, starts@, 0, 1).len() == from@.len()
                &&& exists|grid: FlexGrid| #[trigger]
                    settles(
                        *p,
                        asp@,
                        *win,
                        from@,
                        at as int,
                        kept@,
                        to@,
                        starts@,
                        scroll as int,
                        grid,
                    )
            },
        },
{
    proof {
        reveal(in_reach);
    }
    proof {
        reveal(row_ok);
    }
    proof {
        assert forall|k: int| 0 <= k < from@.len() implies (#[trigger] from@[k]).items@.last().clip
            < asp@.len() by {
            let items = from@[k].items@;
            assert(items[items.len() - 1].clip < asp@.len());
        }
    }
    let starts = ribbon_quantize(p, asp, from);
    let built = flex::build_ribbon_flex(p, asp, &starts);
    let grid = match built {
        Some(grid) => grid,
        None => {
            assert(starts@[0] == 0);
            return Release::Install { starts };
        },
    };
    if grid.rows.len() != from.len() {
        return Release::Install { starts };
    }
    settle_on(asp, win, p, from, at, starts, grid)
}

/// Settles the walked rows on the packing `grid`.
fn settle_on(
    asp: &Vec<Aspect>,
    win: &Window,
    p: &Pane,
    from: &Vec<RibbonRow>,
    at: usize,
    starts: Vec<usize>,
    grid: FlexGrid,
) -> (r: Release)
    requires
        flex::all_shown(asp@),
        asp@.len() <= usize::MAX,
        win.wf(),
        p.wf(),
        same_window(*win, *p),
        at < from@.len(),
        forall|k: int|
            0 <= k < from@.len() ==> {
                let row = #[trigger] from@[k];
                &&& row.items@.len() > 0
                &&& in_shape(asp@, row.items@, row.h as int)
                &&& in_reach(row)
                &&& -FAR <= row.y <= FAR
            },
        rebuilt(*p, asp@, starts@, grid),
        grid.rows@.len() == from@.len(),
    ensures
        r matches Release::Settle { kept, to, starts: s, scroll } && s == starts && settles(
            *p,
            asp@,
            *win,
            from@,
            at as int,
            kept@,
            to@,
            starts@,
            scroll as int,
            grid,
        ),
{
    proof {
        reveal(in_reach);
    }
    proof {
        reveal(row_ok);
    }
    proof {
        rebuilt_in_reach(*p, asp@, starts@, grid);
        assert(-FAR <= from@[at as int].y <= FAR);
    }
    let max: i128 = if grid.height > win.vh {
        grid.height - win.vh
    } else {
        0
    };
    let s: i128 = grid.rows[at].y - from[at].y;
    let scroll: i128 = if s < 0 {
        0
    } else if s > max {
        max
    } else {
        s
    };
    let (kept, to) = rest_rows(asp, win, from, &grid, scroll);
    Release::Settle { kept, to, starts, scroll }
}

proof fn rebuilt_in_reach(p: Pane, asp: Seq<Aspect>, starts: Seq<usize>, grid: FlexGrid)
    requires
        p.wf(),
        flex::all_shown(asp),
        asp.len() <= usize::MAX,
        rebuilt(p, asp, starts, grid),
    ensures
        grid_reach(grid),
        flex::stacked(grid.rows@, asp.len() as int, p.gap as int),
{
    reveal(in_reach);
    crate::grid::settled_in_range(p, asp, grid);
    grid_in_reach(p, asp, grid);
}

/// The rows that are seen on the way, and where each comes to rest.
fn rest_rows(
    asp: &Vec<Aspect>,
    win: &Window,
    from: &Vec<RibbonRow>,
    grid: &FlexGrid,
    scroll: i128,
) -> (r: (Vec<usize>, Vec<RibbonRow>))
    requires
        flex::all_shown(asp@),
        win.wf(),
        grid.rows@.len() == from@.len(),
        0 <= scroll <= 3 * FAR,
        forall|k: int|
            0 <= k < from@.len() ==> {
                let row = #[trigger] from@[k];
                &&& row.items@.len() > 0
                &&& in_shape(asp@, row.items@, row.h as int)
                &&& in_reach(row)
                &&& -FAR <= row.y <= FAR
            },
        grid_reach(*grid),
        flex::stacked(grid.rows@, asp@.len() as int, win.gap as int),
    ensures
        ascending(r.0@),
        forall|k: usize| #[trigger]
            r.0@.contains(k) <==> k < from@.len() && seen(
                *win,
                from@[k as int],
                grid.rows@[k as int],
                scroll as int,
            ),
        r.1@.len() == r.0@.len(),
        forall|k: int|
            0 <= k < r.1@.len() ==> rests(
                asp@,
                *win,
                from@[r.0@[k] as int],
                grid.rows@[r.0@[k] as int],
                scroll as int,
                #[trigger] r.1@[k],
            ),
{
    proof {
        reveal(in_reach);
    }
    let mut kept: Vec<usize> = Vec::new();
    let mut to: Vec<RibbonRow> = Vec::new();
    let mut k: usize = 0;
    while k < from.len()
        invariant
            flex::all_shown(asp@),
            win.wf(),
            flex::stacked(grid.rows@, asp@.len() as int, win.gap as int),
            grid.rows@.len() == from@.len(),
            0 <= scroll <= 3 * FAR,
            forall|k: int|
                0 <= k < from@.len() ==> {
                    let row = #[trigger] from@[k];
                    &&& row.items@.len() > 0
                    &&& in_shape(asp@, row.items@, row.h as int)
                    &&& in_reach(row)
                    &&& -FAR <= row.y <= FAR
                },
            grid_reach(*grid),
            k <= from@.len(),
            ascending(kept@),
            forall|j: int| 0 <= j < kept@.len() ==> #[trigger] kept@[j] < k,
            forall|j: usize| #[trigger]
                kept@.contains(j) <==> j < k && seen(
                    *win,
                    from@[j as int],
                    grid.rows@[j as int],
                    scroll as int,
                ),
            to@.len() == kept@.len(),
            forall|j: int|
                0 <= j < to@.len() ==> rests(
                    asp@,
                    *win,
                    from@[kept@[j] as int],
                    grid.rows@[kept@[j] as int],
                    scroll as int,
                    #[trigger] to@[j],
                ),
        decreases from@.len() - k,
    {
        let a = &from[k];
        let b = &grid.rows[k];
        proof {
            height_in_reach(from@[k as int]);
        }
        let y: i128 = b.y - scroll;
        if (a.y < win.vh || y < win.vh) && (a.y + a.h > 0 || y + b.h > 0) {
            let row = rest_row(asp, win, a, b, scroll);
            let ghost before = kept@;
            kept.push(k);
            to.push(row);
            proof {
                crate::grid::pushed_contains(before, k);
            }
        }
        k += 1;
    }
    (kept, to)
}

/// The grid's rows lie where sums of their edges stay within range.
spec fn grid_reach(grid: FlexGrid) -> bool {
    &&& 0 <= grid.height <= 2 * FAR
    &&& forall|r: int|
        0 <= r < grid.rows@.len() ==> {
            let row = #[trigger] grid.rows@[r];
            &&& 0 <= row.h <= 4 * LENGTH_LIMIT
            &&& -FAR <= row.y <= FAR
            &&& row.x@.len() == row.end - row.start
            &&& row.w@.len() == row.end - row.start
            &&& forall|k: int|
                0 <= k < row.x@.len() ==> -FAR <= #[trigger] row.x@[k] <= FAR && 0 <= row.w@[k]
                    <= FAR
        }
}

proof fn grid_in_reach(p: Pane, asp: Seq<Aspect>, grid: FlexGrid)
    requires
        p.wf(),
        grid.wf(asp.len() as int, p.gap as int),
        forall|r: int|
            0 <= r < grid.rows@.len() ==> {
                let row = #[trigger] grid.rows@[r];
                let (h, indented) = p.settled_height(asp, row.start as int, row.end as int);
                &&& row.h <= 4 * LENGTH_LIMIT
                &&& row.strip(asp, p.gap as int, flex::settled_left(p, row, indented))
            },
        forall|r: int, k: int|
            #![trigger grid.rows@[r].x@[k]]
            0 <= r < grid.rows@.len() && 0 <= k < grid.rows@[r].x@.len() ==> {
                &&& -FAR <= grid.rows@[r].x@[k] <= FAR
                &&& 0 <= grid.rows@[r].w@[k] <= FAR
                &&& -FAR <= grid.rows@[r].y <= FAR
            },
    ensures
        grid_reach(grid),
{
    reveal(in_reach);
    assert forall|r: int| 0 <= r < grid.rows@.len() implies {
        let row = #[trigger] grid.rows@[r];
        &&& 0 <= row.h <= 4 * LENGTH_LIMIT
        &&& -FAR <= row.y <= FAR
        &&& row.x@.len() == row.end - row.start
        &&& row.w@.len() == row.end - row.start
        &&& forall|k: int|
            0 <= k < row.x@.len() ==> -FAR <= #[trigger] row.x@[k] <= FAR && 0 <= row.w@[k] <= FAR
    } by {
        let row = grid.rows@[r];
        assert(-FAR <= grid.rows@[r].x@[0] <= FAR);
        assert forall|k: int| 0 <= k < row.x@.len() implies -FAR <= #[trigger] row.x@[k] <= FAR
            && 0 <= row.w@[k] <= FAR by {
            assert(-FAR <= grid.rows@[r].x@[k] <= FAR);
        }
    }
    if grid.rows@.len() > 0 {
        let r = grid.rows@.len() - 1;
        assert(grid.rows@[r].h >= 0);
        crate::grid::rows_not_above(grid.rows@, asp.len() as int, p.gap as int, r);
    }
}

/// `a` on the way to `b`, `t` millionths of it gone.
pub open spec fn between(a: int, b: int, t: int) -> int {
    if b >= a {
        a + (b - a) * t / (WHOLE as int)
    } else {
        a - (a - b) * t / (WHOLE as int)
    }
}

/// The point `t` millionths of the way from `a` to `b`.
pub fn glide(a: i128, b: i128, t: i128) -> (r: i128)
    requires
        -4 * FAR <= a <= 4 * FAR,
        -4 * FAR <= b <= 4 * FAR,
        0 <= t <= WHOLE,
    ensures
        r == between(a as int, b as int, t as int),
        -4 * FAR <= r <= 4 * FAR,
{
    proof {
        glide_keeps_to_its_way(a as int, b as int, t as int);
    }
    if b >= a {
        a + millionths(b - a, t)
    } else {
        a - millionths(a - b, t)
    }
}

/// `t` millionths of `d`, without passing through a product of the two.
fn millionths(d: i128, t: i128) -> (r: i128)
    requires
        0 <= d <= 8 * FAR,
        0 <= t <= WHOLE,
    ensures
        r == d * t / (WHOLE as int),
        0 <= r <= d,
{
    let q: i128 = d / WHOLE;
    let m: i128 = d % WHOLE;
    proof {
        let w = WHOLE as int;
        assert(0 <= q * t <= q * w) by (nonlinear_arith)
            requires
                q >= 0,
                0 <= t <= w,
        ;
        assert(0 <= m * t <= m * w) by (nonlinear_arith)
            requires
                m >= 0,
                0 <= t <= w,
        ;
        assert(d * t == m * t + (q * t) * w) by (nonlinear_arith)
            requires
                d == q * w + m,
        ;
        vstd::arithmetic::div_mod::lemma_hoist_over_denominator(m * t, q * t, w as nat);
        assert(m * t / w <= m) by (nonlinear_arith)
            requires
                0 <= m * t <= m * w,
                w > 0,
        ;
    }
    q * t + m * t / WHOLE
}

/// The rows of a settling strip, `t` millionths of the way: each row and each
/// tile of it between where it was and where it rests.
pub fn ribbon_rows(from: &Vec<RibbonRow>, to: &Vec<RibbonRow>, t: i128) -> (rows: Vec<RibbonRow>)
    requires
        0 <= t <= WHOLE,
        row_for_row(from@, to@),
    ensures
        rows@.len() == from@.len(),
        forall|k: int|
            0 <= k < rows@.len() ==> on_the_way(from@[k], to@[k], t as int, #[trigger] rows@[k]),
{
    let mut rows: Vec<RibbonRow> = Vec::new();
    let mut k: usize = 0;
    while k < from.len()
        invariant
            0 <= t <= WHOLE,
            row_for_row(from@, to@),
            k <= from@.len(),
            rows@.len() == k,
            forall|j: int|
                0 <= j < rows@.len() ==> on_the_way(
                    from@[j],
                    to@[j],
                    t as int,
                    #[trigger] rows@[j],
                ),
        decreases from@.len() - k,
    {
        let row = glide_row(&from[k], &to[k], t);
        rows.push(row);
        k += 1;
    }
    rows
}

/// The two lists have as many rows, and each row of one as many tiles as its
/// counterpart.
pub open spec fn row_for_row(from: Seq<RibbonRow>, to: Seq<RibbonRow>) -> bool {
    &&& from.len() == to.len()
    &&& forall|k: int|
        #![trigger from[k]]
        #![trigger to[k]]
        0 <= k < from.len() ==> near(from[k]) && near(to[k]) && from[k].items@.len()
            == to[k].items@.len()
}

/// The row's coordinates are within range.
pub open spec fn near(row: RibbonRow) -> bool {
    &&& -4 * FAR <= row.y <= 4 * FAR
    &&& -4 * FAR <= row.h <= 4 * FAR
    &&& forall|k: int|
        0 <= k < row.items@.len() ==> -4 * FAR <= (#[trigger] row.items@[k]).x <= 4 * FAR && -4
            * FAR <= row.items@[k].w <= 4 * FAR
}

/// `row` is `t` millionths of the way from `from` to `to`.
pub open spec fn on_the_way(from: RibbonRow, to: RibbonRow, t: int, row: RibbonRow) -> bool {
    &&& row.y == between(from.y as int, to.y as int, t)
    &&& row.h == between(from.h as int, to.h as int, t)
    &&& row.items@.len() == from.items@.len()
    &&& forall|k: int|
        0 <= k < row.items@.len() ==> {
            let it = #[trigger] row.items@[k];
            &&& it.clip == from.items@[k].clip
            &&& it.x == between(from.items@[k].x as int, to.items@[k].x as int, t)
            &&& it.w == between(from.items@[k].w as int, to.items@[k].w as int, t)
        }
}

fn glide_row(from: &RibbonRow, to: &RibbonRow, t: i128) -> (row: RibbonRow)
    requires
        0 <= t <= WHOLE,
        near(*from),
        near(*to),
        from.items@.len() == to.items@.len(),
    ensures
        on_the_way(*from, *to, t as int, row),
{
    let mut items: Vec<RibbonItem> = Vec::new();
    let mut k: usize = 0;
    while k < from.items.len()
        invariant
            0 <= t <= WHOLE,
            near(*from),
            near(*to),
            from.items@.len() == to.items@.len(),
            k <= from.items@.len(),
            items@.len() == k,
            forall|j: int|
                0 <= j < k ==> {
                    let it = #[trigger] items@[j];
                    &&& it.clip == from.items@[j].clip
                    &&& it.x == between(from.items@[j].x as int, to.items@[j].x as int, t as int)
                    &&& it.w == between(from.items@[j].w as int, to.items@[j].w as int, t as int)
                },
        decreases from.items@.len() - k,
    {
        let a: RibbonItem = from.items[k];
        let b: RibbonItem = to.items[k];
        assert(-4 * FAR <= from.items@[k as int].x <= 4 * FAR);
        assert(-4 * FAR <= to.items@[k as int].x <= 4 * FAR);
        items.push(RibbonItem { clip: a.clip, x: glide(a.x, b.x, t), w: glide(a.w, b.w, t) });
        k += 1;
    }
    RibbonRow { y: glide(from.y, to.y, t), h: glide(from.h, to.h, t), items }
}

/// A glide begins where it starts, ends where it leads, and never leaves the
/// way between.
pub proof fn glide_keeps_to_its_way(a: int, b: int, t: int)
    requires
        0 <= t <= WHOLE,
    ensures
        between(a, b, 0) == a,
        between(a, b, WHOLE as int) == b,
        a <= b ==> a <= between(a, b, t) <= b,
        b <= a ==> b <= between(a, b, t) <= a,
{
    let d = if b >= a {
        b - a
    } else {
        a - b
    };
    assert(0 <= d * t <= d * 1_000_000) by (nonlinear_arith)
        requires
            d >= 0,
            0 <= t <= 1_000_000,
    ;
    assert(d * 0 == 0);
}


/// `a`, kept between `lo` and `hi`.
pub open spec fn clamped(a: int, lo: int, hi: int) -> int {
    if a < lo {
        lo
    } else if a > hi {
        hi
    } else {
        a
    }
}

pub(crate) fn clamp_to(a: i128, lo: i128, hi: i128) -> (r: i128)
    requires
        lo <= hi,
    ensures
        r == clamped(a as int, lo as int, hi as int),
        lo <= r <= hi,
{
    if a < lo {
        lo
    } else if a > hi {
        hi
    } else {
        a
    }
}

/// The smallest zoom that a strip is taken at.
pub const ZOOM_FLOOR: i128 = 10_000;

/// The clip that a pointer at the content's point takes hold of: the one whose
/// tile is under it, or the nearest in the row at its height.
pub open spec fn held_clip(lay: Layout, x: int, y: int) -> Option<usize> {
    match lay.hit(x, y) {
        Some(i) => Some(i),
        None => {
            let at = if y < 0 {
                0
            } else {
                y
            };
            lay.nearest(choose|row: int| lay.is_row_at(at, row), x)
        },
    }
}

/// Takes hold of the strip at the pointer (`cx`, `cy`): the tile under it, or
/// the nearest in the row at its height, held at the point of the tile that is
/// nearest to the pointer. None on an empty or uniform grid, or on a tile
/// without extent.
pub fn ribbon_grip(lay: &Layout, cx: i128, cy: i128, scroll: i128, zoom: i128) -> (r: Option<
    RibbonGrip,
>)
    requires
        lay.wf(),
        lay.within_range(),
        lay.len <= usize::MAX - 25_000,
        0 <= cx <= LENGTH_LIMIT,
        -LENGTH_LIMIT <= cy <= LENGTH_LIMIT,
        -FAR <= scroll <= FAR,
        0 <= zoom <= 100 * WHOLE,
    ensures
        r is Some <==> lay.flex is Some && match held_clip(*lay, cx as int, cy + scroll) {
            Some(i) => lay.rect_of(i as int).w > 0 && lay.rect_of(i as int).h > 0,
            None => false,
        },
        r matches Some(g) ==> {
            let t = lay.rect_of(g.clip as int);
            &&& held_clip(*lay, cx as int, cy + scroll) == Some(g.clip)
            &&& g.clip < lay.len
            &&& g.cx == clamped(cx as int, t.x as int, t.x + t.w)
            &&& g.cy == clamped(cy + scroll, t.y as int, t.y + t.h) - scroll
            &&& g.fx == g.cx - t.x
            &&& g.fx_of == t.w
            &&& g.fy == g.cy + scroll - t.y
            &&& g.fy_of == t.h
            &&& g.z0 == (if zoom < ZOOM_FLOOR {
                ZOOM_FLOOR
            } else {
                zoom
            })
            &&& g.zoom == g.z0
            &&& g.blend == 0
            &&& lay.is_row_of(g.clip as int, g.grip_row as int)
            &&& lay.flex matches Some(f) && g.rest_h@.len() == f.rows@.len() && forall|k: int|
                0 <= k < f.rows@.len() ==> #[trigger] g.rest_h@[k] == f.rows@[k].h
        },
{
    let f = match &lay.flex {
        Some(f) => f,
        None => {
            return None;
        },
    };
    let y: i128 = cy + scroll;
    let ghost row_y = if y < 0 {
        0
    } else {
        y as int
    };
    let hit: Option<usize> = match lay.tile_at(cx, y) {
        Some(i) => Some(i),
        None => {
            let row: usize = lay.row_at_y(
                if y < 0 {
                    0
                } else {
                    y
                },
            );
            proof {
                crate::grid::row_at_is_one(*lay, row_y, row as int);
            }
            lay.nearest_in_row(row, cx)
        },
    };
    let clip: usize = match hit {
        Some(i) => i,
        None => {
            return None;
        },
    };
    proof {
        crate::grid::rect_in_range(*lay, clip as int);
    }
    let t: Rect = lay.tile_rect(clip);
    if t.w <= 0 || t.h <= 0 {
        return None;
    }
    let gx: i128 = clamp_to(cx, t.x, t.x + t.w);
    let gy: i128 = clamp_to(y, t.y, t.y + t.h);
    let z0: i128 = if zoom < ZOOM_FLOOR {
        ZOOM_FLOOR
    } else {
        zoom
    };
    let mut rest_h: Vec<i128> = Vec::new();
    let mut k: usize = 0;
    while k < f.rows.len()
        invariant
            k <= f.rows@.len(),
            rest_h@.len() == k,
            forall|j: int| 0 <= j < k ==> #[trigger] rest_h@[j] == f.rows@[j].h,
        decreases f.rows@.len() - k,
    {
        rest_h.push(f.rows[k].h);
        k += 1;
    }
    Some(
        RibbonGrip {
            clip,
            fx: gx - t.x,
            fx_of: t.w,
            fy: gy - t.y,
            fy_of: t.h,
            cx: gx,
            cy: gy - scroll,
            z0,
            zoom: z0,
            grip_row: lay.row_of(clip),
            rest_h,
            blend: 0,
        },
    )
}

/// At the zoom that a strip was taken at, every row has its height at rest, and
/// the point under the fingers lies where it was taken.
proof fn fresh_heights(g: RibbonGrip, n: int, nominal: int, off: int)
    requires
        g.wf(n),
        g.zoom == g.z0,
        g.blend == 0,
        0 <= g.grip_row + off < g.rest_h@.len(),
    ensures
        g.row_h(nominal, off) == g.rest_h@[g.grip_row + off],
        g.fx * g.fx_of / (g.fx_of as int) == g.fx,
        g.fy * g.fy_of / (g.fy_of as int) == g.fy,
{
    let b = g.rest_h@[g.grip_row + off] as int;
    let z = g.z0 as int;
    assert(b * z / z == b) by (nonlinear_arith)
        requires
            z > 0,
    ;
    let d = g.fx_of as int;
    assert(g.fx * d / d == g.fx) by (nonlinear_arith)
        requires
            d > 0,
    ;
    let e = g.fy_of as int;
    assert(g.fy * e / e == g.fy) by (nonlinear_arith)
        requires
            e > 0,
    ;
    assert(nominal * 0 == 0);
}

/// Where a resting row's last tile ends.
pub open spec fn row_right(row: FlexRow) -> int {
    row.x@.last() + row.w@.last()
}

/// Row `j` spans the window: it begins at the left edge, only the first row
/// further in; its tiles begin inside the window, and it ends at the right
/// edge, at most a gap before it, only the last row earlier.
pub open spec fn flush(win: Window, rows: Seq<FlexRow>, j: int) -> bool {
    let row = rows[j];
    &&& row.x@[0] >= win.left()
    &&& j > 0 ==> row.x@[0] == win.left()
    &&& row.x@[0] + row.w@[0] > win.left() + CROSSING
    &&& row.x@.last() < win.right()
    &&& row_right(row) <= win.right() + CROSSING
    &&& j + 1 < rows.len() ==> row_right(row) + win.gap >= win.right()
}

/// The layout's rows are strips that span the window.
#[verifier::opaque]
pub open spec fn at_rest(lay: Layout, asp: Seq<Aspect>, win: Window, f: FlexGrid) -> bool {
    &&& lay.wf()
    &&& lay.flex == Some(f)
    &&& lay.len == asp.len()
    &&& lay.gap == win.gap
    &&& win.wf()
    &&& flex::all_shown(asp)
    &&& forall|j: int|
        0 <= j < f.rows@.len() ==> (#[trigger] f.rows@[j]).strip(
            asp,
            win.gap as int,
            f.rows@[j].x@[0] as int,
        ) && flush(win, f.rows@, j)
}

/// What is known of row `j` of a layout at rest, but for its inner tiles.
proof fn edges_at_rest(lay: Layout, asp: Seq<Aspect>, win: Window, f: FlexGrid, j: int)
    requires
        at_rest(lay, asp, win, f),
        0 <= j < f.rows@.len(),
    ensures
        lay.len == asp.len(),
        win.wf(),
        flush(win, f.rows@, j),
        f.rows@[j].start < f.rows@[j].end <= asp.len(),
        f.rows@[j].x@.len() == f.rows@[j].end - f.rows@[j].start,
        f.rows@[j].w@.len() == f.rows@[j].end - f.rows@[j].start,
        f.rows@[j].w@[0] == flex::width_at(asp[f.rows@[j].start as int], f.rows@[j].h as int),
        f.rows@[j].w@.last() == flex::width_at(asp[f.rows@[j].end - 1], f.rows@[j].h as int),
        0 <= f.rows@[j].h,
        j == 0 ==> f.rows@[j].start == 0,
        j + 1 == f.rows@.len() ==> f.rows@[j].end == asp.len(),
        j + 1 < f.rows@.len() ==> f.rows@[j + 1].start == f.rows@[j].end && f.rows@[j + 1].y
            == f.rows@[j].y + f.rows@[j].h + win.gap,
{
    row_at_rest(lay, asp, win, f, j);
    let row = f.rows@[j];
    let c = row.w@.len() - 1;
    assert(row.w@[0] == flex::width_at(asp[row.start + 0], row.h as int));
    assert(row.w@[c] == flex::width_at(asp[row.start + c], row.h as int));
}

/// What is known of row `j` of a layout at rest.
proof fn row_at_rest(lay: Layout, asp: Seq<Aspect>, win: Window, f: FlexGrid, j: int)
    requires
        at_rest(lay, asp, win, f),
        0 <= j < f.rows@.len(),
    ensures
        lay.len == asp.len(),
        win.wf(),
        flex::all_shown(asp),
        f.rows@[j].strip(asp, win.gap as int, f.rows@[j].x@[0] as int),
        flush(win, f.rows@, j),
        0 <= f.rows@[j].h,
        j == 0 ==> f.rows@[j].start == 0,
        j + 1 == f.rows@.len() ==> f.rows@[j].end == asp.len(),
        j + 1 < f.rows@.len() ==> f.rows@[j + 1].start == f.rows@[j].end && f.rows@[j + 1].y
            == f.rows@[j].y + f.rows@[j].h + win.gap,
{
    reveal(at_rest);
    assert(f.rows@[j].strip(asp, win.gap as int, f.rows@[j].x@[0] as int) && flush(
        win,
        f.rows@,
        j,
    ));
    if j + 1 < f.rows@.len() {
        assert(f.rows@[j + 1].start == f.rows@[j + 1 - 1].end);
    }
}

/// The strip has just been taken from the layout, scrolled by `scroll`.
pub open spec fn just_taken(lay: Layout, f: FlexGrid, g: RibbonGrip, scroll: int) -> bool {
    let t = lay.rect_of(g.clip as int);
    &&& g.wf(lay.len as int)
    &&& g.fx == g.cx - t.x
    &&& g.fx_of == t.w
    &&& g.fy == g.cy + scroll - t.y
    &&& g.fy_of == t.h
    &&& g.zoom == g.z0
    &&& g.blend == 0
    &&& lay.is_row_of(g.clip as int, g.grip_row as int)
    &&& g.rest_h@.len() == f.rows@.len()
    &&& forall|k: int| 0 <= k < f.rows@.len() ==> #[trigger] g.rest_h@[k] == f.rows@[k].h
}

/// The walked row shows the resting row, moved right by `lean`.
spec fn stands(row: RibbonRow, rest: FlexRow, scroll: int, lean: int) -> bool {
    &&& row.y == rest.y - scroll
    &&& row.h == rest.h
    &&& row.items@.len() > 0
    &&& row.items@[0].clip == rest.start
    &&& row.items@.last().clip + 1 == rest.end
    &&& forall|k: int|
        0 <= k < row.items@.len() ==> tile_stands(#[trigger] row.items@[k], rest, lean)
}

spec fn tile_stands(it: RibbonItem, rest: FlexRow, lean: int) -> bool {
    &&& rest.start <= it.clip < rest.end
    &&& it.x == rest.x@[it.clip - rest.start] + lean
    &&& it.w == rest.w@[it.clip - rest.start]
}

/// One tile in place puts its neighbours in place.
proof fn carries_on(
    asp: Seq<Aspect>,
    gap: int,
    full: Seq<RibbonItem>,
    rest: FlexRow,
    lean: int,
    m: int,
    k: int,
)
    requires
        in_shape(asp, full, rest.h as int),
        joined(full, gap),
        rest.strip(asp, gap, rest.x@[0] as int),
        0 <= m < full.len(),
        0 <= k < full.len(),
        tile_stands(full[m], rest, lean),
        rest.start <= full[k].clip < rest.end,
    ensures
        tile_stands(full[k], rest, lean),
    decreases if k < m {
        m - k
    } else {
        k - m
    },
{
    clips_ascend(full, gap, m);
    clips_ascend(full, gap, k);
    let c = full[k].clip - rest.start;
    assert(rest.w@[c] == flex::width_at(asp[rest.start + c], rest.h as int));
    if k > m {
        clips_ascend(full, gap, k - 1);
        carries_on(asp, gap, full, rest, lean, m, k - 1);
        assert(full[k].x == full[k - 1].x + full[k - 1].w + gap);
        assert(rest.x@[c] == rest.x@[c - 1] + rest.w@[c - 1] + gap);
    } else if k < m {
        clips_ascend(full, gap, k + 1);
        carries_on(asp, gap, full, rest, lean, m, k + 1);
        assert(full[k + 1].x == full[k + 1 - 1].x + full[k + 1 - 1].w + gap);
        assert(rest.x@[c + 1] == rest.x@[c + 1 - 1] + rest.w@[c + 1 - 1] + gap);
    }
}

/// A strip laid to the right from a tile in place ends where the row ends.
proof fn right_ends_meet(
    lay: Layout,
    asp: Seq<Aspect>,
    win: Window,
    f: FlexGrid,
    j: int,
    full: Seq<RibbonItem>,
    m: int,
)
    requires
        at_rest(lay, asp, win, f),
        0 <= j < f.rows@.len(),
        full_strip(asp, win, full, f.rows@[j].h as int),
        0 <= m < full.len(),
        tile_stands(full[m], f.rows@[j], 0),
        forall|k: int| m < k < full.len() ==> (#[trigger] full[k]).x < win.right(),
    ensures
        full.last().clip + 1 == f.rows@[j].end,
{
    let rest = f.rows@[j];
    let gap = win.gap as int;
    let n = full.len() - 1;
    reveal(full_strip);
    row_at_rest(lay, asp, win, f, j);
    clips_ascend(full, gap, m);
    clips_ascend(full, gap, n);
    let c = full[n].clip as int;
    if c >= rest.end {
        let k = rest.end - full[0].clip;
        clips_ascend(full, gap, k);
        clips_ascend(full, gap, k - 1);
        carries_on(asp, gap, full, rest, 0, m, k - 1);
        assert(full[k].x == full[k - 1].x + full[k - 1].w + gap);
        assert(full[k].clip < asp.len());
        assert(full[k].x < win.right());
        assert(false);
    } else if c + 1 < rest.end {
        carries_on(asp, gap, full, rest, 0, m, n);
        let i = c + 1 - rest.start;
        assert(rest.x@[i] == rest.x@[i - 1] + rest.w@[i - 1] + gap);
        flex::strip_ascends(asp, rest, gap, i, rest.x@.len() - 1);
        assert(false);
    }
}

/// A strip laid to the left from a tile in place begins where the row begins.
proof fn left_ends_meet(
    lay: Layout,
    asp: Seq<Aspect>,
    win: Window,
    f: FlexGrid,
    j: int,
    full: Seq<RibbonItem>,
    lean: int,
    m: int,
)
    requires
        at_rest(lay, asp, win, f),
        0 <= j < f.rows@.len(),
        full_strip(asp, win, full, f.rows@[j].h as int),
        0 <= m < full.len(),
        -CROSSING <= lean <= win.gap,
        tile_stands(full[m], f.rows@[j], lean),
        forall|k: int| 0 <= k < m ==> (#[trigger] full[k]).x + full[k].w > win.left(),
    ensures
        full[0].clip == f.rows@[j].start,
{
    let rest = f.rows@[j];
    let gap = win.gap as int;
    reveal(full_strip);
    row_at_rest(lay, asp, win, f, j);
    clips_ascend(full, gap, m);
    let c = full[0].clip as int;
    if c < rest.start {
        let k = rest.start - c;
        clips_ascend(full, gap, k);
        carries_on(asp, gap, full, rest, lean, m, k);
        assert(full[k].x == full[k - 1].x + full[k - 1].w + gap);
        assert(full[k - 1].x + full[k - 1].w > win.left());
        assert(false);
    } else if c > rest.start {
        carries_on(asp, gap, full, rest, lean, m, 0);
        flex::strip_ascends(asp, rest, gap, 0, c - rest.start);
        assert(false);
    }
}

/// A strip from end to end of a row, one tile of it in place, is in place.
proof fn strip_stands(
    lay: Layout,
    asp: Seq<Aspect>,
    win: Window,
    f: FlexGrid,
    j: int,
    full: Seq<RibbonItem>,
    lean: int,
    m: int,
    k: int,
)
    requires
        at_rest(lay, asp, win, f),
        0 <= j < f.rows@.len(),
        full_strip(asp, win, full, f.rows@[j].h as int),
        0 <= m < full.len(),
        tile_stands(full[m], f.rows@[j], lean),
        full[0].clip == f.rows@[j].start,
        full.last().clip + 1 == f.rows@[j].end,
        0 <= k < full.len(),
    ensures
        tile_stands(full[k], f.rows@[j], lean),
{
    let gap = win.gap as int;
    row_at_rest(lay, asp, win, f, j);
    reveal(full_strip);
    clips_ascend(full, gap, k);
    clips_ascend(full, gap, full.len() - 1);
    carries_on(asp, gap, full, f.rows@[j], lean, m, k);
}

/// A strip in place, of which a row keeps all or the outermost tiles, puts the
/// row in place.
proof fn kept_stands(
    lay: Layout,
    asp: Seq<Aspect>,
    win: Window,
    f: FlexGrid,
    j: int,
    row: RibbonRow,
    full: Seq<RibbonItem>,
    scroll: int,
    lean: int,
    m: int,
)
    requires
        at_rest(lay, asp, win, f),
        0 <= j < f.rows@.len(),
        full_strip(asp, win, full, f.rows@[j].h as int),
        0 <= m < full.len(),
        tile_stands(full[m], f.rows@[j], lean),
        full[0].clip == f.rows@[j].start,
        full.last().clip + 1 == f.rows@[j].end,
        row.y == f.rows@[j].y - scroll,
        row.h == f.rows@[j].h,
        row.items@ == full || row.items@ == seq![full[0], full.last()],
    ensures
        stands(row, f.rows@[j], scroll, lean),
{
    assert forall|k: int| 0 <= k < row.items@.len() implies tile_stands(
        #[trigger] row.items@[k],
        f.rows@[j],
        lean,
    ) by {
        if row.items@ == full {
            strip_stands(lay, asp, win, f, j, full, lean, m, k);
        } else if k == 0 {
            strip_stands(lay, asp, win, f, j, full, lean, m, 0);
        } else {
            strip_stands(lay, asp, win, f, j, full, lean, m, full.len() - 1);
        }
    }
}

/// How far a walked row stands to the right of its resting place: a row over
/// the held one is laid from the right edge, whatever it lacks to it at rest.
pub open spec fn lean(win: Window, rest: FlexRow, above: bool) -> int {
    if above {
        win.right() - row_right(rest)
    } else {
        0
    }
}

/// The held row shows the row it was taken in.
#[verifier::spinoff_prover]
#[verifier::rlimit(80)]
proof fn held_stands(
    lay: Layout,
    asp: Seq<Aspect>,
    win: Window,
    f: FlexGrid,
    nominal: int,
    g: RibbonGrip,
    scroll: int,
    row: RibbonRow,
)
    requires
        at_rest(lay, asp, win, f),
        just_taken(lay, f, g, scroll),
        row_ok(asp, win, row, g.row_h(nominal, 0)),
        pinned(asp, win, g, row),
    ensures
        0 <= g.grip_row < f.rows@.len(),
        stands(row, f.rows@[g.grip_row as int], scroll, 0),
{
    let gap = win.gap as int;
    let j = g.grip_row as int;
    let rest = f.rows@[j];
    reveal(at_rest);
    crate::grid::rows_partition_the_library(lay, g.clip as int, j);
    crate::grid::row_of_is_one(lay, g.clip as int, j);
    fresh_heights(g, asp.len() as int, nominal, 0);
    row_at_rest(lay, asp, win, f, j);
    row_has_its_height(asp, win, row, g.row_h(nominal, 0));
    let full = row.items@;
    let m = choose|k: int| #[trigger] pinned_at(win, g, full, k);
    assert(full[m].w == flex::width_at(asp[g.clip as int], row.h as int)) by {
        reveal(full_strip);
    }
    let c = g.clip - rest.start;
    assert(rest.w@[c] == flex::width_at(asp[rest.start + c], rest.h as int));
    assert(tile_stands(full[m], rest, 0));
    right_ends_meet(lay, asp, win, f, j, full, m);
    left_ends_meet(lay, asp, win, f, j, full, 0, m);
    kept_stands(lay, asp, win, f, j, row, full, scroll, 0, m);
}

/// The outermost tiles of a strip are in shape.
proof fn strip_edges(asp: Seq<Aspect>, win: Window, full: Seq<RibbonItem>, h: int)
    requires
        full_strip(asp, win, full, h),
    ensures
        full.len() > 0,
        full[0].clip < asp.len(),
        full[0].w == flex::width_at(asp[full[0].clip as int], h),
        full.last().clip < asp.len(),
        full.last().w == flex::width_at(asp[full.last().clip as int], h),
{
    reveal(full_strip);
    assert(full[full.len() - 1].clip < asp.len());
}

/// Under a row in place the next one is in place.
proof fn below_stands(
    lay: Layout,
    asp: Seq<Aspect>,
    win: Window,
    f: FlexGrid,
    nominal: int,
    g: RibbonGrip,
    scroll: int,
    prev: RibbonRow,
    row: RibbonRow,
    off: int,
)
    requires
        at_rest(lay, asp, win, f),
        just_taken(lay, f, g, scroll),
        0 <= g.grip_row + off < f.rows@.len(),
        stands(prev, f.rows@[g.grip_row + off], scroll, 0),
        row_ok(asp, win, row, g.row_h(nominal, off + 1)),
        follows_down(asp, win, prev, row),
    ensures
        0 <= g.grip_row + (off + 1) < f.rows@.len(),
        stands(row, f.rows@[g.grip_row + (off + 1)], scroll, 0),
{
    let gap = win.gap as int;
    let n = asp.len() as int;
    let i = g.grip_row + off;
    let j = i + 1;
    let above = f.rows@[i];
    edges_at_rest(lay, asp, win, f, i);
    let last = prev.items@[prev.items@.len() - 1];
    assert(tile_stands(last, above, 0));
    assert(last.x + last.w == row_right(above));
    assert(!win.over_right(prev.items@.last()));
    row_has_its_height(asp, win, row, g.row_h(nominal, off + 1));
    reveal(laid_down);
    let full = choose|full: Seq<RibbonItem>| #[trigger]
        full_strip(asp, win, full, row.h as int) && ends_at_right(win, full) && row.items@
            == kept_of(win, row.y as int, row.h as int, full);
    strip_edges(asp, win, full, row.h as int);
    assert(row.items@[0] == full[0]);
    let rest = f.rows@[j];
    fresh_heights(g, n, nominal, off + 1);
    edges_at_rest(lay, asp, win, f, j);
    assert(tile_stands(full[0], rest, 0));
    right_ends_meet(lay, asp, win, f, j, full, 0);
    kept_stands(lay, asp, win, f, j, row, full, scroll, 0, 0);
}

/// Over a row in place the next one is in place, but for what it lacks to the
/// right edge.
proof fn above_stands(
    lay: Layout,
    asp: Seq<Aspect>,
    win: Window,
    f: FlexGrid,
    nominal: int,
    g: RibbonGrip,
    scroll: int,
    next: RibbonRow,
    row: RibbonRow,
    off: int,
)
    requires
        at_rest(lay, asp, win, f),
        just_taken(lay, f, g, scroll),
        0 <= g.grip_row - off < f.rows@.len(),
        stands(
            next,
            f.rows@[g.grip_row - off],
            scroll,
            lean(win, f.rows@[g.grip_row - off], off > 0),
        ),
        off > 0 ==> -CROSSING <= lean(win, f.rows@[g.grip_row - off], true) <= win.gap,
        row_ok(asp, win, row, g.row_h(nominal, -(off + 1))),
        follows_up(asp, win, next, row),
    ensures
        0 <= g.grip_row - (off + 1) < f.rows@.len(),
        stands(
            row,
            f.rows@[g.grip_row - (off + 1)],
            scroll,
            lean(win, f.rows@[g.grip_row - (off + 1)], true),
        ),
        -CROSSING <= lean(win, f.rows@[g.grip_row - (off + 1)], true) <= win.gap,
{
    let gap = win.gap as int;
    let n = asp.len() as int;
    let i = g.grip_row - off;
    let j = i - 1;
    let under = f.rows@[i];
    edges_at_rest(lay, asp, win, f, i);
    assert(tile_stands(next.items@[0], under, lean(win, under, off > 0)));
    assert(!win.over_left(next.items@[0]));
    row_has_its_height(asp, win, row, g.row_h(nominal, -(off + 1)));
    reveal(laid_up);
    let full = choose|full: Seq<RibbonItem>| #[trigger]
        full_strip(asp, win, full, row.h as int) && ends_at_left(win, full) && row.items@
            == kept_of(win, row.y as int, row.h as int, full);
    let m = full.len() - 1;
    strip_edges(asp, win, full, row.h as int);
    assert(row.items@.last() == full[m]);
    assert(i > 0);
    let rest = f.rows@[j];
    let l = lean(win, rest, true);
    fresh_heights(g, n, nominal, -(off + 1));
    edges_at_rest(lay, asp, win, f, j);
    assert(tile_stands(full[m], rest, l));
    left_ends_meet(lay, asp, win, f, j, full, l, m);
    kept_stands(lay, asp, win, f, j, row, full, scroll, l, m);
}

/// The resting row that a walked row shows.
proof fn row_stands(
    lay: Layout,
    asp: Seq<Aspect>,
    win: Window,
    f: FlexGrid,
    nominal: int,
    g: RibbonGrip,
    scroll: int,
    rows: Seq<RibbonRow>,
    at: int,
    r: int,
)
    requires
        at_rest(lay, asp, win, f),
        just_taken(lay, f, g, scroll),
        walked(asp, win, nominal, g, rows, at),
        0 <= r < rows.len(),
    ensures
        0 <= g.grip_row + (r - at) < f.rows@.len(),
        stands(
            rows[r],
            f.rows@[g.grip_row + (r - at)],
            scroll,
            lean(win, f.rows@[g.grip_row + (r - at)], r < at),
        ),
        r < at ==> -CROSSING <= lean(win, f.rows@[g.grip_row + (r - at)], true) <= win.gap,
    decreases if r < at {
        at - r
    } else {
        r - at
    },
{
    assert(row_ok(asp, win, rows[r], g.row_h(nominal, r - at)));
    if r == at {
        held_stands(lay, asp, win, f, nominal, g, scroll, rows[r]);
    } else if r > at {
        row_stands(lay, asp, win, f, nominal, g, scroll, rows, at, r - 1);
        assert(follows_down(asp, win, rows[r - 1], rows[r]));
        below_stands(lay, asp, win, f, nominal, g, scroll, rows[r - 1], rows[r], r - 1 - at);
    } else {
        row_stands(lay, asp, win, f, nominal, g, scroll, rows, at, r + 1);
        assert(follows_up(asp, win, rows[r + 1], rows[r]));
        above_stands(lay, asp, win, f, nominal, g, scroll, rows[r + 1], rows[r], at - (r + 1));
    }
}

/// Taking hold moves nothing: where the rows at rest span the window, every
/// tile that a fresh grip shows stands where the layout has it, less the
/// scroll. Rows over the held one are laid from the right edge, so that what
/// such a row lacks to that edge at rest, never more than a gap, moves it.
pub proof fn taking_hold_moves_nothing(
    lay: Layout,
    asp: Seq<Aspect>,
    win: Window,
    f: FlexGrid,
    nominal: int,
    g: RibbonGrip,
    scroll: int,
    rows: Seq<RibbonRow>,
    at: int,
    r: int,
    k: int,
)
    requires
        at_rest(lay, asp, win, f),
        just_taken(lay, f, g, scroll),
        walked(asp, win, nominal, g, rows, at),
        0 <= r < rows.len(),
        0 <= k < rows[r].items@.len(),
    ensures
        ({
            let it = rows[r].items@[k];
            let t = lay.rect_of(it.clip as int);
            let short = lean(win, f.rows@[lay.row_holding(it.clip as int)], r < at);
            &&& it.clip < lay.len
            &&& it.x == t.x + short
            &&& rows[r].y == t.y - scroll
            &&& it.w == t.w
            &&& rows[r].h == t.h
            &&& -CROSSING <= short <= win.gap
        }),
{
    row_stands(lay, asp, win, f, nominal, g, scroll, rows, at, r);
    let j = g.grip_row + (r - at);
    let it = rows[r].items@[k];
    let rest = f.rows@[j];
    assert(tile_stands(it, rest, lean(win, rest, r < at)));
    reveal(at_rest);
    crate::grid::rows_partition_the_library(lay, it.clip as int, j);
    crate::grid::row_of_is_one(lay, it.clip as int, j);
}

/// The row of the clips `s..e` fills the window when it is settled: margins and
/// gaps leave room, it need not shrink below the smallest height, and, unless it
/// is the last one or keeps its slack on the left, not grow above the largest.
pub open spec fn fillable(p: Pane, asp: Seq<Aspect>, s: int, e: int) -> bool {
    let u = p.usable(e - s);
    let run = p.run(asp, s, e);
    &&& p.vw - p.gap * (e - s + 1) >= flex::PIXEL
    &&& p.fits(asp, s, e)
    &&& e == asp.len() || (s == 0 && 100 * u >= 135 * run) || p.nominal * u / run <= p.nominal
        * p.rmax / (WHOLE as int)
}

/// A packing's row that can fill the window spans it, in any window up to three
/// hundred thousand pixels wide and with a gap of half a pixel or more.
pub proof fn settled_rows_span_the_window(
    p: Pane,
    asp: Seq<Aspect>,
    win: Window,
    starts: Seq<usize>,
    grid: FlexGrid,
    j: int,
)
    requires
        p.wf(),
        flex::all_shown(asp),
        rebuilt(p, asp, starts, grid),
        win.wf(),
        same_window(win, p),
        win.vw <= 300_000 * flex::PIXEL,
        2 * win.gap >= flex::PIXEL,
        0 <= j < grid.rows@.len(),
        fillable(p, asp, grid.rows@[j].start as int, grid.rows@[j].end as int),
    ensures
        flush(win, grid.rows@, j),
        grid.rows@[j].strip(asp, win.gap as int, grid.rows@[j].x@[0] as int),
{
    rebuilt_row(p, asp, starts, grid, j);
    filled_row(p, asp, win, grid.rows@[j]);
}

/// A layout of a packing whose rows can all fill the window is one that taking
/// hold does not move.
pub proof fn a_filled_packing_is_at_rest(
    p: Pane,
    asp: Seq<Aspect>,
    win: Window,
    starts: Seq<usize>,
    lay: Layout,
    f: FlexGrid,
)
    requires
        p.wf(),
        flex::all_shown(asp),
        lay.wf(),
        lay.flex == Some(f),
        lay.len == asp.len(),
        lay.gap == win.gap,
        rebuilt(p, asp, starts, f),
        win.wf(),
        same_window(win, p),
        win.vw <= 300_000 * flex::PIXEL,
        2 * win.gap >= flex::PIXEL,
        forall|j: int|
            0 <= j < f.rows@.len() ==> fillable(
                p,
                asp,
                (#[trigger] f.rows@[j]).start as int,
                f.rows@[j].end as int,
            ),
    ensures
        at_rest(lay, asp, win, f),
{
    reveal(at_rest);
    assert forall|j: int| 0 <= j < f.rows@.len() implies (#[trigger] f.rows@[j]).strip(
        asp,
        win.gap as int,
        f.rows@[j].x@[0] as int,
    ) && flush(win, f.rows@, j) by {
        settled_rows_span_the_window(p, asp, win, starts, f, j);
    }
}

/// What is known of row `j` of a packing.
proof fn rebuilt_row(p: Pane, asp: Seq<Aspect>, starts: Seq<usize>, grid: FlexGrid, j: int)
    requires
        rebuilt(p, asp, starts, grid),
        0 <= j < grid.rows@.len(),
    ensures
        settled_row(p, asp, grid.rows@[j]),
        j > 0 ==> grid.rows@[j].start > 0,
        j + 1 < grid.rows@.len() ==> grid.rows@[j].end < asp.len(),
{
    let n = asp.len() as int;
    assert(grid.rows@[j].start < grid.rows@[j].end <= n);
    if j > 0 {
        crate::grid::rows_ascend(grid.rows@, n, p.gap as int, 0, j);
    }
    if j + 1 < grid.rows@.len() {
        assert(grid.rows@[j + 1].start < grid.rows@[j + 1].end <= n);
        assert(grid.rows@[j + 1].start == grid.rows@[j + 1 - 1].end);
    }
}

/// A row as a packing settles it.
spec fn settled_row(p: Pane, asp: Seq<Aspect>, row: FlexRow) -> bool {
    let (h, indented) = p.settled_height(asp, row.start as int, row.end as int);
    &&& row.start < row.end <= asp.len()
    &&& row.h == h
    &&& row.strip(asp, p.gap as int, flex::settled_left(p, row, indented))
}

/// A settled row that can fill the window meets both its margins.
proof fn filled_row(p: Pane, asp: Seq<Aspect>, win: Window, row: FlexRow)
    requires
        p.wf(),
        flex::all_shown(asp),
        win.wf(),
        same_window(win, p),
        win.vw <= 300_000 * flex::PIXEL,
        2 * win.gap >= flex::PIXEL,
        settled_row(p, asp, row),
        fillable(p, asp, row.start as int, row.end as int),
    ensures
        row.x@[0] >= win.left(),
        row.start > 0 ==> row.x@[0] == win.left(),
        row.x@[0] + row.w@[0] > win.left() + CROSSING,
        row.x@.last() < win.right(),
        row_right(row) <= win.right() + CROSSING,
        row.end < asp.len() ==> row_right(row) + win.gap >= win.right(),
        row.strip(asp, win.gap as int, row.x@[0] as int),
{
    let (s, e) = (row.start as int, row.end as int);
    let gap = p.gap as int;
    let c = e - s - 1;
    let h = row.h as int;
    flex::settled_height_is_ample(p, asp, s, e);
    flex::settled_row_meets_the_margin(p, asp, row);
    assert(row.w@[0] == flex::width_at(asp[row.start + 0], h));
    assert(row.w@[c] == flex::width_at(asp[row.start + c], h));
    flex::width_is_ample(asp[s], h);
    flex::width_is_ample(asp[e - 1], h);
    assert(gap * (e - s + 1) >= 2 * gap) by (nonlinear_arith)
        requires
            gap >= 0,
            e - s + 1 >= 2,
    ;
}

/// Two grids rebuilt from the same row starts have the same rows up to row `r`.
proof fn rebuilt_alike(
    p: Pane,
    asp: Seq<Aspect>,
    starts: Seq<usize>,
    a: FlexGrid,
    b: FlexGrid,
    r: int,
)
    requires
        rebuilt(p, asp, starts, a),
        rebuilt(p, asp, starts, b),
        0 <= r < a.rows@.len(),
    ensures
        a.rows@.len() == b.rows@.len(),
        a.rows@[r].start == b.rows@[r].start,
        a.rows@[r].end == b.rows@[r].end,
        a.rows@[r].y == b.rows@[r].y,
        a.rows@[r].h == b.rows@[r].h,
        a.rows@[r].x@ == b.rows@[r].x@,
        a.rows@[r].w@ == b.rows@[r].w@,
    decreases r,
{
    let s = a.rows@[r];
    let t = b.rows@[r];
    let gap = p.gap as int;
    assert(flex::spans(a.rows@).len() == flex::spans(b.rows@).len());
    assert(flex::spans(a.rows@)[r] == flex::spans(b.rows@)[r]);
    if r > 0 {
        rebuilt_alike(p, asp, starts, a, b, r - 1);
        assert(s.y == a.rows@[r - 1].y + a.rows@[r - 1].h + gap);
        assert(t.y == b.rows@[r - 1].y + b.rows@[r - 1].h + gap);
    }
    assert forall|k: int| 0 <= k < s.w@.len() implies s.w@[k] == t.w@[k] by {
        assert(s.w@[k] == flex::width_at(asp[s.start + k], s.h as int));
        assert(t.w@[k] == flex::width_at(asp[t.start + k], t.h as int));
    }
    assert(s.w@ =~= t.w@);
    assert forall|k: int| 0 <= k < s.x@.len() implies s.x@[k] == t.x@[k] by {
        strips_alike(s, t, asp, gap, s.x@[0] as int, k);
    }
    assert(s.x@ =~= t.x@);
}

proof fn strips_alike(s: FlexRow, t: FlexRow, asp: Seq<Aspect>, gap: int, left: int, k: int)
    requires
        s.strip(asp, gap, left),
        t.strip(asp, gap, left),
        s.w@ == t.w@,
        0 <= k < s.x@.len(),
    ensures
        s.x@[k] == t.x@[k],
    decreases k,
{
    if k > 0 {
        strips_alike(s, t, asp, gap, left, k - 1);
        assert(s.x@[k] == s.x@[k - 1] + s.w@[k - 1] + gap);
        assert(t.x@[k] == t.x@[k - 1] + t.w@[k - 1] + gap);
    }
}

/// The handoff moves nothing: the last frame of a settling strip shows every
/// tile where the layout of its packing has it, less the scroll, unless the
/// tile has left its row and stands out of the window; and the scroll is one
/// that the layout allows.
pub proof fn the_handoff_moves_nothing(
    p: Pane,
    asp: Seq<Aspect>,
    win: Window,
    from: Seq<RibbonRow>,
    at: int,
    kept: Seq<usize>,
    to: Seq<RibbonRow>,
    starts: Seq<usize>,
    scroll: int,
    grid: FlexGrid,
    lay: Layout,
    f: FlexGrid,
    rows: Seq<RibbonRow>,
    r: int,
    k: int,
)
    requires
        settles(p, asp, win, from, at, kept, to, starts, scroll, grid),
        0 <= at < from.len(),
        forall|i: int| 0 <= i < from.len() ==> in_shape(asp, (#[trigger] from[i]).items@, from[i].h as int),
        lay.wf(),
        lay.flex == Some(f),
        lay.len == asp.len(),
        rebuilt(p, asp, starts, f),
        rows.len() == to.len(),
        0 <= r < rows.len(),
        on_the_way(from[kept[r] as int], to[r], WHOLE as int, rows[r]),
        0 <= k < rows[r].items@.len(),
    ensures
        ({
            let it = rows[r].items@[k];
            let t = lay.rect_of(it.clip as int);
            ||| it.x + it.w <= 0
            ||| it.x >= win.vw
            ||| {
                &&& it.x == t.x
                &&& it.w == t.w
                &&& rows[r].y == t.y - scroll
                &&& rows[r].h == t.h
            }
        }),
        scroll == clamped(
            scroll,
            0,
            if lay.height() > win.vh {
                lay.height() - win.vh
            } else {
                0
            },
        ),
{
    let i = kept[r] as int;
    assert(kept.contains(kept[r]));
    let rest = grid.rows@[i];
    let was = from[i];
    let it = rows[r].items@[k];
    assert(rests(asp, win, was, rest, scroll, to[r]));
    rebuilt_alike(p, asp, starts, grid, f, i);
    rebuilt_alike(p, asp, starts, grid, f, grid.rows@.len() - 1);
    assert(it.clip == was.items@[k].clip);
    assert(to[r].items@[k].clip == was.items@[k].clip);
    glide_keeps_to_its_way(was.y as int, to[r].y as int, 0);
    glide_keeps_to_its_way(was.h as int, to[r].h as int, 0);
    glide_keeps_to_its_way(was.items@[k].x as int, to[r].items@[k].x as int, 0);
    glide_keeps_to_its_way(was.items@[k].w as int, to[r].items@[k].w as int, 0);
    if rest.start <= it.clip < rest.end {
        let c = it.clip - rest.start;
        crate::grid::rows_partition_the_library(lay, it.clip as int, i);
        crate::grid::row_of_is_one(lay, it.clip as int, i);
        assert(rest.w@[c] == flex::width_at(asp[rest.start + c], rest.h as int));
    }
}

} // verus!
