//! Questions to a layout: which row a clip stands in, where its tile is, and
//! what lies at a point.

use vstd::prelude::*;

use crate::flex;
use crate::flex::{Aspect, FlexGrid, FlexRow, Pane, HEIGHT_LIMIT, LENGTH_LIMIT, PIXEL, WHOLE};

verus! {

/// The window and the tile settings that a layout is derived from. `zoom` is
/// in millionths.
#[derive(Clone, Copy, PartialEq, Eq, Structural, Debug)]
pub struct Shape {
    pub vw: i128,
    pub gap: i128,
    pub tile_w: i128,
    pub tile_h: i128,
    pub zoom: i128,
    pub rmin: i128,
    pub rmax: i128,
}

impl Shape {
    pub open spec fn wf(self) -> bool {
        &&& 0 <= self.vw <= LENGTH_LIMIT
        &&& 0 <= self.gap <= LENGTH_LIMIT
        &&& 0 <= self.tile_w <= LENGTH_LIMIT / 100
        &&& 0 <= self.tile_h <= LENGTH_LIMIT / 100
        &&& 0 <= self.zoom <= 100 * WHOLE
    }

    /// The width that a tile would like to have.
    pub open spec fn ideal(self) -> int {
        let w = self.tile_w * self.zoom / (WHOLE as int);
        if w < 40 * PIXEL {
            40 * PIXEL
        } else {
            w
        }
    }

    /// The height of a row before it is justified.
    pub open spec fn nominal(self) -> int {
        let d = if self.tile_w < PIXEL {
            PIXEL as int
        } else {
            self.tile_w as int
        };
        let h = self.ideal() * self.tile_h / d;
        if h < 24 * PIXEL {
            24 * PIXEL
        } else {
            h
        }
    }

    /// How many tiles of the ideal width stand side by side: at least one.
    pub open spec fn columns(self) -> int {
        if self.vw < self.gap {
            1
        } else {
            let c = (self.vw - self.gap) / (self.ideal() + self.gap);
            if c < 1 {
                1
            } else {
                c
            }
        }
    }

    /// What justified rows are built for; the limits on a row's height are
    /// kept between a tenth and four times the nominal one.
    pub open spec fn pane(self) -> Pane {
        Pane {
            vw: self.vw,
            gap: self.gap,
            nominal: self.nominal() as i128,
            rmin: if self.rmin < WHOLE / 10 {
                (WHOLE / 10) as i128
            } else if self.rmin > WHOLE {
                WHOLE
            } else {
                self.rmin
            },
            rmax: if self.rmax < WHOLE {
                WHOLE
            } else if self.rmax > 4 * WHOLE {
                (4 * WHOLE) as i128
            } else {
                self.rmax
            },
        }
    }
}

proof fn shape_bounds(s: Shape)
    requires
        s.wf(),
    ensures
        0 <= s.tile_w * s.zoom <= 1_000_000_000_000_000_000,
        40 * PIXEL <= s.ideal() <= 1_000_000_000_000,
        0 <= s.ideal() * s.tile_h <= 10_000_000_000_000_000_000_000,
        24 * PIXEL <= s.nominal() <= LENGTH_LIMIT,
        1 <= s.columns() <= 25_000,
        s.pane().wf(),
{
    let t = s.tile_w as int;
    let z = s.zoom as int;
    let h = s.tile_h as int;
    assert(0 <= t * z <= 10_000_000_000 * 100_000_000) by (nonlinear_arith)
        requires
            0 <= t <= 10_000_000_000,
            0 <= z <= 100_000_000,
    ;
    assert(t * z <= t * 100_000_000) by (nonlinear_arith)
        requires
            0 <= t,
            0 <= z <= 100_000_000,
    ;
    let i = s.ideal();
    assert(i <= 100 * t || i == 40 * PIXEL);
    assert(0 <= i * h <= 1_000_000_000_000 * 10_000_000_000) by (nonlinear_arith)
        requires
            0 <= i <= 1_000_000_000_000,
            0 <= h <= 10_000_000_000,
    ;
    let d = if t < PIXEL {
        PIXEL as int
    } else {
        t
    };
    assert(i <= 100 * d);
    assert(i * h / d <= 100 * h) by (nonlinear_arith)
        requires
            0 <= i <= 100 * d,
            d > 0,
            0 <= h,
    {
        assert(i * h <= (100 * h) * d);
    }
    if s.vw >= s.gap {
        let a = s.vw - s.gap;
        let b = i + s.gap;
        assert(0 <= a / b <= 25_000) by (nonlinear_arith)
            requires
                0 <= a <= 1_000_000_000_000,
                b >= 40_000_000,
        ;
    }
}

/// The grid's metrics at one zoom: the uniform cells, and the justified rows
/// where the grid is flexible.
pub struct Layout {
    pub cols: usize,
    pub tile_w: i128,
    pub tile_h: i128,
    pub cell_w: i128,
    pub cell_h: i128,
    pub gap: i128,
    /// How many clips are laid out.
    pub len: usize,
    pub flex: Option<FlexGrid>,
}

impl Layout {
    pub open spec fn wf(self) -> bool {
        &&& 1 <= self.cols <= 25_000
        &&& 0 < self.tile_w <= LENGTH_LIMIT
        &&& 0 <= self.tile_h <= HEIGHT_LIMIT
        &&& 0 <= self.gap <= LENGTH_LIMIT
        &&& self.cell_w == self.tile_w + self.gap
        &&& self.cell_h == self.tile_h + self.gap
        &&& self.flex matches Some(f) ==> f.wf(self.len as int, self.gap as int)
            && forall|r: int|
            #![trigger f.rows@[r]]
            0 <= r < f.rows@.len() ==> {
                &&& f.rows@[r].x@.len() == f.rows@[r].end - f.rows@[r].start
                &&& f.rows@[r].w@.len() == f.rows@[r].end - f.rows@[r].start
            }
    }

    /// How many rows there are.
    pub open spec fn row_count(self) -> int {
        match self.flex {
            Some(f) => f.rows@.len() as int,
            None => (self.len + self.cols - 1) / (self.cols as int),
        }
    }

    /// The first clip of a row, for a row that exists, and one past its last.
    pub open spec fn span(self, row: int) -> (int, int) {
        match self.flex {
            Some(f) => if 0 <= row < f.rows@.len() {
                (f.rows@[row].start as int, f.rows@[row].end as int)
            } else {
                (0, 0)
            },
            None => {
                let s = row * self.cols;
                let s = if s > self.len {
                    self.len as int
                } else {
                    s
                };
                let e = s + self.cols;
                (
                    s,
                    if e > self.len {
                        self.len as int
                    } else {
                        e
                    },
                )
            },
        }
    }

    /// The row that a clip stands in: the last one that starts at it or
    /// before it.
    pub open spec fn is_row_of(self, i: int, row: int) -> bool {
        match self.flex {
            Some(f) => {
                ||| f.rows@.len() == 0 && row == 0
                ||| {
                    &&& 0 <= row < f.rows@.len()
                    &&& f.rows@[row].start <= i
                    &&& forall|r: int|
                        row < r < f.rows@.len() ==> (#[trigger] f.rows@[r]).start > i
                }
            },
            None => row == i / (self.cols as int),
        }
    }
}

/// Later rows start at later clips.
pub proof fn rows_ascend(rows: Seq<FlexRow>, n: int, gap: int, a: int, b: int)
    requires
        flex::stacked(rows, n, gap),
        0 <= a < b < rows.len(),
    ensures
        rows[a].end <= rows[b].start,
        rows[a].start < rows[b].start,
        gap >= 0 ==> rows[a].y + rows[a].h + gap <= rows[b].y,
    decreases b - a,
{
    if b == a + 1 {
        assert(rows[b].start == rows[b - 1].end);
    } else {
        rows_ascend(rows, n, gap, a, b - 1);
        assert(rows[b].start == rows[b - 1].end);
        assert(rows[b - 1].start < rows[b - 1].end);
    }
}

/// No row lies above an earlier one.
proof fn tops_ascend(rows: Seq<FlexRow>, n: int, gap: int)
    requires
        flex::stacked(rows, n, gap),
        gap >= 0,
    ensures
        forall|a: int, b: int|
            0 <= a <= b < rows.len() ==> (#[trigger] rows[a]).y <= (#[trigger] rows[b]).y,
{
    assert forall|a: int, b: int| 0 <= a <= b < rows.len() implies (#[trigger] rows[a]).y <= (
    #[trigger] rows[b]).y by {
        if a < b {
            rows_ascend(rows, n, gap, a, b);
        }
    }
}

impl Layout {
    /// How many rows there are.
    pub fn rows(&self) -> (r: usize)
        requires
            self.wf(),
            self.len <= usize::MAX - 25_000,
        ensures
            r == self.row_count(),
    {
        match &self.flex {
            Some(f) => f.rows.len(),
            None => (self.len + (self.cols - 1)) / self.cols,
        }
    }

    /// The row that clip `i` stands in.
    pub fn row_of(&self, i: usize) -> (r: usize)
        requires
            self.wf(),
        ensures
            self.is_row_of(i as int, r as int),
    {
        match &self.flex {
            Some(f) => {
                let n: usize = f.rows.len();
                let mut lo: usize = 0;
                let mut hi: usize = n;
                while lo < hi
                    invariant
                        n == f.rows@.len(),
                        flex::stacked(f.rows@, self.len as int, self.gap as int),
                        0 <= lo <= hi <= n,
                        forall|r: int| 0 <= r < lo ==> (#[trigger] f.rows@[r]).start <= i,
                        forall|r: int| hi <= r < n ==> (#[trigger] f.rows@[r]).start > i,
                    decreases hi - lo,
                {
                    let mid: usize = lo + (hi - lo) / 2;
                    if f.rows[mid].start <= i {
                        proof {
                            assert forall|r: int| 0 <= r < mid + 1 implies (
                            #[trigger] f.rows@[r]).start <= i by {
                                if r < mid {
                                    rows_ascend(
                                        f.rows@,
                                        self.len as int,
                                        self.gap as int,
                                        r,
                                        mid as int,
                                    );
                                }
                            }
                        }
                        lo = mid + 1;
                    } else {
                        proof {
                            assert forall|r: int| mid <= r < n implies (
                            #[trigger] f.rows@[r]).start > i by {
                                if r > mid {
                                    rows_ascend(
                                        f.rows@,
                                        self.len as int,
                                        self.gap as int,
                                        mid as int,
                                        r,
                                    );
                                }
                            }
                        }
                        hi = mid;
                    }
                }
                if lo == 0 {
                    assert(n > 0 ==> f.rows@[0].start == 0);
                    0
                } else {
                    lo - 1
                }
            },
            None => i / self.cols,
        }
    }

    /// The clips of a row: the first, and one past the last. A row that does
    /// not exist has none.
    pub fn row_range(&self, row: usize) -> (r: (usize, usize))
        requires
            self.wf(),
            self.flex is None ==> row * self.cols <= usize::MAX && self.len <= usize::MAX - 25_000,
        ensures
            (r.0 as int, r.1 as int) == self.span(row as int),
            r.0 <= r.1 <= self.len,
    {
        match &self.flex {
            Some(f) => if row < f.rows.len() {
                (f.rows[row].start, f.rows[row].end)
            } else {
                (0, 0)
            },
            None => {
                let p: usize = row * self.cols;
                let s: usize = if p > self.len {
                    self.len
                } else {
                    p
                };
                let e: usize = s + self.cols;
                (
                    s,
                    if e > self.len {
                        self.len
                    } else {
                        e
                    },
                )
            },
        }
    }
}

/// Every clip stands in exactly one row, and that row's range holds it.
pub proof fn rows_partition_the_library(l: Layout, i: int, row: int)
    requires
        l.wf(),
        0 <= i < l.len,
        0 <= row,
    ensures
        l.is_row_of(i, row) <==> l.span(row).0 <= i < l.span(row).1,
        l.is_row_of(i, row) ==> row < l.row_count(),
{
    match l.flex {
        Some(f) => {
            let rows = f.rows@;
            if 0 <= row < rows.len() {
                if l.is_row_of(i, row) && row + 1 < rows.len() {
                    assert(rows[row + 1].start == rows[row + 1 - 1].end);
                }
                if rows[row].start <= i < rows[row].end {
                    assert forall|r: int| row < r < rows.len() implies (
                    #[trigger] rows[r]).start > i by {
                        rows_ascend(rows, l.len as int, l.gap as int, row, r);
                    }
                }
            }
        },
        None => {
            let c = l.cols as int;
            vstd::arithmetic::div_mod::lemma_fundamental_div_mod(i, c);
            let q = i / c;
            assert(row == q <==> row * c <= i < row * c + c) by (nonlinear_arith)
                requires
                    c > 0,
                    c * q + i % c == i,
                    0 <= i % c < c,
            ;
            assert(q < (l.len + c - 1) / c) by (nonlinear_arith)
                requires
                    c > 0,
                    0 <= i < l.len,
                    c * q + i % c == i,
                    0 <= i % c < c,
            ;
        },
    }
}


/// A tile's place: left and top edge, width and height.
#[derive(Clone, Copy, PartialEq, Eq, Structural, Debug)]
pub struct Rect {
    pub x: i128,
    pub y: i128,
    pub w: i128,
    pub h: i128,
}

impl Rect {
    /// The point lies on the rectangle, its edges included.
    pub open spec fn holds(self, x: int, y: int) -> bool {
        self.x <= x <= self.x + self.w && self.y <= y <= self.y + self.h
    }

    /// Whether the point lies on the rectangle, its edges included.
    pub fn has(&self, x: i128, y: i128) -> (r: bool)
        requires
            -COORD_LIMIT <= self.x <= COORD_LIMIT,
            -COORD_LIMIT <= self.y <= COORD_LIMIT,
            -COORD_LIMIT <= self.w <= COORD_LIMIT,
            -COORD_LIMIT <= self.h <= COORD_LIMIT,
        ensures
            r == self.holds(x as int, y as int),
    {
        self.x <= x && x <= self.x + self.w && self.y <= y && y <= self.y + self.h
    }
}

impl Layout {
    /// The place of clip `i`'s tile in the content.
    pub open spec fn rect_of(self, i: int) -> Rect {
        match self.flex {
            Some(f) => {
                let row = choose|r: int| self.is_row_of(i, r);
                if f.rows@.len() == 0 {
                    Rect { x: self.gap, y: self.gap, w: self.tile_w, h: self.tile_h }
                } else {
                    let r = f.rows@[row];
                    if i >= r.end {
                        Rect { x: self.gap, y: r.y, w: self.tile_w, h: r.h }
                    } else {
                        Rect { x: r.x@[i - r.start], y: r.y, w: r.w@[i - r.start], h: r.h }
                    }
                }
            },
            None => Rect {
                x: (self.gap + (i % (self.cols as int)) * self.cell_w) as i128,
                y: (self.gap + (i / (self.cols as int)) * self.cell_h) as i128,
                w: self.tile_w,
                h: self.tile_h,
            },
        }
    }

    /// The place of clip `i`'s tile in the content. A clip past the library's
    /// end has the uniform tile's size at its row's start.
    pub fn tile_rect(&self, i: usize) -> (r: Rect)
        requires
            self.wf(),
        ensures
            r == self.rect_of(i as int),
    {
        match &self.flex {
            Some(f) => {
                if f.rows.len() == 0 {
                    return Rect { x: self.gap, y: self.gap, w: self.tile_w, h: self.tile_h };
                }
                let row: usize = self.row_of(i);
                proof {
                    row_of_is_one(*self, i as int, row as int);
                }
                let r = &f.rows[row];
                if i >= r.end {
                    Rect { x: self.gap, y: r.y, w: self.tile_w, h: r.h }
                } else {
                    Rect { x: r.x[i - r.start], y: r.y, w: r.w[i - r.start], h: r.h }
                }
            },
            None => {
                let col: usize = i % self.cols;
                let row: usize = i / self.cols;
                proof {
                    cell_fits(col as int, self.cell_w as int);
                    cell_fits(row as int, self.cell_h as int);
                }
                Rect {
                    x: self.gap + (col as i128) * self.cell_w,
                    y: self.gap + (row as i128) * self.cell_h,
                    w: self.tile_w,
                    h: self.tile_h,
                }
            },
        }
    }
}

proof fn cell_fits(k: int, c: int)
    requires
        0 <= k <= usize::MAX,
        0 <= c <= 2 * HEIGHT_LIMIT,
    ensures
        0 <= k * c <= 400_000_000_000_000_000_000_000_000_000_000_000,
{
    assert(usize::MAX <= 18_446_744_073_709_551_615);
    assert(0 <= k * c <= 18_446_744_073_709_551_615 * 20_000_000_000_000_000) by (nonlinear_arith)
        requires
            0 <= k <= 18_446_744_073_709_551_615,
            0 <= c <= 20_000_000_000_000_000,
    ;
}

/// A clip stands in one row only.
pub proof fn row_of_is_one(l: Layout, i: int, row: int)
    requires
        l.wf(),
        l.is_row_of(i, row),
    ensures
        row == (choose|r: int| l.is_row_of(i, r)),
{
    let r = choose|r: int| l.is_row_of(i, r);
    match l.flex {
        Some(f) => {
            if f.rows@.len() > 0 && r != row {
                if r < row {
                    assert(f.rows@[row].start > i);
                } else {
                    assert(f.rows@[r].start > i);
                }
            }
        },
        None => {},
    }
}

impl Layout {
    /// The row whose band holds the content's height `y`: the last row that
    /// starts at it or above it, the first where none does. Below the content
    /// it is the last row.
    pub open spec fn is_row_at(self, y: int, row: int) -> bool {
        match self.flex {
            Some(f) => {
                &&& 0 <= row
                &&& row > 0 ==> row < f.rows@.len() && f.rows@[row].y <= y
                &&& forall|r: int| row < r < f.rows@.len() ==> (#[trigger] f.rows@[r]).y > y
            },
            None => {
                let at = if y < self.gap {
                    0
                } else {
                    (y - self.gap) / (self.cell_h as int)
                };
                let last = if self.row_count() == 0 {
                    0
                } else {
                    self.row_count() - 1
                };
                row == (if at < last {
                    at
                } else {
                    last
                })
            },
        }
    }

    /// The row whose band holds the content's height `y`.
    pub fn row_at_y(&self, y: i128) -> (row: usize)
        requires
            self.wf(),
            self.flex is None ==> self.cell_h > 0 && self.len <= usize::MAX - 25_000,
        ensures
            self.is_row_at(y as int, row as int),
            self.row_count() > 0 ==> row < self.row_count(),
    {
        match &self.flex {
            Some(f) => {
                proof {
                    tops_ascend(f.rows@, self.len as int, self.gap as int);
                }
                let n: usize = f.rows.len();
                let mut lo: usize = 0;
                let mut hi: usize = n;
                while lo < hi
                    invariant
                        n == f.rows@.len(),
                        forall|a: int, b: int|
                            0 <= a <= b < n ==> (#[trigger] f.rows@[a]).y <= (
                            #[trigger] f.rows@[b]).y,
                        0 <= lo <= hi <= n,
                        forall|r: int| 0 <= r < lo ==> (#[trigger] f.rows@[r]).y <= y,
                        forall|r: int| hi <= r < n ==> (#[trigger] f.rows@[r]).y > y,
                    decreases hi - lo,
                {
                    let mid: usize = lo + (hi - lo) / 2;
                    if f.rows[mid].y <= y {
                        lo = mid + 1;
                    } else {
                        hi = mid;
                    }
                }
                if lo == 0 {
                    0
                } else {
                    lo - 1
                }
            },
            None => {
                let rows: usize = self.rows();
                let last: usize = if rows == 0 {
                    0
                } else {
                    rows - 1
                };
                proof {
                    let a = y - self.gap;
                    let c = self.cell_h as int;
                    assert(a >= 0 ==> 0 <= a / c <= a) by (nonlinear_arith)
                        requires
                            c > 0,
                    ;
                    rows_are_counted(*self);
                }
                if y < self.gap {
                    0
                } else {
                    let at: i128 = (y - self.gap) / self.cell_h;
                    if at < last as i128 {
                        at as usize
                    } else {
                        last
                    }
                }
            },
        }
    }

    /// How far the tile of clip `i` has its centre from `cx`, doubled.
    pub open spec fn off_centre(self, i: int, cx: int) -> int {
        let d = 2 * self.rect_of(i).x + self.rect_of(i).w - 2 * cx;
        if d < 0 {
            -d
        } else {
            d
        }
    }

    /// All tiles lie where sums of their edges stay within range.
    pub open spec fn within_range(self) -> bool {
        self.flex matches Some(f) ==> forall|r: int, k: int|
            #![trigger f.rows@[r].x@[k]]
            0 <= r < f.rows@.len() && 0 <= k < f.rows@[r].x@.len() ==> {
                &&& -COORD_LIMIT <= f.rows@[r].x@[k] <= COORD_LIMIT
                &&& 0 <= f.rows@[r].w@[k] <= HEIGHT_LIMIT
                &&& -COORD_LIMIT <= f.rows@[r].y <= COORD_LIMIT
                &&& f.rows@[r].h <= 4 * LENGTH_LIMIT
            }
    }
}

/// The largest coordinate that is looked up.
pub const COORD_LIMIT: i128 = 1_000_000_000_000_000_000_000_000_000_000_000_000;

/// A tile lies within the range that is looked up.
pub proof fn rect_in_range(l: Layout, i: int)
    requires
        l.wf(),
        l.within_range(),
        0 <= i < l.len,
    ensures
        -COORD_LIMIT <= l.rect_of(i).x <= COORD_LIMIT,
        0 <= l.rect_of(i).w <= HEIGHT_LIMIT,
        -COORD_LIMIT <= l.rect_of(i).y <= COORD_LIMIT,
        0 <= l.rect_of(i).h <= HEIGHT_LIMIT,
{
    match l.flex {
        Some(f) => {
            let rows = f.rows@;
            assert(rows.len() > 0);
            row_exists(l, i);
            let row = choose|r: int| l.is_row_of(i, r);
            rows_partition_the_library(l, i, row);
            let k = i - rows[row].start;
            assert(-COORD_LIMIT <= rows[row].x@[k] <= COORD_LIMIT);
        },
        None => {
            let c = l.cols as int;
            assert(0 <= i % c < c && 0 <= i / c <= i) by (nonlinear_arith)
                requires
                    c > 0,
                    0 <= i,
            ;
            cell_fits(i % c, l.cell_w as int);
            cell_fits(i / c, l.cell_h as int);
        },
    }
}

/// Every clip of the library stands in some row.
pub proof fn row_exists(l: Layout, i: int)
    requires
        l.wf(),
        0 <= i < l.len,
    ensures
        exists|r: int| l.is_row_of(i, r),
{
    match l.flex {
        Some(f) => {
            row_search(l, f, i, f.rows@.len() - 1);
        },
        None => {
            assert(l.is_row_of(i, i / (l.cols as int)));
        },
    }
}

proof fn row_search(l: Layout, f: FlexGrid, i: int, top: int)
    requires
        l.wf(),
        l.flex == Some(f),
        0 <= i < l.len,
        0 <= top < f.rows@.len(),
        forall|r: int| top < r < f.rows@.len() ==> (#[trigger] f.rows@[r]).start > i,
    ensures
        exists|r: int| l.is_row_of(i, r),
    decreases top,
{
    if f.rows@[top].start <= i {
        assert(l.is_row_of(i, top));
    } else {
        row_search(l, f, i, top - 1);
    }
}

impl Layout {
    /// The clip of `first..end` whose tile has its centre nearest to `cx`, the
    /// first of several; none where there is no clip.
    pub open spec fn nearest_of(self, first: int, end: int, cx: int) -> Option<usize>
        decreases end - first,
    {
        if end <= first {
            None
        } else {
            let i = (end - 1) as usize;
            match self.nearest_of(first, end - 1, cx) {
                Some(b) => if self.off_centre(i as int, cx) < self.off_centre(b as int, cx) {
                    Some(i)
                } else {
                    Some(b)
                },
                None => Some(i),
            }
        }
    }

    /// The clip of `row` whose tile has its centre nearest to `cx`.
    pub open spec fn nearest(self, row: int, cx: int) -> Option<usize> {
        self.nearest_of(self.span(row).0, self.span(row).1, cx)
    }

    /// The clip of `row` whose tile has its centre nearest to `cx`, the
    /// leftmost of several; none in a row without clips.
    pub fn nearest_in_row(&self, row: usize, cx: i128) -> (r: Option<usize>)
        requires
            self.wf(),
            self.within_range(),
            self.flex is None ==> row * self.cols <= usize::MAX && self.len <= usize::MAX - 25_000,
            -2 * COORD_LIMIT <= cx <= 2 * COORD_LIMIT,
        ensures
            r == self.nearest(row as int, cx as int),
            r matches Some(i) ==> i < self.len,
    {
        let (first, end) = self.row_range(row);
        let mut best: Option<usize> = None;
        let mut best_d: i128 = 0;
        let mut i: usize = first;
        while i < end
            invariant
                self.wf(),
                self.within_range(),
                -2 * COORD_LIMIT <= cx <= 2 * COORD_LIMIT,
                first <= i <= end <= self.len,
                best == self.nearest_of(first as int, i as int, cx as int),
                best matches Some(b) ==> b < i && best_d == self.off_centre(b as int, cx as int),
            decreases end - i,
        {
            proof {
                rect_in_range(*self, i as int);
            }
            let r = self.tile_rect(i);
            let e: i128 = 2 * r.x + r.w - 2 * cx;
            let d: i128 = if e < 0 {
                -e
            } else {
                e
            };
            if best.is_none() || d < best_d {
                best = Some(i);
                best_d = d;
            }
            i += 1;
        }
        best
    }

    /// The first clip of `first..end` whose tile holds the point.
    pub open spec fn holder_of(self, first: int, end: int, x: int, y: int) -> Option<usize>
        decreases end - first,
    {
        if first >= end {
            None
        } else if self.rect_of(first).holds(x, y) {
            Some(first as usize)
        } else {
            self.holder_of(first + 1, end, x, y)
        }
    }

    /// The clip whose tile holds the point of the content: the first such clip
    /// of the row at that height.
    pub open spec fn hit(self, x: int, y: int) -> Option<usize> {
        let row = choose|row: int| self.is_row_at(y, row);
        if y < 0 {
            None
        } else {
            self.holder_of(self.span(row).0, self.span(row).1, x, y)
        }
    }

    /// The clip whose tile holds the point (`x`, `y`) of the content, if any.
    pub fn tile_at(&self, x: i128, y: i128) -> (r: Option<usize>)
        requires
            self.wf(),
            self.within_range(),
            self.len <= usize::MAX - 25_000,
            self.flex is None ==> self.cell_h > 0,
        ensures
            r == self.hit(x as int, y as int),
            r matches Some(i) ==> i < self.len && self.rect_of(i as int).holds(x as int, y as int),
    {
        if y < 0 {
            return None;
        }
        let row: usize = self.row_at_y(y);
        proof {
            row_at_is_one(*self, y as int, row as int);
            if self.flex is None {
                rows_are_counted(*self);
                let c = self.cols as int;
                let n = self.len as int;
                assert(row * c <= n) by (nonlinear_arith)
                    requires
                        row == 0 || row < (n + c - 1) / c,
                        1 <= c,
                        0 <= n,
                        0 <= row,
                ;
            }
        }
        let (first, end) = self.row_range(row);
        let mut i: usize = first;
        while i < end
            invariant
                self.wf(),
                self.within_range(),
                first <= i <= end <= self.len,
                self.holder_of(first as int, end as int, x as int, y as int) == self.holder_of(
                    i as int,
                    end as int,
                    x as int,
                    y as int,
                ),
                self.hit(x as int, y as int) == self.holder_of(
                    first as int,
                    end as int,
                    x as int,
                    y as int,
                ),
            decreases end - i,
        {
            proof {
                rect_in_range(*self, i as int);
            }
            let r = self.tile_rect(i);
            if r.has(x, y) {
                return Some(i);
            }
            i += 1;
        }
        None
    }

    /// The tiles stand side by side, each with some extent: those of `asp`'s shapes
    /// where the grid is flexible.
    pub open spec fn spread(self, asp: Seq<Aspect>) -> bool {
        match self.flex {
            Some(f) => self.len == asp.len() && flex::spread(f.rows@, asp, self.gap as int),
            None => self.tile_w >= 2 && self.cell_h > 0,
        }
    }

    /// The middle of clip `i`'s tile in the window, the content being scrolled
    /// by `scroll`.
    pub fn tile_middle(&self, i: usize, scroll: i128) -> (r: (i128, i128))
        requires
            self.wf(),
            self.within_range(),
            i < self.len,
            -COORD_LIMIT <= scroll <= COORD_LIMIT,
        ensures
            r.0 == self.rect_of(i as int).x + self.rect_of(i as int).w / 2,
            r.1 == self.rect_of(i as int).y + self.rect_of(i as int).h / 2 - scroll,
    {
        proof {
            rect_in_range(*self, i as int);
        }
        let t = self.tile_rect(i);
        (t.x + t.w / 2, t.y + t.h / 2 - scroll)
    }

    /// The height of the content.
    pub open spec fn height(self) -> int {
        match self.flex {
            Some(f) => f.height as int,
            None => self.gap + self.row_count() * self.cell_h,
        }
    }

    /// The height of the content, with its trailing gap.
    pub fn content_height(&self) -> (h: i128)
        requires
            self.wf(),
            self.len <= usize::MAX - 25_000,
        ensures
            h == self.height(),
    {
        match &self.flex {
            Some(f) => f.height,
            None => {
                let rows: usize = self.rows();
                proof {
                    cell_fits(rows as int, self.cell_h as int);
                }
                self.gap + (rows as i128) * self.cell_h
            },
        }
    }

    /// How far the content can be scrolled in a window of height `vh`.
    pub fn max_scroll(&self, vh: i128) -> (m: i128)
        requires
            self.wf(),
            self.len <= usize::MAX - 25_000,
            0 <= vh <= LENGTH_LIMIT,
            0 <= self.height(),
        ensures
            m == (if self.height() > vh {
                self.height() - vh
            } else {
                0
            }),
    {
        let h: i128 = self.content_height();
        if h > vh {
            h - vh
        } else {
            0
        }
    }
}

/// The rows on screen, `first` to `last` being those at its edges, widened by
/// `margin` rows and kept within the `n` rows there are.
pub open spec fn widened(first: int, last: int, margin: int, n: int) -> (int, int) {
    if n == 0 {
        (0, 0)
    } else {
        (
            if first < margin {
                0
            } else {
                first - margin
            },
            if last + margin + 1 < n - 1 {
                last + margin + 1
            } else {
                n - 1
            },
        )
    }
}

/// The rows on screen, widened by `margin` rows.
pub fn visible_rows(first: usize, last: usize, margin: usize, n: usize) -> (r: (usize, usize))
    requires
        last + margin + 1 <= usize::MAX,
    ensures
        (r.0 as int, r.1 as int) == widened(first as int, last as int, margin as int, n as int),
{
    if n == 0 {
        return (0, 0);
    }
    let a: usize = if first < margin {
        0
    } else {
        first - margin
    };
    let b: usize = last + margin + 1;
    (
        a,
        if b < n - 1 {
            b
        } else {
            n - 1
        },
    )
}

/// A uniform grid has no row without clips.
proof fn rows_are_counted(l: Layout)
    requires
        l.wf(),
        l.flex is None,
    ensures
        0 <= l.row_count() <= l.len,
        l.row_count() == 0 <==> l.len == 0,
{
    let c = l.cols as int;
    let n = l.len as int;
    assert(0 <= (n + c - 1) / c <= n && ((n + c - 1) / c == 0 <==> n == 0)) by (nonlinear_arith)
        requires
            1 <= c,
            0 <= n,
    ;
}

/// One row only is at a height.
pub proof fn row_at_is_one(l: Layout, y: int, row: int)
    requires
        l.wf(),
        l.is_row_at(y, row),
        l.flex matches Some(f) ==> f.rows@.len() > 0 ==> row < f.rows@.len(),
    ensures
        l.span(row) == l.span(choose|r: int| l.is_row_at(y, r)),
{
    let r = choose|r: int| l.is_row_at(y, r);
    match l.flex {
        Some(f) => {
            if r != row {
                if r < row {
                    assert(f.rows@[row].y > y);
                } else {
                    assert(r > 0);
                    assert(f.rows@[r].y > y);
                }
            }
        },
        None => {},
    }
}

proof fn holder_is_the_first(l: Layout, first: int, end: int, i: int, x: int, y: int)
    requires
        0 <= first <= i < end <= usize::MAX,
        l.rect_of(i).holds(x, y),
        forall|j: int| first <= j < i ==> !(#[trigger] l.rect_of(j)).holds(x, y),
    ensures
        l.holder_of(first, end, x, y) == Some(i as usize),
    decreases i - first,
{
    if first < i {
        assert(!l.rect_of(first).holds(x, y));
        holder_is_the_first(l, first + 1, end, i, x, y);
    }
}

#[verifier::spinoff_prover]
#[verifier::rlimit(60)]
proof fn a_flexible_tile_is_hit(l: Layout, asp: Seq<Aspect>, f: FlexGrid, i: int)
    requires
        l.wf(),
        l.flex == Some(f),
        flex::all_shown(asp),
        l.spread(asp),
        0 <= i < l.len,
    ensures
        l.hit(
            l.rect_of(i).x + l.rect_of(i).w / 2,
            l.rect_of(i).y + l.rect_of(i).h / 2,
        ) == Some(i as usize),
{
    let rows = f.rows@;
    let (n, gap) = (l.len as int, l.gap as int);
    row_exists(l, i);
    let row = choose|r: int| l.is_row_of(i, r);
    rows_partition_the_library(l, i, row);
    let it = rows[row];
    let k = i - it.start;
    let t = l.rect_of(i);
    let (x, y) = (t.x + t.w / 2, t.y + t.h / 2);
    assert(it.h >= 4 && it.strip(asp, gap, it.x@[0] as int)) by {
        reveal(flex::spread);
    }
    assert(it.w@[k] == flex::width_at(asp[it.start + k], it.h as int));
    flex::width_is_ample(asp[i], it.h as int);
    rows_not_above(rows, n, gap, row);
    assert(l.is_row_at(y, row)) by {
        assert forall|r: int| row < r < rows.len() implies (#[trigger] rows[r]).y > y by {
            rows_ascend(rows, n, gap, row, r);
        }
    }
    row_at_is_one(l, y, row);
    assert forall|j: int| it.start <= j < i implies !(#[trigger] l.rect_of(j)).holds(x, y) by {
        rows_partition_the_library(l, j, row);
        row_of_is_one(l, j, row);
        flex::strip_ascends(asp, it, gap, j - it.start, k);
    }
    holder_is_the_first(l, it.start as int, it.end as int, i, x, y);
}

proof fn a_uniform_tile_is_hit(l: Layout, i: int)
    requires
        l.wf(),
        l.flex is None,
        l.tile_w >= 2,
        l.cell_h > 0,
        0 <= i < l.len,
    ensures
        l.hit(
            l.rect_of(i).x + l.rect_of(i).w / 2,
            l.rect_of(i).y + l.rect_of(i).h / 2,
        ) == Some(i as usize),
{
    let c = l.cols as int;
    let (cw, ch) = (l.cell_w as int, l.cell_h as int);
    let row = i / c;
    let (m, first) = (i % c, row * c);
    assert(0 <= m < c && 0 <= row <= i && first + m == i) by (nonlinear_arith)
        requires
            c > 0,
            0 <= i,
            row == i / c,
            m == i % c,
            first == row * c,
    ;
    rows_partition_the_library(l, i, row);
    cell_fits(m, cw);
    cell_fits(row, ch);
    let t = l.rect_of(i);
    let (x, y) = (t.x + t.w / 2, t.y + t.h / 2);
    let half = l.tile_h / 2;
    assert((row * ch + half) / ch == row) by (nonlinear_arith)
        requires
            0 <= half < ch,
    ;
    assert(l.is_row_at(y, row));
    row_at_is_one(l, y, row);
    assert forall|j: int| first <= j < i implies !(#[trigger] l.rect_of(j)).holds(x, y) by {
        let d = j - first;
        assert(j % c == d && j / c == row) by (nonlinear_arith)
            requires
                j == row * c + d,
                0 <= d < c,
        ;
        cell_fits(d, cw);
        assert(d * cw + cw <= m * cw) by (nonlinear_arith)
            requires
                d + 1 <= m,
                cw >= 0,
        ;
    }
    holder_is_the_first(l, first, l.span(row).1, i, x, y);
}

/// Every tile is hit at its middle.
pub proof fn a_tile_is_hit_at_its_middle(l: Layout, asp: Seq<Aspect>, i: int)
    requires
        l.wf(),
        flex::all_shown(asp),
        l.spread(asp),
        0 <= i < l.len,
    ensures
        l.hit(
            l.rect_of(i).x + l.rect_of(i).w / 2,
            l.rect_of(i).y + l.rect_of(i).h / 2,
        ) == Some(i as usize),
{
    match l.flex {
        Some(f) => {
            a_flexible_tile_is_hit(l, asp, f, i);
        },
        None => {
            a_uniform_tile_is_hit(l, i);
        },
    }
}

/// The tile that is found nearest is nearest: no tile of the row is nearer,
/// and those left of it are further away.
pub proof fn nearest_is_nearest(l: Layout, first: int, end: int, cx: int)
    requires
        0 <= first <= end <= usize::MAX,
    ensures
        l.nearest_of(first, end, cx) is None <==> first == end,
        l.nearest_of(first, end, cx) matches Some(b) ==> {
            &&& first <= b < end
            &&& forall|j: int|
                first <= j < end ==> l.off_centre(b as int, cx) <= #[trigger] l.off_centre(j, cx)
            &&& forall|j: int|
                first <= j < b ==> l.off_centre(b as int, cx) < #[trigger] l.off_centre(j, cx)
        },
    decreases end - first,
{
    if first < end {
        nearest_is_nearest(l, first, end - 1, cx);
    }
}

/// How many rows `r` is away from `center`.
pub open spec fn rows_away(r: usize, center: usize) -> int {
    if r < center {
        center - r
    } else {
        r - center
    }
}

/// Row `a` comes before row `b` outward from `center`: it is nearer, or as
/// near and above.
pub open spec fn comes_first(a: usize, b: usize, center: usize) -> bool {
    rows_away(a, center) < rows_away(b, center) || (rows_away(a, center) == rows_away(b, center)
        && a < b)
}

/// These are the rows `first` to `last`, from `center` outward.
pub open spec fn center_out(v: Seq<usize>, first: usize, last: usize, center: usize) -> bool {
    &&& forall|r: usize| #[trigger] v.contains(r) <==> first <= r <= last
    &&& forall|i: int, j: int|
        0 <= i < j < v.len() ==> comes_first(#[trigger] v[i], #[trigger] v[j], center)
}

/// The clips of the first `n` of the given rows, in their order.
pub open spec fn places_of(lay: Layout, rows: Seq<usize>, n: int) -> Seq<usize>
    decreases n,
{
    if n <= 0 {
        Seq::empty()
    } else {
        let (a, b) = lay.span(rows[n - 1] as int);
        places_of(lay, rows, n - 1) + Seq::new((b - a) as nat, |k: int| (a + k) as usize)
    }
}

/// The clips of the given rows, row after row.
pub fn zone_places(lay: &Layout, rows: &Vec<usize>) -> (v: Vec<usize>)
    requires
        lay.wf(),
        lay.len <= crate::state::MAX_CLIPS,
        forall|k: int| 0 <= k < rows@.len() ==> (#[trigger] rows@[k]) == 0 || rows@[k] < lay.row_count(),
    ensures
        v@ == places_of(*lay, rows@, rows@.len() as int),
{
    let mut v: Vec<usize> = Vec::new();
    let mut r: usize = 0;
    while r < rows.len()
        invariant
            r <= rows@.len(),
            lay.wf(),
            lay.len <= crate::state::MAX_CLIPS,
            forall|k: int|
                0 <= k < rows@.len() ==> (#[trigger] rows@[k]) == 0 || rows@[k] < lay.row_count(),
            v@ == places_of(*lay, rows@, r as int),
        decreases rows@.len() - r,
    {
        let row: usize = rows[r];
        proof {
            if lay.flex is None {
                let c = lay.cols as int;
                let n = lay.len as int;
                assert(row == 0 || row < (n + c - 1) / c);
                assert(row * c <= n) by (nonlinear_arith)
                    requires
                        row == 0 || row < (n + c - 1) / c,
                        1 <= c,
                        0 <= n,
                        0 <= row,
                ;
            }
        }
        let (a, b) = lay.row_range(row);
        let ghost before = v@;
        let mut i: usize = a;
        while i < b
            invariant
                a <= i <= b,
                v@ == before + Seq::new((i - a) as nat, |k: int| (a + k) as usize),
            decreases b - i,
        {
            v.push(i);
            i += 1;
            assert(v@ =~= before + Seq::new((i - a) as nat, |k: int| (a + k) as usize));
        }
        r += 1;
    }
    v
}

/// The rows `first` to `last`, from `center` outward.
pub fn zone_rows(first: usize, last: usize, center: usize) -> (v: Vec<usize>)
    requires
        last < usize::MAX,
    ensures
        center_out(v@, first, last, center),
{
    let mut v: Vec<usize> = Vec::new();
    if first > last {
        return v;
    }
    // Rows below `lo` and from `hi` on are still to come.
    let mut lo: usize = if center < first {
        first
    } else if center > last {
        last + 1
    } else {
        center
    };
    let mut hi: usize = lo;
    while lo > first || hi <= last
        invariant
            first <= lo <= hi <= last + 1,
            last < usize::MAX,
            lo > first && lo <= last ==> lo <= center,
            lo == last + 1 ==> center > last,
            hi > first && hi <= last ==> hi > lo || center == lo || center < first,
            lo > first ==> lo - 1 < center,
            hi <= last ==> hi >= center,
            forall|r: usize| #[trigger] v@.contains(r) <==> lo <= r < hi,
            forall|i: int, j: int|
                0 <= i < j < v@.len() ==> comes_first(#[trigger] v@[i], #[trigger] v@[j], center),
            forall|i: int|
                0 <= i < v@.len() && lo > first ==> comes_first(
                    #[trigger] v@[i],
                    (lo - 1) as usize,
                    center,
                ),
            forall|i: int|
                0 <= i < v@.len() && hi <= last ==> comes_first(#[trigger] v@[i], hi, center),
        decreases (lo - first) + (last + 1 - hi),
    {
        let up: bool = if lo == first {
            false
        } else if hi > last {
            true
        } else {
            center - (lo - 1) <= hi - center
        };
        let ghost before = v@;
        if up {
            lo -= 1;
            v.push(lo);
            proof {
                pushed_contains(before, lo);
            }
        } else {
            v.push(hi);
            proof {
                pushed_contains(before, hi);
            }
            hi += 1;
        }
    }
    v
}

/// Pushing adds one element.
pub proof fn pushed_contains(v: Seq<usize>, x: usize)
    ensures
        forall|r: usize| #[trigger] v.push(x).contains(r) <==> v.contains(r) || r == x,
{
    assert forall|r: usize| #[trigger] v.push(x).contains(r) <==> v.contains(r) || r == x by {
        if v.contains(r) {
            let k = choose|k: int| 0 <= k < v.len() && v[k] == r;
            assert(v.push(x)[k] == r);
        }
        assert(v.push(x)[v.len() as int] == x);
    }
}

/// The layout of a library in the given shapes: the uniform cells, and rows
/// where the grid is flexible. The rows follow `pack`, the row starts that a
/// pinch settled on, where there is one and it can be rebuilt; else they are
/// the justified ones.
pub fn layout_with(s: &Shape, asp: &Vec<Aspect>, flexible: bool, pack: Option<&Vec<usize>>) -> (l:
    Layout)
    requires
        s.wf(),
        flex::all_shown(asp@),
        asp@.len() < usize::MAX,
    ensures
        l.wf(),
        l.within_range(),
        flexible || l.cell_h > 0 ==> l.spread(asp@),
        l.cols == s.columns(),
        l.len == asp@.len(),
        l.gap == s.gap,
        l.flex is Some <==> flexible,
        l.tile_w == s.tile_span(),
        l.tile_h == s.tile_span() * s.tile_h / (if s.tile_w < PIXEL {
            PIXEL as int
        } else {
            s.tile_w as int
        }),
        l.flex matches Some(f) ==> if packable(pack, asp@.len() as int) {
            &&& flex::spans(f.rows@) == s.pane().packed(asp@, pack->0@, 0, 1)
            &&& forall|r: int|
                0 <= r < f.rows@.len() ==> {
                    let row = #[trigger] f.rows@[r];
                    let (h, indented) = s.pane().settled_height(
                        asp@,
                        row.start as int,
                        row.end as int,
                    );
                    &&& row.h == h
                    &&& row.strip(
                        asp@,
                        s.gap as int,
                        flex::settled_left(s.pane(), row, indented),
                    )
                }
        } else {
            forall|r: int|
                0 <= r < f.rows@.len() ==> {
                    let row = #[trigger] f.rows@[r];
                    &&& row.strip(asp@, s.gap as int, s.gap as int)
                    &&& row.end == s.pane().row_end(asp@, row.start as int)
                    &&& row.h == s.pane().row_height(asp@, row.start as int, row.end as int)
                }
        },
{
    let (cols, tile_w, tile_h) = cells(s);
    let flex = if flexible {
        let p = pane_of(s);
        let packed = match pack {
            Some(starts) => flex::build_ribbon_flex(&p, asp, starts),
            None => None,
        };
        match packed {
            Some(g) => {
                proof {
                    settled_in_range(p, asp@, g);
                    settled_is_spread(p, asp@, g.rows@);
                }
                Some(g)
            },
            None => {
                let g = flex::build_flex(&p, asp);
                proof {
                    justified_in_range(p, asp@, g);
                    justified_is_spread(p, asp@, g.rows@);
                }
                Some(g)
            },
        }
    } else {
        None
    };
    Layout {
        cols,
        tile_w,
        tile_h,
        cell_w: tile_w + s.gap,
        cell_h: tile_h + s.gap,
        gap: s.gap,
        len: asp.len(),
        flex,
    }
}

/// A list of row starts that a layout of `n` clips can follow: it begins with
/// the first clip and stays within the library.
pub open spec fn packable(pack: Option<&Vec<usize>>, n: int) -> bool {
    pack matches Some(starts) && starts@.len() > 0 && starts@[0] == 0 && starts@.last() < n
}

proof fn rows_in_range(rows: Seq<FlexRow>, n: int, gap: int, r: int)
    requires
        flex::stacked(rows, n, gap),
        n <= usize::MAX,
        0 <= gap <= LENGTH_LIMIT,
        forall|k: int| 0 <= k < rows.len() ==> 0 <= (#[trigger] rows[k]).h <= 4 * LENGTH_LIMIT,
        0 <= r < rows.len(),
    ensures
        0 <= rows[r].y <= gap + r * (5 * LENGTH_LIMIT),
        r <= rows[r].start,
    decreases r,
{
    if r > 0 {
        rows_in_range(rows, n, gap, r - 1);
        assert(rows[r].start == rows[r - 1].end);
        assert(rows[r - 1].start < rows[r - 1].end);
        assert(r * (5 * LENGTH_LIMIT) == (r - 1) * (5 * LENGTH_LIMIT) + 5 * LENGTH_LIMIT)
            by (nonlinear_arith);
    }
}

/// No row lies above the content's top.
pub proof fn rows_not_above(rows: Seq<FlexRow>, n: int, gap: int, r: int)
    requires
        flex::stacked(rows, n, gap),
        gap >= 0,
        0 <= r < rows.len(),
    ensures
        rows[r].y >= 0,
    decreases r,
{
    if r > 0 {
        rows_not_above(rows, n, gap, r - 1);
        assert(rows[r].y == rows[r - 1].y + rows[r - 1].h + gap);
        assert(rows[r - 1].h >= 0);
    }
}

proof fn tall_stack(r: int)
    requires
        0 <= r <= usize::MAX,
    ensures
        0 <= r * (5 * LENGTH_LIMIT) <= 100_000_000_000_000_000_000_000_000_000_000,
{
    assert(usize::MAX <= 18_446_744_073_709_551_615);
    assert(0 <= r * (5 * LENGTH_LIMIT) <= 18_446_744_073_709_551_615 * 5_000_000_000_000)
        by (nonlinear_arith)
        requires
            0 <= r <= 18_446_744_073_709_551_615,
            LENGTH_LIMIT == 1_000_000_000_000,
    ;
}

/// The rows of a packing lie within the range that is looked up.
pub proof fn settled_in_range(p: Pane, asp: Seq<Aspect>, g: FlexGrid)
    requires
        p.wf(),
        flex::all_shown(asp),
        asp.len() <= usize::MAX,
        g.wf(asp.len() as int, p.gap as int),
        forall|r: int|
            0 <= r < g.rows@.len() ==> {
                let row = #[trigger] g.rows@[r];
                let (h, indented) = p.settled_height(asp, row.start as int, row.end as int);
                &&& row.h == h
                &&& row.h <= 4 * LENGTH_LIMIT
                &&& row.strip(asp, p.gap as int, flex::settled_left(p, row, indented))
            },
    ensures
        forall|r: int, k: int|
            #![trigger g.rows@[r].x@[k]]
            0 <= r < g.rows@.len() && 0 <= k < g.rows@[r].x@.len() ==> {
                &&& -COORD_LIMIT <= g.rows@[r].x@[k] <= COORD_LIMIT
                &&& 0 <= g.rows@[r].w@[k] <= HEIGHT_LIMIT
                &&& -COORD_LIMIT <= g.rows@[r].y <= COORD_LIMIT
                &&& g.rows@[r].h <= 4 * LENGTH_LIMIT
            },
{
    assert forall|r: int, k: int|
        #![trigger g.rows@[r].x@[k]]
        0 <= r < g.rows@.len() && 0 <= k < g.rows@[r].x@.len() implies {
        &&& -COORD_LIMIT <= g.rows@[r].x@[k] <= COORD_LIMIT
        &&& 0 <= g.rows@[r].w@[k] <= HEIGHT_LIMIT
        &&& -COORD_LIMIT <= g.rows@[r].y <= COORD_LIMIT
        &&& g.rows@[r].h <= 4 * LENGTH_LIMIT
    } by {
        let row = g.rows@[r];
        let indented = p.settled_height(asp, row.start as int, row.end as int).1;
        let left = flex::settled_left(p, row, indented);
        left_in_range(p, asp, row, left, indented);
        flex::strip_bounds(row, asp, p.gap as int, left, k);
        rows_in_range(g.rows@, asp.len() as int, p.gap as int, r);
        tall_stack(r);
    }
}

proof fn the_least_height(p: Pane)
    requires
        p.wf(),
    ensures
        p.nominal * p.rmin / (WHOLE as int) >= 4,
        p.nominal * p.rmax / (WHOLE as int) >= 4,
{
    let (nom, rmin, rmax) = (p.nominal as int, p.rmin as int, p.rmax as int);
    assert(nom * rmin >= 4_000_000 && nom * rmax >= 4_000_000) by (nonlinear_arith)
        requires
            nom >= 24_000_000,
            rmin >= 100_000,
            rmax >= 100_000,
    ;
}

proof fn settled_is_spread(p: Pane, asp: Seq<Aspect>, rows: Seq<FlexRow>)
    requires
        p.wf(),
        flex::all_shown(asp),
        forall|r: int|
            0 <= r < rows.len() ==> {
                let row = #[trigger] rows[r];
                let (h, indented) = p.settled_height(asp, row.start as int, row.end as int);
                &&& row.h == h
                &&& row.strip(asp, p.gap as int, flex::settled_left(p, row, indented))
            },
    ensures
        flex::spread(rows, asp, p.gap as int),
{
    reveal(flex::spread);
    the_least_height(p);
    let nom = p.nominal as int;
    assert forall|r: int| 0 <= r < rows.len() implies (#[trigger] rows[r]).h >= 4 && rows[r].strip(
        asp,
        p.gap as int,
        rows[r].x@[0] as int,
    ) by {
        let row = rows[r];
        let (s, e) = (row.start as int, row.end as int);
        let (u, run) = (p.usable(e - s), p.run(asp, s, e));
        flex::run_grows(p, asp, s, e);
        if u > run {
            assert(nom * u / run >= nom) by (nonlinear_arith)
                requires
                    u > run,
                    run > 0,
                    nom > 0,
            {
                assert(nom * u >= nom * run);
            }
        }
    }
}

proof fn justified_is_spread(p: Pane, asp: Seq<Aspect>, rows: Seq<FlexRow>)
    requires
        p.wf(),
        flex::all_shown(asp),
        forall|r: int|
            0 <= r < rows.len() ==> {
                let row = #[trigger] rows[r];
                &&& row.strip(asp, p.gap as int, p.gap as int)
                &&& row.h == p.row_height(asp, row.start as int, row.end as int)
            },
    ensures
        flex::spread(rows, asp, p.gap as int),
{
    reveal(flex::spread);
    the_least_height(p);
}

proof fn left_in_range(p: Pane, asp: Seq<Aspect>, row: FlexRow, left: int, indented: bool)
    requires
        p.wf(),
        flex::all_shown(asp),
        0 <= row.h <= 4 * LENGTH_LIMIT,
        left == flex::settled_left(p, row, indented),
        row.strip(asp, p.gap as int, left),
    ensures
        0 <= left <= LENGTH_LIMIT,
{
    let cnt = row.end - row.start;
    total_is_not_negative(row, asp, p.gap as int, left, row.w@.len() as int);
    assert(p.gap * (cnt + 1) >= p.gap) by (nonlinear_arith)
        requires
            p.gap >= 0,
            cnt >= 0,
    ;
}

proof fn total_is_not_negative(row: FlexRow, asp: Seq<Aspect>, gap: int, left: int, k: int)
    requires
        flex::all_shown(asp),
        row.h >= 0,
        row.strip(asp, gap, left),
        0 <= k <= row.w@.len(),
    ensures
        flex::total(row.w@, k) >= 0,
    decreases k,
{
    if k > 0 {
        total_is_not_negative(row, asp, gap, left, k - 1);
        flex::width_bounds(asp[row.start + k - 1], row.h as int);
        assert(row.w@[k - 1] == flex::width_at(asp[row.start + (k - 1)], row.h as int));
    }
}

proof fn justified_in_range(p: Pane, asp: Seq<Aspect>, g: FlexGrid)
    requires
        p.wf(),
        flex::all_shown(asp),
        asp.len() <= usize::MAX,
        g.wf(asp.len() as int, p.gap as int),
        forall|r: int|
            0 <= r < g.rows@.len() ==> {
                let row = #[trigger] g.rows@[r];
                &&& row.strip(asp, p.gap as int, p.gap as int)
                &&& row.h <= 4 * LENGTH_LIMIT
            },
    ensures
        forall|r: int, k: int|
            #![trigger g.rows@[r].x@[k]]
            0 <= r < g.rows@.len() && 0 <= k < g.rows@[r].x@.len() ==> {
                &&& -COORD_LIMIT <= g.rows@[r].x@[k] <= COORD_LIMIT
                &&& 0 <= g.rows@[r].w@[k] <= HEIGHT_LIMIT
                &&& -COORD_LIMIT <= g.rows@[r].y <= COORD_LIMIT
                &&& g.rows@[r].h <= 4 * LENGTH_LIMIT
            },
{
    assert forall|r: int, k: int|
        #![trigger g.rows@[r].x@[k]]
        0 <= r < g.rows@.len() && 0 <= k < g.rows@[r].x@.len() implies {
        &&& -COORD_LIMIT <= g.rows@[r].x@[k] <= COORD_LIMIT
        &&& 0 <= g.rows@[r].w@[k] <= HEIGHT_LIMIT
        &&& -COORD_LIMIT <= g.rows@[r].y <= COORD_LIMIT
        &&& g.rows@[r].h <= 4 * LENGTH_LIMIT
    } by {
        let row = g.rows@[r];
        flex::strip_bounds(row, asp, p.gap as int, p.gap as int, k);
        rows_in_range(g.rows@, asp.len() as int, p.gap as int, r);
        tall_stack(r);
    }
}

impl Shape {
    /// The width at which the columns exactly fill the window.
    pub open spec fn tile_span(self) -> int {
        let w = (self.vw - self.gap * (self.columns() + 1)) / self.columns();
        if w < PIXEL {
            PIXEL as int
        } else {
            w
        }
    }
}

/// What justified rows are built for.
pub fn pane_of(s: &Shape) -> (p: Pane)
    requires
        s.wf(),
    ensures
        p == s.pane(),
        p.wf(),
{
    proof {
        shape_bounds(*s);
    }
    let w: i128 = s.tile_w * s.zoom / WHOLE;
    let ideal: i128 = if w < 40 * PIXEL {
        40 * PIXEL
    } else {
        w
    };
    let d: i128 = if s.tile_w < PIXEL {
        PIXEL
    } else {
        s.tile_w
    };
    let h: i128 = ideal * s.tile_h / d;
    Pane {
        vw: s.vw,
        gap: s.gap,
        nominal: if h < 24 * PIXEL {
            24 * PIXEL
        } else {
            h
        },
        rmin: if s.rmin < WHOLE / 10 {
            WHOLE / 10
        } else if s.rmin > WHOLE {
            WHOLE
        } else {
            s.rmin
        },
        rmax: if s.rmax < WHOLE {
            WHOLE
        } else if s.rmax > 4 * WHOLE {
            4 * WHOLE
        } else {
            s.rmax
        },
    }
}

fn cells(s: &Shape) -> (r: (usize, i128, i128))
    requires
        s.wf(),
    ensures
        r.0 == s.columns(),
        1 <= r.0 <= 25_000,
        r.1 == s.tile_span(),
        0 < r.1 <= LENGTH_LIMIT,
        r.2 == r.1 * s.tile_h / (if s.tile_w < PIXEL {
            PIXEL as int
        } else {
            s.tile_w as int
        }),
        0 <= r.2 <= HEIGHT_LIMIT,
{
    proof {
        shape_bounds(*s);
    }
    let w: i128 = s.tile_w * s.zoom / WHOLE;
    let ideal: i128 = if w < 40 * PIXEL {
        40 * PIXEL
    } else {
        w
    };
    let cols: i128 = if s.vw < s.gap {
        1
    } else {
        let c: i128 = (s.vw - s.gap) / (ideal + s.gap);
        if c < 1 {
            1
        } else {
            c
        }
    };
    proof {
        assert(0 <= s.gap * (cols + 1) <= 1_000_000_000_000 * 25_001) by (nonlinear_arith)
            requires
                0 <= s.gap <= 1_000_000_000_000,
                0 <= cols + 1 <= 25_001,
        ;
    }
    let room: i128 = s.vw - s.gap * (cols + 1);
    let tile_w: i128 = if room < PIXEL {
        PIXEL
    } else {
        let t: i128 = room / cols;
        if t < PIXEL {
            PIXEL
        } else {
            t
        }
    };
    let d: i128 = if s.tile_w < PIXEL {
        PIXEL
    } else {
        s.tile_w
    };
    proof {
        let r = room as int;
        let c = cols as int;
        assert(r < PIXEL ==> r / c < PIXEL) by (nonlinear_arith)
            requires
                c >= 1,
                PIXEL == 1_000_000,
        ;
        assert(r >= 0 ==> r / c <= r) by (nonlinear_arith)
            requires
                c >= 1,
        ;
        assert(0 <= tile_w * s.tile_h <= 1_000_000_000_000 * 10_000_000_000) by (nonlinear_arith)
            requires
                0 <= tile_w <= 1_000_000_000_000,
                0 <= s.tile_h <= 10_000_000_000,
        ;
        let a = tile_w * s.tile_h;
        assert(0 <= a / (d as int) <= a / 1_000_000) by (nonlinear_arith)
            requires
                a >= 0,
                d >= 1_000_000,
        ;
    }
    let tile_h: i128 = tile_w * s.tile_h / d;
    (cols as usize, tile_w, tile_h)
}

impl Layout {
    /// The row that a clip stands in.
    pub open spec fn row_holding(self, i: int) -> int {
        choose|r: int| self.is_row_of(i, r)
    }

    /// The row that lies `dy` rows below clip `i`, or the outermost one on the
    /// way there.
    pub open spec fn row_beyond(self, i: int, dy: int) -> int {
        let r = self.row_holding(i) + dy;
        if r > self.row_count() - 1 {
            self.row_count() - 1
        } else if r < 0 {
            0
        } else {
            r
        }
    }

    /// Where a move by `dy` rows takes a selection: to the tile of that row
    /// whose centre is nearest to its own.
    pub open spec fn landing(self, i: int, dy: int) -> usize {
        let t = self.rect_of(i);
        match self.nearest(self.row_beyond(i, dy), t.x + t.w / 2) {
            Some(k) => k,
            None => i as usize,
        }
    }

    /// The clip below clip `i`: of the next row, the one nearest to its middle.
    pub open spec fn below(self, i: int) -> Option<usize> {
        let r = self.row_holding(i);
        if r + 1 < self.row_count() {
            let t = self.rect_of(i);
            self.nearest(r + 1, t.x + t.w / 2)
        } else {
            None
        }
    }

    /// The clip below clip `i`, if there is a row below.
    pub fn clip_below(&self, i: usize) -> (k: Option<usize>)
        requires
            self.wf(),
            self.within_range(),
            self.len <= crate::state::MAX_CLIPS,
            i < self.len,
        ensures
            k == self.below(i as int),
            k matches Some(b) ==> b < self.len,
    {
        let from: usize = self.row_of(i);
        let rows: usize = self.rows();
        proof {
            row_of_is_one(*self, i as int, from as int);
            rect_in_range(*self, i as int);
        }
        if from >= rows || from + 1 >= rows {
            return None;
        }
        proof {
            if self.flex is None {
                let c = self.cols as int;
                let n = self.len as int;
                let r = from + 1;
                assert(r * c <= n) by (nonlinear_arith)
                    requires
                        r < (n + c - 1) / c,
                        1 <= c,
                        1 <= n,
                ;
            }
        }
        let t = self.tile_rect(i);
        self.nearest_in_row(from + 1, t.x + t.w / 2)
    }

    /// Where a move by `dy` rows takes the selection `i`.
    pub fn land(&self, i: usize, dy: i32) -> (k: usize)
        requires
            self.wf(),
            self.within_range(),
            self.len <= crate::state::MAX_CLIPS,
            i < self.len,
        ensures
            k == self.landing(i as int, dy as int),
            k < self.len,
    {
        let from: usize = self.row_of(i);
        let rows: usize = self.rows();
        proof {
            row_of_is_one(*self, i as int, from as int);
            rect_in_range(*self, i as int);
            if self.flex is None {
                let c = self.cols as int;
                let n = self.len as int;
                assert(i as int / c <= n + c - 1 && 1 <= (n + c - 1) / c <= n) by (nonlinear_arith)
                    requires
                        1 <= n,
                        0 <= i < n,
                        1 <= c,
                ;
                assert(((n + c - 1) / c - 1) * c <= n) by (nonlinear_arith)
                    requires
                        1 <= n,
                        1 <= c,
                ;
            }
        }
        let r: i128 = from as i128 + dy as i128;
        let row: usize = if r > rows as i128 - 1 {
            rows - 1
        } else if r < 0 {
            0
        } else {
            r as usize
        };
        assert(row == self.row_beyond(i as int, dy as int));
        proof {
            if self.flex is None {
                let c = self.cols as int;
                let n = self.len as int;
                assert(row * c <= ((n + c - 1) / c - 1) * c) by (nonlinear_arith)
                    requires
                        row <= (n + c - 1) / c - 1,
                        1 <= c,
                ;
            }
        }
        let t = self.tile_rect(i);
        match self.nearest_in_row(row, t.x + t.w / 2) {
            Some(k) => k,
            None => i,
        }
    }
}

} // verus!
