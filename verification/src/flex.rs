//! The grid's geometry: which clip stands in which row, and where.
//!
//! Lengths are in micropixels. A row is a strip of tiles of one height, each
//! tile as wide as its clip's aspect asks, one gap apart.

use vstd::arithmetic::div_mod::lemma_fundamental_div_mod;
use vstd::prelude::*;

verus! {

/// One pixel.
pub const PIXEL: i128 = 1_000_000;

/// The whole of a ratio given in millionths.
pub const WHOLE: i128 = 1_000_000;

/// The largest length that a window, a gap or a nominal height may have.
pub const LENGTH_LIMIT: i128 = 1_000_000_000_000;

/// The largest extent that a tile of a layout may have.
pub const HEIGHT_LIMIT: i128 = 10_000_000_000_000_000;

/// The largest height that a row may have while a pinch scales it.
pub const TALL_LIMIT: i128 = 100_000_000_000_000_000;

/// A displayed shape, width over height, within 9:16 and 12:5.
#[derive(Clone, Copy, PartialEq, Eq, Structural, Debug)]
pub struct Aspect {
    pub w: u32,
    pub h: u32,
}

impl Aspect {
    /// The shape is one that the grid shows.
    pub open spec fn wf(self) -> bool {
        &&& self.w > 0
        &&& self.h > 0
        &&& 9 * self.h <= 16 * self.w
        &&& 5 * self.w <= 12 * self.h
    }
}

/// The shape shown for a source of `w` by `h`: its own where the grid shows
/// such shapes, else the nearest that it does show. A height of zero counts
/// as one.
pub open spec fn shown_aspect(w: u32, h: u32) -> Aspect {
    let d: u32 = if h == 0 {
        1
    } else {
        h
    };
    if 16 * w < 9 * d {
        Aspect { w: 9, h: 16 }
    } else if 5 * w > 12 * d {
        Aspect { w: 12, h: 5 }
    } else {
        Aspect { w, h: d }
    }
}

/// The shape shown for a source of `w` by `h`.
pub fn clamp_aspect(w: u32, h: u32) -> (a: Aspect)
    ensures
        a == shown_aspect(w, h),
        a.wf(),
{
    let d: u32 = if h == 0 {
        1
    } else {
        h
    };
    if 16 * (w as u64) < 9 * (d as u64) {
        Aspect { w: 9, h: 16 }
    } else if 5 * (w as u64) > 12 * (d as u64) {
        Aspect { w: 12, h: 5 }
    } else {
        Aspect { w, h: d }
    }
}

/// The width of a tile of shape `a` at height `h`, to the micropixel below.
pub open spec fn width_at(a: Aspect, h: int) -> int {
    h * a.w / (a.h as int)
}

/// The width of a tile of shape `a` at height `h`, to the micropixel above.
pub open spec fn width_above(a: Aspect, h: int) -> int {
    (h * a.w + a.h - 1) / (a.h as int)
}

/// A width lies within the shapes that the grid shows.
pub proof fn width_bounds(a: Aspect, h: int)
    requires
        a.wf(),
        h >= 0,
    ensures
        0 <= width_at(a, h) <= width_above(a, h) <= 3 * h,
        width_above(a, h) <= width_at(a, h) + 1,
        width_at(a, h) * a.h <= h * a.w <= width_above(a, h) * a.h,
        h >= 2 ==> width_at(a, h) >= 1,
        h >= 1 ==> width_above(a, h) >= 1,
{
    let d = a.h as int;
    let p = h * a.w;
    assert(0 <= p) by (nonlinear_arith)
        requires
            h >= 0,
            p == h * a.w,
    ;
    lemma_fundamental_div_mod(p, d);
    lemma_fundamental_div_mod(p + d - 1, d);
    let q = p / d;
    let u = (p + d - 1) / d;
    assert(d * q + p % d == p);
    assert(d * u + (p + d - 1) % d == p + d - 1);
    assert(q >= 0 && q <= u && u <= q + 1 && q * d <= p <= u * d) by (nonlinear_arith)
        requires
            d > 0,
            p >= 0,
            d * q + p % d == p,
            0 <= p % d < d,
            d * u + (p + d - 1) % d == p + d - 1,
            0 <= (p + d - 1) % d < d,
    ;
    // 5 p <= 12 h d, so that the rounded width stays under three heights.
    assert(5 * p <= 12 * (h * d)) by (nonlinear_arith)
        requires
            h >= 0,
            p == h * a.w,
            5 * a.w <= 12 * d,
    ;
    assert(16 * p >= 9 * (h * d)) by (nonlinear_arith)
        requires
            h >= 0,
            p == h * a.w,
            9 * d <= 16 * a.w,
    ;
    assert(u <= 3 * h) by (nonlinear_arith)
        requires
            d > 0,
            h >= 0,
            5 * p <= 12 * (h * d),
            d * u <= p + d - 1,
    ;
    if h >= 2 {
        assert(q >= 1) by (nonlinear_arith)
            requires
                d > 0,
                h >= 2,
                16 * p >= 9 * (h * d),
                d * q + p % d == p,
                p % d < d,
        ;
    }
    if h >= 1 {
        assert(u >= 1) by (nonlinear_arith)
            requires
                d > 0,
                h >= 1,
                16 * p >= 9 * (h * d),
                p <= u * d,
        ;
    }
}

/// The width of a tile of shape `a` at height `h`.
pub fn tile_width(a: Aspect, h: i128) -> (w: i128)
    requires
        a.wf(),
        0 <= h <= TALL_LIMIT,
    ensures
        w == width_at(a, h as int),
        0 <= w <= 3 * h,
{
    proof {
        width_bounds(a, h as int);
        product_fits(h as int, a.w as int);
    }
    h * (a.w as i128) / (a.h as i128)
}

fn tile_width_above(a: Aspect, h: i128) -> (w: i128)
    requires
        a.wf(),
        0 <= h <= TALL_LIMIT,
    ensures
        w == width_above(a, h as int),
        0 <= w <= 3 * h,
{
    proof {
        width_bounds(a, h as int);
        product_fits(h as int, a.w as int);
    }
    (h * (a.w as i128) + (a.h as i128 - 1)) / (a.h as i128)
}

proof fn product_fits(h: int, w: int)
    requires
        0 <= h <= TALL_LIMIT,
        0 <= w <= u32::MAX,
    ensures
        0 <= h * w <= 500_000_000_000_000_000_000_000_000,
{
    assert(0 <= h * w <= 100_000_000_000_000_000 * 4_294_967_295) by (nonlinear_arith)
        requires
            0 <= h <= 100_000_000_000_000_000,
            0 <= w <= 4_294_967_295,
    ;
}


/// What a layout is made for: the window's width, the gap between tiles, the
/// height of a row before it is justified, and how far justifying may shrink
/// or stretch that height, in millionths of it.
#[derive(Clone, Copy, PartialEq, Eq, Structural, Debug)]
pub struct Pane {
    pub vw: i128,
    pub gap: i128,
    pub nominal: i128,
    pub rmin: i128,
    pub rmax: i128,
}

impl Pane {
    pub open spec fn wf(self) -> bool {
        &&& 0 <= self.vw <= LENGTH_LIMIT
        &&& 0 <= self.gap <= LENGTH_LIMIT
        &&& 24 * PIXEL <= self.nominal <= LENGTH_LIMIT
        &&& WHOLE / 10 <= self.rmin <= WHOLE
        &&& WHOLE <= self.rmax <= 4 * WHOLE
    }

    /// The width that `cnt` tiles share once margins and gaps are taken off.
    pub open spec fn usable(self, cnt: int) -> int {
        let u = self.vw - self.gap * (cnt + 1);
        if u < PIXEL {
            PIXEL as int
        } else {
            u
        }
    }

    /// The width of the tiles `s..e` at the nominal height, gaps apart.
    pub open spec fn run(self, asp: Seq<Aspect>, s: int, e: int) -> int
        decreases e - s,
    {
        if e <= s {
            0
        } else {
            self.run(asp, s, e - 1) + width_above(asp[e - 1], self.nominal as int)
        }
    }

    /// Where filling a row from `s` stops, having reached `i`: at the first
    /// clip that no longer fits at the nominal height, or at the end.
    pub open spec fn fill_end(self, asp: Seq<Aspect>, s: int, i: int) -> int
        decreases asp.len() - i,
    {
        if i >= asp.len() || self.run(asp, s, i + 1) > self.usable(i - s + 1) {
            i
        } else {
            self.fill_end(asp, s, i + 1)
        }
    }

    /// The clip at `i`, which overflows the row `s..i`, still joins it:
    /// shrinking the row to take it in lands nearer the nominal height than
    /// growing the row without it, and not below the smallest height.
    ///
    /// With the two scale factors `a` (with it, below one) and `b` (without),
    /// `a` is nearer to one than `b`, in ratio, just where `a * b > 1`.
    pub open spec fn joins(self, asp: Seq<Aspect>, s: int, i: int) -> bool {
        let with = self.usable(i - s + 1);
        let without = self.usable(i - s);
        &&& with * WHOLE >= self.rmin * self.run(asp, s, i + 1)
        &&& with * without > self.run(asp, s, i + 1) * self.run(asp, s, i)
    }

    /// Where the row that starts at `s` ends.
    pub open spec fn row_end(self, asp: Seq<Aspect>, s: int) -> int {
        let f = self.fill_end(asp, s, s + 1);
        if f < asp.len() && self.joins(asp, s, f) {
            f + 1
        } else {
            f
        }
    }

    /// The height at which the row `s..e` spans the window, kept within the
    /// limits; the last row does not grow.
    pub open spec fn row_height(self, asp: Seq<Aspect>, s: int, e: int) -> int {
        let raw = self.nominal * self.usable(e - s) / self.run(asp, s, e);
        let lo = self.nominal * self.rmin / (WHOLE as int);
        let hi = if e == asp.len() {
            self.nominal as int
        } else {
            self.nominal * self.rmax / (WHOLE as int)
        };
        if raw < lo {
            lo
        } else if raw > hi {
            hi
        } else {
            raw
        }
    }
}

/// Every shape in the list is one that the grid shows.
pub open spec fn all_shown(asp: Seq<Aspect>) -> bool {
    forall|i: int| 0 <= i < asp.len() ==> (#[trigger] asp[i]).wf()
}

fn usable(p: &Pane, cnt: usize) -> (u: i128)
    requires
        p.wf(),
    ensures
        u == p.usable(cnt as int),
        PIXEL <= u <= LENGTH_LIMIT,
{
    proof {
        gaps_fit(p.gap as int, cnt + 1);
    }
    let u: i128 = p.vw - p.gap * (cnt as i128 + 1);
    if u < PIXEL {
        PIXEL
    } else {
        u
    }
}

proof fn gaps_fit(g: int, c: int)
    requires
        0 <= g <= 4 * LENGTH_LIMIT,
        0 <= c <= usize::MAX + 1,
    ensures
        0 <= g * c <= 80_000_000_000_000_000_000_000_000_000_000,
{
    assert(usize::MAX <= 18_446_744_073_709_551_615);
    assert(0 <= g * c <= 4_000_000_000_000 * 18_446_744_073_709_551_616) by (nonlinear_arith)
        requires
            0 <= g <= 4_000_000_000_000,
            0 <= c <= 18_446_744_073_709_551_616,
    ;
}

/// One row of the grid: the clips `start..end`, the row's top edge and height,
/// and each tile's left edge and width.
pub struct FlexRow {
    pub start: usize,
    pub end: usize,
    pub y: i128,
    pub h: i128,
    pub x: Vec<i128>,
    pub w: Vec<i128>,
}

impl FlexRow {
    /// The row is one strip: as many tiles as clips, each as wide as its shape
    /// asks at the row's height, the first at `left`, each next one gap on.
    pub open spec fn strip(self, asp: Seq<Aspect>, gap: int, left: int) -> bool {
        &&& self.start < self.end <= asp.len()
        &&& self.x@.len() == self.end - self.start
        &&& self.w@.len() == self.end - self.start
        &&& self.x@[0] == left
        &&& forall|k: int|
            0 <= k < self.w@.len() ==> #[trigger] self.w@[k] == width_at(
                asp[self.start + k],
                self.h as int,
            )
        &&& forall|k: int|
            0 < k < self.x@.len() ==> #[trigger] self.x@[k] == self.x@[k - 1] + self.w@[k - 1] + gap
    }
}

/// The rows follow one another without a gap in the library, cover it, and
/// stand one gap apart from top to bottom.
pub open spec fn stacked(rows: Seq<FlexRow>, n: int, gap: int) -> bool {
    &&& (n == 0 <==> rows.len() == 0)
    &&& rows.len() > 0 ==> {
        &&& rows[0].start == 0
        &&& rows[0].y == gap
        &&& rows.last().end == n
    }
    &&& forall|r: int|
        0 <= r < rows.len() ==> (#[trigger] rows[r]).start < rows[r].end <= n && rows[r].h >= 0
    &&& forall|r: int|
        0 < r < rows.len() ==> {
            &&& (#[trigger] rows[r]).start == rows[r - 1].end
            &&& rows[r].y == rows[r - 1].y + rows[r - 1].h + gap
        }
}

/// Where the content under the rows ends, with its trailing gap.
pub open spec fn bottom(rows: Seq<FlexRow>, gap: int) -> int {
    if rows.len() == 0 {
        gap
    } else {
        rows.last().y + rows.last().h + gap
    }
}

/// The justified rows of a library.
pub struct FlexGrid {
    pub rows: Vec<FlexRow>,
    /// The height of the content, with its trailing gap.
    pub height: i128,
}

impl FlexGrid {
    /// The grid's rows are stacked over `n` clips and its height is theirs.
    pub open spec fn wf(self, n: int, gap: int) -> bool {
        &&& stacked(self.rows@, n, gap)
        &&& self.height == bottom(self.rows@, gap)
    }
}


/// Lays the clips `start..end` out as one strip from `left`.
fn lay_row(
    asp: &Vec<Aspect>,
    gap: i128,
    start: usize,
    end: usize,
    y: i128,
    h: i128,
    left: i128,
) -> (row: FlexRow)
    requires
        all_shown(asp@),
        start < end <= asp.len(),
        0 <= gap <= LENGTH_LIMIT,
        0 <= h <= 4 * LENGTH_LIMIT,
        -LENGTH_LIMIT <= left <= LENGTH_LIMIT,
    ensures
        row.strip(asp@, gap as int, left as int),
        row.start == start,
        row.end == end,
        row.y == y,
        row.h == h,
{
    let mut x: Vec<i128> = Vec::new();
    let mut w: Vec<i128> = Vec::new();
    let mut cx: i128 = left;
    let mut j: usize = start;
    while j < end
        invariant
            all_shown(asp@),
            start <= j <= end <= asp.len(),
            0 <= gap <= LENGTH_LIMIT,
            0 <= h <= 4 * LENGTH_LIMIT,
            -LENGTH_LIMIT <= left <= LENGTH_LIMIT,
            x@.len() == j - start,
            w@.len() == j - start,
            left <= cx <= left + (j - start) * (13 * LENGTH_LIMIT),
            j == start ==> cx == left,
            j > start ==> x@[0] == left && cx == x@[j - start - 1] + w@[j - start - 1] + gap,
            forall|k: int|
                0 <= k < w@.len() ==> #[trigger] w@[k] == width_at(asp[start + k], h as int),
            forall|k: int|
                0 < k < x@.len() ==> #[trigger] x@[k] == x@[k - 1] + w@[k - 1] + gap,
        decreases end - j,
    {
        let tw: i128 = tile_width(asp[j], h);
        proof {
            assert((j - start + 1) * (13 * LENGTH_LIMIT) == (j - start) * (13 * LENGTH_LIMIT) + 13
                * LENGTH_LIMIT) by (nonlinear_arith);
            assert((j - start + 1) * (13 * LENGTH_LIMIT) <= 18_446_744_073_709_551_616
                * 13_000_000_000_000) by (nonlinear_arith)
                requires
                    0 <= j - start + 1 <= 18_446_744_073_709_551_616,
                    LENGTH_LIMIT == 1_000_000_000_000,
            ;
        }
        x.push(cx);
        w.push(tw);
        cx = cx + tw + gap;
        j += 1;
    }
    FlexRow { start, end, y, h, x, w }
}

/// A run of tiles is at least as long as there are tiles, and a run that
/// takes one clip more is that clip's width longer.
pub(crate) proof fn run_grows(p: Pane, asp: Seq<Aspect>, s: int, e: int)
    requires
        p.wf(),
        all_shown(asp),
        0 <= s <= e <= asp.len(),
    ensures
        p.run(asp, s, e) >= e - s,
        e < asp.len() ==> p.run(asp, s, e + 1) == p.run(asp, s, e) + width_above(
            asp[e],
            p.nominal as int,
        ),
    decreases e - s,
{
    if e > s {
        run_grows(p, asp, s, e - 1);
        width_bounds(asp[e - 1], p.nominal as int);
    }
}

/// Where the row that starts at `start` ends, and how wide its tiles are
/// together at the nominal height.
fn fill_row(p: &Pane, asp: &Vec<Aspect>, start: usize) -> (r: (usize, i128))
    requires
        p.wf(),
        all_shown(asp@),
        start < asp.len(),
    ensures
        r.0 == p.row_end(asp@, start as int),
        start < r.0 <= asp.len(),
        r.1 == p.run(asp@, start as int, r.0 as int),
        0 < r.1 <= 6 * LENGTH_LIMIT,
{
    let n: usize = asp.len();
    let mut sum: i128 = tile_width_above(asp[start], p.nominal);
    let mut i: usize = start + 1;
    proof {
        run_grows(*p, asp@, start as int, start as int);
        run_grows(*p, asp@, start as int, start + 1);
    }
    while i < n
        invariant_except_break
            p.fill_end(asp@, start as int, i as int) == p.fill_end(
                asp@,
                start as int,
                start + 1,
            ),
        invariant
            p.wf(),
            all_shown(asp@),
            n == asp.len(),
            start < i <= n,
            sum == p.run(asp@, start as int, i as int),
            0 < sum <= 3 * LENGTH_LIMIT,
        ensures
            i == p.fill_end(asp@, start as int, start + 1),
        decreases n - i,
    {
        let w: i128 = tile_width_above(asp[i], p.nominal);
        let room: i128 = usable(p, i - start + 1);
        proof {
            run_grows(*p, asp@, start as int, i as int);
            run_grows(*p, asp@, start as int, i + 1);
        }
        if sum + w > room {
            break;
        }
        sum = sum + w;
        i += 1;
    }
    if i < n {
        let w: i128 = tile_width_above(asp[i], p.nominal);
        let with: i128 = usable(p, i - start + 1);
        let without: i128 = usable(p, i - start);
        proof {
            run_grows(*p, asp@, start as int, i as int);
            run_grows(*p, asp@, start as int, i + 1);
            let s1 = sum + w;
            assert(0 <= p.rmin * s1 <= 1_000_000 * 6_000_000_000_000) by (nonlinear_arith)
                requires
                    0 <= p.rmin <= 1_000_000,
                    0 <= s1 <= 6_000_000_000_000,
            ;
            assert(0 <= s1 * sum <= 6_000_000_000_000 * 6_000_000_000_000) by (nonlinear_arith)
                requires
                    0 <= sum <= 6_000_000_000_000,
                    0 <= s1 <= 6_000_000_000_000,
            ;
            assert(0 <= with * without <= 1_000_000_000_000 * 1_000_000_000_000)
                by (nonlinear_arith)
                requires
                    0 <= with <= 1_000_000_000_000,
                    0 <= without <= 1_000_000_000_000,
            ;
        }
        if with * WHOLE >= p.rmin * (sum + w) && with * without > (sum + w) * sum {
            sum = sum + w;
            i += 1;
        }
    }
    (i, sum)
}

/// The height of the row `start..end` whose tiles measure `sum`.
fn justified_height(p: &Pane, asp: &Vec<Aspect>, start: usize, end: usize, sum: i128) -> (h: i128)
    requires
        p.wf(),
        all_shown(asp@),
        start < end <= asp.len(),
        sum == p.run(asp@, start as int, end as int),
        0 < sum,
    ensures
        h == p.row_height(asp@, start as int, end as int),
        0 <= h <= 4 * LENGTH_LIMIT,
{
    let room: i128 = usable(p, end - start);
    proof {
        height_products(*p, room as int);
        assert(p.nominal * room / (sum as int) >= 0) by (nonlinear_arith)
            requires
                p.nominal * room >= 0,
                sum > 0,
        ;
    }
    let raw: i128 = p.nominal * room / sum;
    let lo: i128 = p.nominal * p.rmin / WHOLE;
    let hi: i128 = if end == asp.len() {
        p.nominal
    } else {
        p.nominal * p.rmax / WHOLE
    };
    if raw < lo {
        lo
    } else if raw > hi {
        hi
    } else {
        raw
    }
}

proof fn height_products(p: Pane, room: int)
    requires
        p.wf(),
        0 <= room <= LENGTH_LIMIT,
    ensures
        0 <= p.nominal * room <= 1_000_000_000_000_000_000_000_000,
        0 <= p.nominal * p.rmin <= 1_000_000_000_000_000_000,
        0 <= p.nominal * p.rmax <= 4_000_000_000_000_000_000,
        0 <= p.nominal * p.rmin / (WHOLE as int) <= p.nominal,
        p.nominal <= p.nominal * p.rmax / (WHOLE as int) <= 4 * p.nominal,
{
    let n = p.nominal as int;
    let lo = p.rmin as int;
    let hi = p.rmax as int;
    assert(0 <= n * room <= 1_000_000_000_000 * 1_000_000_000_000) by (nonlinear_arith)
        requires
            0 <= n <= 1_000_000_000_000,
            0 <= room <= 1_000_000_000_000,
    ;
    assert(0 <= n * lo <= n * 1_000_000) by (nonlinear_arith)
        requires
            0 <= n,
            0 <= lo <= 1_000_000,
    ;
    assert(n * 1_000_000 <= n * hi <= n * 4_000_000) by (nonlinear_arith)
        requires
            0 <= n,
            1_000_000 <= hi <= 4_000_000,
    ;
}

/// The justified layout: rows fill with tiles at the nominal height, then each
/// is scaled to span the window within the limits.
pub fn build_flex(p: &Pane, asp: &Vec<Aspect>) -> (g: FlexGrid)
    requires
        p.wf(),
        all_shown(asp@),
    ensures
        g.wf(asp@.len() as int, p.gap as int),
        forall|r: int|
            0 <= r < g.rows@.len() ==> {
                let row = #[trigger] g.rows@[r];
                &&& row.strip(asp@, p.gap as int, p.gap as int)
                &&& row.end == p.row_end(asp@, row.start as int)
                &&& row.h == p.row_height(asp@, row.start as int, row.end as int)
                &&& row.h <= 4 * LENGTH_LIMIT
            },
{
    let n: usize = asp.len();
    let mut rows: Vec<FlexRow> = Vec::new();
    let mut y: i128 = p.gap;
    let mut i: usize = 0;
    while i < n
        invariant
            p.wf(),
            all_shown(asp@),
            n == asp.len(),
            i <= n,
            p.gap <= y <= p.gap + i * (5 * LENGTH_LIMIT),
            i == 0 <==> rows@.len() == 0,
            rows@.len() > 0 ==> rows@[0].start == 0 && rows@[0].y == p.gap && rows@.last().end == i,
            y == bottom(rows@, p.gap as int),
            forall|r: int|
                0 <= r < rows@.len() ==> {
                    let row = #[trigger] rows@[r];
                    &&& row.start < row.end <= n
                    &&& 0 <= row.h <= 4 * LENGTH_LIMIT
                    &&& row.strip(asp@, p.gap as int, p.gap as int)
                    &&& row.end == p.row_end(asp@, row.start as int)
                    &&& row.h == p.row_height(asp@, row.start as int, row.end as int)
                },
            forall|r: int|
                0 < r < rows@.len() ==> {
                    &&& (#[trigger] rows@[r]).start == rows@[r - 1].end
                    &&& rows@[r].y == rows@[r - 1].y + rows@[r - 1].h + p.gap
                },
        decreases n - i,
    {
        let (end, sum) = fill_row(p, asp, i);
        let h: i128 = justified_height(p, asp, i, end, sum);
        let row = lay_row(asp, p.gap, i, end, y, h, p.gap);
        proof {
            assert((i + 1) * (5 * LENGTH_LIMIT) <= end * (5 * LENGTH_LIMIT)
                <= 18_446_744_073_709_551_615 * 5_000_000_000_000) by (nonlinear_arith)
                requires
                    0 <= i + 1 <= end <= 18_446_744_073_709_551_615,
                    LENGTH_LIMIT == 1_000_000_000_000,
            ;
            assert((i + 1) * (5 * LENGTH_LIMIT) == i * (5 * LENGTH_LIMIT) + 5 * LENGTH_LIMIT)
                by (nonlinear_arith);
        }
        rows.push(row);
        y = y + h + p.gap;
        i = end;
    }
    FlexGrid { rows, height: y }
}


/// The tiles of a strip, added up.
pub open spec fn total(w: Seq<i128>, k: int) -> int
    decreases k,
{
    if k <= 0 {
        0
    } else {
        total(w, k - 1) + w[k - 1]
    }
}

proof fn strip_right_edge(row: FlexRow, asp: Seq<Aspect>, gap: int, left: int, k: int)
    requires
        row.strip(asp, gap, left),
        0 <= k < row.x@.len(),
    ensures
        row.x@[k] + row.w@[k] == left + total(row.w@, k + 1) + gap * k,
    decreases k,
{
    if k > 0 {
        strip_right_edge(row, asp, gap, left, k - 1);
        assert(gap * (k - 1) + gap == gap * k) by (nonlinear_arith);
    } else {
        assert(total(row.w@, 1) == total(row.w@, 0) + row.w@[0]);
        assert(gap * 0 == 0) by (nonlinear_arith);
    }
}

/// A strip's tiles begin one after the other.
pub(crate) proof fn strip_ascends(asp: Seq<Aspect>, rest: FlexRow, gap: int, a: int, b: int)
    requires
        all_shown(asp),
        rest.strip(asp, gap, rest.x@[0] as int),
        0 <= rest.h,
        gap >= 0,
        0 <= a <= b < rest.x@.len(),
    ensures
        rest.x@[a] <= rest.x@[b],
        a < b ==> rest.x@[a] + rest.w@[a] + gap <= rest.x@[b],
    decreases b - a,
{
    if a < b {
        strip_ascends(asp, rest, gap, a, b - 1);
        assert(rest.x@[b] == rest.x@[b - 1] + rest.w@[b - 1] + gap);
        assert(rest.w@[b - 1] == width_at(asp[rest.start + (b - 1)], rest.h as int));
        width_bounds(asp[rest.start + (b - 1)], rest.h as int);
    }
}

/// The rows' tiles stand side by side, in shape, each with some extent.
#[verifier::opaque]
pub open spec fn spread(rows: Seq<FlexRow>, asp: Seq<Aspect>, gap: int) -> bool {
    forall|r: int|
        0 <= r < rows.len() ==> (#[trigger] rows[r]).h >= 4 && rows[r].strip(
            asp,
            gap,
            rows[r].x@[0] as int,
        )
}

/// Scaled from the nominal height to `h`, a run of tiles shrinks at least in
/// proportion.
proof fn tiles_shrink_in_proportion(p: Pane, asp: Seq<Aspect>, row: FlexRow, gap: int, left: int, k: int)
    requires
        p.wf(),
        all_shown(asp),
        row.strip(asp, gap, left),
        row.h >= 0,
        0 <= k <= row.w@.len(),
    ensures
        p.nominal * total(row.w@, k) <= row.h * p.run(asp, row.start as int, row.start + k),
    decreases k,
{
    let nom = p.nominal as int;
    let h = row.h as int;
    if k > 0 {
        tiles_shrink_in_proportion(p, asp, row, gap, left, k - 1);
        let a = asp[row.start + k - 1];
        let d = a.h as int;
        let w = row.w@[k - 1] as int;
        let c = width_above(a, nom);
        width_bounds(a, h);
        width_bounds(a, nom);
        assert(w * nom <= h * c) by (nonlinear_arith)
            requires
                w * d <= h * a.w,
                nom * a.w <= c * d,
                d > 0,
                nom >= 0,
                h >= 0,
        {
            assert((w * nom) * d <= (h * a.w) * nom);
            assert((h * a.w) * nom <= (h * c) * d);
        }
        let t = total(row.w@, k - 1);
        let r = p.run(asp, row.start as int, row.start + k - 1);
        assert(nom * (t + w) <= h * (r + c)) by (nonlinear_arith)
            requires
                nom * t <= h * r,
                w * nom <= h * c,
        ;
    } else {
        assert(nom * 0 == 0 && h * 0 == 0) by (nonlinear_arith);
    }
}

/// A row no taller than spanning asks for never runs past the window's right
/// margin.
pub proof fn justified_row_fits(p: Pane, asp: Seq<Aspect>, row: FlexRow)
    requires
        p.wf(),
        all_shown(asp),
        row.strip(asp, p.gap as int, p.gap as int),
        0 <= row.h <= p.nominal * p.usable(row.end - row.start) / p.run(
            asp,
            row.start as int,
            row.end as int,
        ),
        p.vw - p.gap * (row.end - row.start + 1) >= PIXEL,
    ensures
        row.x@.last() + row.w@.last() <= p.vw - p.gap,
{
    let cnt = row.end - row.start;
    let run = p.run(asp, row.start as int, row.end as int);
    let u = p.usable(cnt);
    let nom = p.nominal as int;
    let t = total(row.w@, cnt);
    run_grows(p, asp, row.start as int, row.end as int);
    strip_right_edge(row, asp, p.gap as int, p.gap as int, cnt - 1);
    tiles_shrink_in_proportion(p, asp, row, p.gap as int, p.gap as int, cnt);
    lemma_fundamental_div_mod(nom * u, run);
    assert(t <= u) by (nonlinear_arith)
        requires
            nom > 0,
            run > 0,
            nom * t <= row.h * run,
            row.h <= nom * u / run,
            run * (nom * u / run) + (nom * u) % run == nom * u,
            0 <= (nom * u) % run,
    {
        assert(row.h * run <= (nom * u / run) * run);
        assert(nom * t <= nom * u);
    }
    assert(p.gap + p.gap * (cnt - 1) + p.gap == p.gap * (cnt + 1)) by (nonlinear_arith);
}

/// Scaled from the nominal height to `h`, a run of tiles shrinks by little more
/// than in proportion: each by less than a micropixel at either height.
proof fn tiles_shrink_little(p: Pane, asp: Seq<Aspect>, row: FlexRow, gap: int, left: int, k: int)
    requires
        p.wf(),
        all_shown(asp),
        row.strip(asp, gap, left),
        row.h >= 0,
        0 <= k <= row.w@.len(),
    ensures
        row.h * p.run(asp, row.start as int, row.start + k) <= p.nominal * total(row.w@, k) + k * (
        row.h + p.nominal),
    decreases k,
{
    let nom = p.nominal as int;
    let h = row.h as int;
    if k > 0 {
        tiles_shrink_little(p, asp, row, gap, left, k - 1);
        let a = asp[row.start + k - 1];
        let d = a.h as int;
        let w = row.w@[k - 1] as int;
        let c = width_above(a, nom);
        let q = width_at(a, nom);
        let above = width_above(a, h);
        assert(row.w@[k - 1] == width_at(asp[row.start + (k - 1)], h));
        width_bounds(a, h);
        width_bounds(a, nom);
        assert(h * c <= nom * (w + 1) + h) by (nonlinear_arith)
            requires
                h * a.w <= above * d,
                above <= w + 1,
                q * d <= nom * a.w,
                c <= q + 1,
                d > 0,
                nom >= 0,
                h >= 0,
        {
            assert(h * a.w <= (w + 1) * d);
            assert(c * d <= nom * a.w + d);
            assert((h * c) * d <= h * (nom * a.w + d));
            assert(h * (nom * a.w + d) == nom * (h * a.w) + h * d);
            assert(nom * (h * a.w) <= nom * ((w + 1) * d));
            assert((h * c) * d <= (nom * (w + 1) + h) * d);
        }
        let t = total(row.w@, k - 1);
        let r = p.run(asp, row.start as int, row.start + k - 1);
        assert(h * (r + c) <= nom * (t + w) + k * (h + nom)) by (nonlinear_arith)
            requires
                h * r <= nom * t + (k - 1) * (h + nom),
                h * c <= nom * (w + 1) + h,
        ;
    } else {
        assert(nom * 0 == 0 && h * 0 == 0 && 0 * (h + nom) == 0) by (nonlinear_arith);
    }
}

/// No tile is narrower than nine sixteenths of its height, to the micropixel.
pub(crate) proof fn width_is_ample(a: Aspect, h: int)
    requires
        a.wf(),
        h >= 0,
    ensures
        16 * width_at(a, h) + 16 >= 9 * h,
{
    width_bounds(a, h);
    let w = width_at(a, h);
    let above = width_above(a, h);
    let d = a.h as int;
    assert(16 * w + 16 >= 9 * h) by (nonlinear_arith)
        requires
            h * a.w <= above * d,
            above <= w + 1,
            9 * d <= 16 * a.w,
            d > 0,
            h >= 0,
    {
        assert(9 * (h * d) <= 16 * (h * a.w));
        assert(16 * (h * a.w) <= 16 * ((w + 1) * d));
        assert((9 * h) * d <= (16 * w + 16) * d);
    }
}

/// Nor is a run of tiles.
proof fn tiles_are_ample(asp: Seq<Aspect>, row: FlexRow, gap: int, left: int, k: int)
    requires
        all_shown(asp),
        row.strip(asp, gap, left),
        row.h >= 0,
        0 <= k <= row.w@.len(),
    ensures
        9 * (row.h * k) <= 16 * total(row.w@, k) + 16 * k,
    decreases k,
{
    let h = row.h as int;
    if k > 0 {
        tiles_are_ample(asp, row, gap, left, k - 1);
        assert(row.w@[k - 1] == width_at(asp[row.start + (k - 1)], h));
        width_is_ample(asp[row.start + (k - 1)], h);
        assert(h * k == h * (k - 1) + h) by (nonlinear_arith);
    } else {
        assert(h * 0 == 0) by (nonlinear_arith);
    }
}

/// A row as tall as spanning asks for ends at the window's right margin, less than
/// half a pixel before it, in any window up to three hundred thousand pixels wide.
pub proof fn justified_row_spans(p: Pane, asp: Seq<Aspect>, row: FlexRow)
    requires
        p.wf(),
        all_shown(asp),
        p.vw <= 300_000 * PIXEL,
        row.strip(asp, p.gap as int, p.gap as int),
        row.h == p.nominal * p.usable(row.end - row.start) / p.run(
            asp,
            row.start as int,
            row.end as int,
        ),
        p.nominal <= 10 * row.h + 10,
        p.vw - p.gap * (row.end - row.start + 1) >= PIXEL,
    ensures
        row.x@.last() + row.w@.last() <= p.vw - p.gap,
        2 * (p.vw - p.gap - (row.x@.last() + row.w@.last())) < PIXEL,
{
    let cnt = row.end - row.start;
    let gap = p.gap as int;
    let run = p.run(asp, row.start as int, row.end as int);
    let u = p.usable(cnt);
    let nom = p.nominal as int;
    let h = row.h as int;
    let t = total(row.w@, cnt);
    run_grows(p, asp, row.start as int, row.end as int);
    justified_row_fits(p, asp, row);
    strip_right_edge(row, asp, gap, gap, cnt - 1);
    tiles_shrink_little(p, asp, row, gap, gap, cnt);
    tiles_are_ample(asp, row, gap, gap, cnt);
    lemma_fundamental_div_mod(nom * u, run);
    assert(gap + gap * (cnt - 1) + gap == gap * (cnt + 1)) by (nonlinear_arith);
    assert(t <= u);
    let rem = (nom * u) % run;
    assert(h * run + rem == nom * u) by (nonlinear_arith)
        requires
            run * h + rem == nom * u,
    ;
    assert(0 <= gap * (cnt + 1)) by (nonlinear_arith)
        requires
            gap >= 0,
            cnt >= 0,
    ;
    assert(run <= 150_000 * nom) by (nonlinear_arith)
        requires
            h >= 2_000_000,
            run > 0,
            nom > 0,
            h * run <= nom * u,
            0 <= u <= 300_000_000_000,
    {
        assert(2_000_000 * run <= h * run);
        assert(nom * u <= nom * 300_000_000_000);
    }
    assert(2_000_000 * cnt <= h * cnt) by (nonlinear_arith)
        requires
            h >= 2_000_000,
            cnt >= 0,
    ;
    assert(cnt <= 267_000);
    assert(h * cnt <= 540_000_000_000);
    assert(cnt * (h + nom) <= 290_000 * nom) by (nonlinear_arith)
        requires
            0 <= cnt <= 267_000,
            h * cnt <= 540_000_000_000,
            nom >= 24_000_000,
    {
        assert(cnt * nom <= 267_000 * nom);
        assert(540_000_000_000 <= 23_000 * nom);
        assert(cnt * (h + nom) == h * cnt + cnt * nom);
    }
    assert(nom * (u - t) <= 440_000 * nom) by (nonlinear_arith)
        requires
            h * run <= nom * t + cnt * (h + nom),
            h * run + rem == nom * u,
            rem < run,
            run <= 150_000 * nom,
            cnt * (h + nom) <= 290_000 * nom,
    ;
    assert(u - t <= 440_000) by (nonlinear_arith)
        requires
            nom * (u - t) <= 440_000 * nom,
            nom > 0,
    ;
}

/// A strip laid from `left` ends so far right.
proof fn strip_end(row: FlexRow, asp: Seq<Aspect>, gap: int, left: int)
    requires
        row.strip(asp, gap, left),
    ensures
        row.x@.last() + row.w@.last() == left + total(row.w@, row.w@.len() as int) + gap * (
        row.end - row.start - 1),
{
    strip_right_edge(row, asp, gap, left, row.end - row.start - 1);
}

/// Every row's height lies within the limits, and the last row does not grow.
pub proof fn row_height_within_limits(p: Pane, asp: Seq<Aspect>, s: int, e: int)
    requires
        p.wf(),
        all_shown(asp),
        0 <= s < e <= asp.len(),
    ensures
        p.nominal * p.rmin / (WHOLE as int) <= p.row_height(asp, s, e) <= p.nominal * p.rmax / (
        WHOLE as int),
        e == asp.len() ==> p.row_height(asp, s, e) <= p.nominal,
{
    height_products(p, 0);
}


impl Pane {
    /// The row `s..e` need not shrink below the smallest height to fit.
    pub open spec fn fits(self, asp: Seq<Aspect>, s: int, e: int) -> bool {
        self.usable(e - s) * WHOLE >= self.rmin * self.run(asp, s, e)
    }

    /// The longest row from `s` that ends at `e` or earlier and fits; a row
    /// keeps at least one clip.
    pub open spec fn heal(self, asp: Seq<Aspect>, s: int, e: int) -> int
        decreases e - s,
    {
        if e > s + 1 && !self.fits(asp, s, e) {
            self.heal(asp, s, e - 1)
        } else {
            e
        }
    }

    /// The end that a list of row starts proposes for the row from `s`, whose
    /// successor stands at `seed` in the list.
    pub open spec fn seed_end(self, asp: Seq<Aspect>, starts: Seq<usize>, seed: int) -> int {
        if 0 <= seed < starts.len() {
            starts[seed] as int
        } else {
            asp.len() as int
        }
    }

    /// The rows that a list of row starts gives, as start and end, from the
    /// row that starts at `s` on: each proposed row, healed. A row that gave
    /// clips away leaves its proposed end to the row below.
    pub open spec fn packed(self, asp: Seq<Aspect>, starts: Seq<usize>, s: int, seed: int) -> Seq<
        (int, int),
    >
        decreases asp.len() - s,
    {
        if s >= asp.len() {
            Seq::empty()
        } else {
            let e = self.packed_end(asp, starts, s, seed);
            let next = if e >= self.seed_end(asp, starts, seed) {
                seed + 1
            } else {
                seed
            };
            if e <= s || e > asp.len() {
                Seq::empty()
            } else {
                seq![(s, e)] + self.packed(asp, starts, e, next)
            }
        }
    }

    pub open spec fn packed_end(self, asp: Seq<Aspect>, starts: Seq<usize>, s: int, seed: int) -> int {
        let proposed = self.seed_end(asp, starts, seed);
        let e = if proposed < s + 1 {
            s + 1
        } else if proposed > asp.len() {
            asp.len() as int
        } else {
            proposed
        };
        self.heal(asp, s, e)
    }

    /// The height of a settled row and whether it keeps its slack on the left:
    /// rows that must shrink do; the last row does not grow; a first row far
    /// from full stays as it is, indented; others are justified.
    pub open spec fn settled_height(self, asp: Seq<Aspect>, s: int, e: int) -> (int, bool) {
        let run = self.run(asp, s, e);
        let u = self.usable(e - s);
        let raw = self.nominal * u / run;
        if u <= run {
            let lo = self.nominal * self.rmin / (WHOLE as int);
            (
                if raw < lo {
                    lo
                } else {
                    raw
                },
                false,
            )
        } else if e >= asp.len() {
            (self.nominal as int, false)
        } else if s == 0 && 100 * u >= 135 * run {
            (self.nominal as int, true)
        } else {
            let hi = self.nominal * self.rmax / (WHOLE as int);
            (
                if raw > hi {
                    hi
                } else {
                    raw
                },
                false,
            )
        }
    }
}

/// The tiles `start..end` added up at the nominal height.
fn run_of(p: &Pane, asp: &Vec<Aspect>, start: usize, end: usize) -> (sum: i128)
    requires
        p.wf(),
        all_shown(asp@),
        start <= end <= asp.len(),
    ensures
        sum == p.run(asp@, start as int, end as int),
        end - start <= sum <= (end - start) * (3 * LENGTH_LIMIT),
{
    let mut sum: i128 = 0;
    let mut i: usize = start;
    while i < end
        invariant
            p.wf(),
            all_shown(asp@),
            start <= i <= end <= asp.len(),
            sum == p.run(asp@, start as int, i as int),
            i - start <= sum <= (i - start) * (3 * LENGTH_LIMIT),
        decreases end - i,
    {
        proof {
            run_grows(*p, asp@, start as int, i as int);
            run_grows(*p, asp@, start as int, i + 1);
            width_bounds(asp@[i as int], p.nominal as int);
            run_bound(i + 1 - start);
        }
        sum = sum + tile_width_above(asp[i], p.nominal);
        i += 1;
    }
    sum
}

proof fn run_bound(k: int)
    requires
        1 <= k <= usize::MAX,
    ensures
        k * (3 * LENGTH_LIMIT) == (k - 1) * (3 * LENGTH_LIMIT) + 3 * LENGTH_LIMIT,
        0 <= k * (3 * LENGTH_LIMIT) <= 60_000_000_000_000_000_000_000_000_000_000,
{
    assert(usize::MAX <= 18_446_744_073_709_551_615);
    assert(k * (3 * LENGTH_LIMIT) == (k - 1) * (3 * LENGTH_LIMIT) + 3 * LENGTH_LIMIT)
        by (nonlinear_arith);
    assert(k * (3 * LENGTH_LIMIT) <= 18_446_744_073_709_551_615 * 3_000_000_000_000)
        by (nonlinear_arith)
        requires
            0 <= k <= 18_446_744_073_709_551_615,
            LENGTH_LIMIT == 1_000_000_000_000,
    ;
    assert(k * (3 * LENGTH_LIMIT) >= 0) by (nonlinear_arith)
        requires
            k >= 0,
            LENGTH_LIMIT >= 0,
    ;
}

/// Whether the row `start..end` need not shrink below the smallest height.
pub fn row_fits(p: &Pane, asp: &Vec<Aspect>, start: usize, end: usize) -> (r: bool)
    requires
        p.wf(),
        all_shown(asp@),
        start < end <= asp.len(),
    ensures
        r == p.fits(asp@, start as int, end as int),
{
    let sum: i128 = run_of(p, asp, start, end);
    let room: i128 = usable(p, end - start);
    proof {
        run_bound(end - start);
        assert(0 <= p.rmin * sum <= 1_000_000 * 60_000_000_000_000_000_000_000_000_000_000)
            by (nonlinear_arith)
            requires
                0 <= p.rmin <= 1_000_000,
                0 <= sum <= 60_000_000_000_000_000_000_000_000_000_000,
        ;
    }
    room * WHOLE >= p.rmin * sum
}

/// Hands trailing clips down until the row `start..end` fits.
fn heal_row(p: &Pane, asp: &Vec<Aspect>, start: usize, end: usize) -> (r: usize)
    requires
        p.wf(),
        all_shown(asp@),
        start < end <= asp.len(),
    ensures
        r == p.heal(asp@, start as int, end as int),
        start < r <= end,
{
    let mut e: usize = end;
    while e > start + 1
        invariant_except_break
            p.heal(asp@, start as int, e as int) == p.heal(asp@, start as int, end as int),
        invariant
            p.wf(),
            all_shown(asp@),
            start < e <= end <= asp.len(),
        ensures
            e == p.heal(asp@, start as int, end as int),
        decreases e,
    {
        if row_fits(p, asp, start, e) {
            break;
        }
        e -= 1;
    }
    e
}

fn settled_height(p: &Pane, asp: &Vec<Aspect>, start: usize, end: usize) -> (r: (i128, bool))
    requires
        p.wf(),
        all_shown(asp@),
        start < end <= asp.len(),
    ensures
        (r.0 as int, r.1) == p.settled_height(asp@, start as int, end as int),
        0 <= r.0 <= 4 * LENGTH_LIMIT,
{
    let sum: i128 = run_of(p, asp, start, end);
    let room: i128 = usable(p, end - start);
    proof {
        run_bound(end - start);
        height_products(*p, room as int);
        assert(p.nominal * room / (sum as int) >= 0) by (nonlinear_arith)
            requires
                p.nominal * room >= 0,
                sum > 0,
        ;
        if room <= sum {
            lemma_fundamental_div_mod(p.nominal * room, sum as int);
            assert(p.nominal * room / (sum as int) <= p.nominal) by (nonlinear_arith)
                requires
                    sum > 0,
                    p.nominal >= 0,
                    0 <= room <= sum,
                    sum * (p.nominal * room / (sum as int)) + (p.nominal * room) % (sum as int)
                        == p.nominal * room,
                    0 <= (p.nominal * room) % (sum as int),
            ;
        }
    }
    let raw: i128 = p.nominal * room / sum;
    if room <= sum {
        let lo: i128 = p.nominal * p.rmin / WHOLE;
        (
            if raw < lo {
                lo
            } else {
                raw
            },
            false,
        )
    } else if end >= asp.len() {
        (p.nominal, false)
    } else if start == 0 && 100 * room >= 135 * sum {
        (p.nominal, true)
    } else {
        let hi: i128 = p.nominal * p.rmax / WHOLE;
        (
            if raw > hi {
                hi
            } else {
                raw
            },
            false,
        )
    }
}


/// Healing keeps at least one clip and takes none in.
proof fn heal_bounds(p: Pane, asp: Seq<Aspect>, s: int, e: int)
    requires
        s < e,
    ensures
        s < p.heal(asp, s, e) <= e,
        p.fits(asp, s, p.heal(asp, s, e)) || p.heal(asp, s, e) == s + 1,
    decreases e - s,
{
    if e > s + 1 && !p.fits(asp, s, e) {
        heal_bounds(p, asp, s, e - 1);
    }
}

/// The rows that a packing gives, as start and end.
pub open spec fn spans(rows: Seq<FlexRow>) -> Seq<(int, int)> {
    rows.map_values(|r: FlexRow| (r.start as int, r.end as int))
}

/// The left edge of a settled row: at the margin, or, where the row keeps its
/// slack on the left, so that it ends at the right margin.
pub open spec fn settled_left(p: Pane, row: FlexRow, indented: bool) -> int {
    let slack = p.vw - p.gap * (row.end - row.start + 1) - total(
        row.w@,
        row.w@.len() as int,
    );
    if indented && slack > 0 {
        p.gap + slack
    } else {
        p.gap as int
    }
}

/// Rebuilds a packing's geometry from its row starts. The starts are a
/// proposal: a row that no longer fits hands clips down to the next. Without
/// a first row at the first clip, or with a row past the end, there is no
/// packing to rebuild.
pub fn build_ribbon_flex(p: &Pane, asp: &Vec<Aspect>, starts: &Vec<usize>) -> (g: Option<FlexGrid>)
    requires
        p.wf(),
        all_shown(asp@),
        asp@.len() < usize::MAX,
    ensures
        g is Some <==> {
            &&& starts@.len() > 0
            &&& starts@[0] == 0
            &&& starts@.last() < asp@.len()
        },
        g matches Some(g) ==> {
            &&& g.wf(asp@.len() as int, p.gap as int)
            &&& spans(g.rows@) == p.packed(asp@, starts@, 0, 1)
            &&& forall|r: int|
                0 <= r < g.rows@.len() ==> {
                    let row = #[trigger] g.rows@[r];
                    let (h, indented) = p.settled_height(asp@, row.start as int, row.end as int);
                    &&& row.h == h
                    &&& row.h <= 4 * LENGTH_LIMIT
                    &&& row.strip(asp@, p.gap as int, settled_left(*p, row, indented))
                }
        },
{
    let n: usize = asp.len();
    if starts.len() == 0 || starts[0] != 0 || starts[starts.len() - 1] >= n {
        return None;
    }
    let mut rows: Vec<FlexRow> = Vec::new();
    let mut y: i128 = p.gap;
    let mut start: usize = 0;
    let mut seed: usize = 1;
    while start < n
        invariant
            p.wf(),
            all_shown(asp@),
            n == asp.len(),
            n < usize::MAX,
            start <= n,
            seed <= start + 1,
            p.gap <= y <= p.gap + start * (5 * LENGTH_LIMIT),
            start == 0 <==> rows@.len() == 0,
            rows@.len() > 0 ==> rows@[0].start == 0 && rows@[0].y == p.gap && rows@.last().end
                == start,
            y == bottom(rows@, p.gap as int),
            spans(rows@) + p.packed(asp@, starts@, start as int, seed as int) == p.packed(
                asp@,
                starts@,
                0,
                1,
            ),
            forall|r: int|
                0 <= r < rows@.len() ==> {
                    let row = #[trigger] rows@[r];
                    let (h, indented) = p.settled_height(asp@, row.start as int, row.end as int);
                    &&& row.start < row.end <= n
                    &&& 0 <= row.h <= 4 * LENGTH_LIMIT
                    &&& row.h == h
                    &&& row.strip(asp@, p.gap as int, settled_left(*p, row, indented))
                },
            forall|r: int|
                0 < r < rows@.len() ==> {
                    &&& (#[trigger] rows@[r]).start == rows@[r - 1].end
                    &&& rows@[r].y == rows@[r - 1].y + rows@[r - 1].h + p.gap
                },
        decreases n - start,
    {
        let proposed: usize = if seed < starts.len() {
            starts[seed]
        } else {
            n
        };
        let clamped: usize = if proposed < start + 1 {
            start + 1
        } else if proposed > n {
            n
        } else {
            proposed
        };
        let end: usize = heal_row(p, asp, start, clamped);
        let (h, indented) = settled_height(p, asp, start, end);
        let row = settled_row(p, asp, start, end, y, h, indented);
        let ghost old_rows = rows@;
        proof {
            let next = if end >= proposed {
                seed + 1
            } else {
                seed as int
            };
            assert(p.packed(asp@, starts@, start as int, seed as int) == seq![
                (start as int, end as int),
            ] + p.packed(asp@, starts@, end as int, next));
            assert(spans(rows@.push(row)) =~= spans(rows@).push((start as int, end as int)));
            assert(spans(rows@.push(row)) + p.packed(asp@, starts@, end as int, next) =~= spans(
                rows@,
            ) + (seq![(start as int, end as int)] + p.packed(asp@, starts@, end as int, next)));
            assert((start + 1) * (5 * LENGTH_LIMIT) <= end * (5 * LENGTH_LIMIT)
                <= 18_446_744_073_709_551_615 * 5_000_000_000_000) by (nonlinear_arith)
                requires
                    0 <= start + 1 <= end <= 18_446_744_073_709_551_615,
                    LENGTH_LIMIT == 1_000_000_000_000,
            ;
            assert((start + 1) * (5 * LENGTH_LIMIT) == start * (5 * LENGTH_LIMIT) + 5
                * LENGTH_LIMIT) by (nonlinear_arith);
        }
        rows.push(row);
        if end >= proposed {
            seed += 1;
        }
        y = y + h + p.gap;
        start = end;
    }
    proof {
        assert(p.packed(asp@, starts@, n as int, seed as int) =~= Seq::<(int, int)>::empty());
        assert(spans(rows@) + Seq::<(int, int)>::empty() =~= spans(rows@));
    }
    Some(FlexGrid { rows, height: y })
}

/// Lays a settled row out, at the margin or against the right one.
fn settled_row(
    p: &Pane,
    asp: &Vec<Aspect>,
    start: usize,
    end: usize,
    y: i128,
    h: i128,
    indented: bool,
) -> (row: FlexRow)
    requires
        p.wf(),
        all_shown(asp@),
        start < end <= asp.len(),
        0 <= h <= 4 * LENGTH_LIMIT,
    ensures
        row.strip(asp@, p.gap as int, settled_left(*p, row, indented)),
        row.start == start,
        row.end == end,
        row.y == y,
        row.h == h,
{
    let row = lay_row(asp, p.gap, start, end, y, h, p.gap);
    if !indented {
        return row;
    }
    let k: usize = end - start - 1;
    proof {
        strip_right_edge(row, asp@, p.gap as int, p.gap as int, k as int);
        strip_bounds(row, asp@, p.gap as int, p.gap as int, k as int);
        assert(p.gap + p.gap * k + p.gap == p.gap * (k + 2)) by (nonlinear_arith);
    }
    let right: i128 = row.x[k] + row.w[k];
    if right >= p.vw - p.gap {
        return row;
    }
    let shifted = lay_row(asp, p.gap, start, end, y, h, p.gap + (p.vw - p.gap - right));
    proof {
        assert(row.w@ =~= shifted.w@);
    }
    shifted
}

/// The tiles of a strip lie no further out than their number allows.
pub proof fn strip_bounds(row: FlexRow, asp: Seq<Aspect>, gap: int, left: int, k: int)
    requires
        row.strip(asp, gap, left),
        all_shown(asp),
        0 <= row.h <= 4 * LENGTH_LIMIT,
        0 <= gap <= LENGTH_LIMIT,
        0 <= left <= LENGTH_LIMIT,
        0 <= k < row.x@.len(),
    ensures
        left <= row.x@[k] <= left + k * (13 * LENGTH_LIMIT),
        0 <= row.w@[k] <= 12 * LENGTH_LIMIT,
        k * (13 * LENGTH_LIMIT) <= 400_000_000_000_000_000_000_000_000_000_000,
    decreases k,
{
    width_bounds(asp[row.start + k], row.h as int);
    if k > 0 {
        strip_bounds(row, asp, gap, left, k - 1);
        assert(k * (13 * LENGTH_LIMIT) == (k - 1) * (13 * LENGTH_LIMIT) + 13 * LENGTH_LIMIT)
            by (nonlinear_arith);
    }
    assert(k * (13 * LENGTH_LIMIT) <= 18_446_744_073_709_551_615 * 13_000_000_000_000)
        by (nonlinear_arith)
        requires
            0 <= k <= 18_446_744_073_709_551_615,
            LENGTH_LIMIT == 1_000_000_000_000,
    ;
}

/// A settled row that fits is no lower than a tenth of the nominal height, as tall
/// as spanning asks for where it must shrink, and where it grows as tall as that
/// or as the largest height.
pub(crate) proof fn settled_height_is_ample(p: Pane, asp: Seq<Aspect>, s: int, e: int)
    requires
        p.wf(),
        all_shown(asp),
        0 <= s < e <= asp.len(),
        p.fits(asp, s, e),
    ensures
        ({
            let (h, indented) = p.settled_height(asp, s, e);
            let raw = p.nominal * p.usable(e - s) / p.run(asp, s, e);
            &&& p.run(asp, s, e) > 0
            &&& p.nominal <= 10 * h + 10
            &&& h <= 4 * p.nominal || h == raw
            &&& p.usable(e - s) <= p.run(asp, s, e) ==> h == raw && h <= p.nominal
            &&& p.usable(e - s) > p.run(asp, s, e) ==> raw >= p.nominal
        }),
{
    let nom = p.nominal as int;
    let rmin = p.rmin as int;
    let u = p.usable(e - s);
    let run = p.run(asp, s, e);
    run_grows(p, asp, s, e);
    lemma_fundamental_div_mod(nom * u, run);
    let raw = nom * u / run;
    let lo = nom * rmin / (WHOLE as int);
    assert(10 * lo + 10 >= nom) by (nonlinear_arith)
        requires
            lo == nom * rmin / 1_000_000,
            nom >= 0,
            rmin >= 100_000,
    {
        assert(nom * rmin >= nom * 100_000);
    }
    assert(lo >= 0 && nom * rmin >= lo * 1_000_000) by (nonlinear_arith)
        requires
            lo == nom * rmin / 1_000_000,
            nom >= 0,
            rmin >= 0,
    ;
    assert(raw >= lo) by (nonlinear_arith)
        requires
            u * 1_000_000 >= rmin * run,
            nom * rmin >= lo * 1_000_000,
            lo >= 0,
            nom > 0,
            run > 0,
            run * raw + (nom * u) % run == nom * u,
            (nom * u) % run < run,
    {
        assert((nom * u) * 1_000_000 >= nom * (rmin * run));
        assert(nom * (rmin * run) == (nom * rmin) * run);
        assert((nom * rmin) * run >= (lo * 1_000_000) * run);
        assert((lo * 1_000_000) * run == (lo * run) * 1_000_000);
        assert(nom * u >= lo * run);
        assert(run * raw + run > lo * run);
        assert(run * (raw + 1 - lo) > 0);
    }
    if u <= run {
        assert(raw <= nom) by (nonlinear_arith)
            requires
                0 < run,
                u <= run,
                nom > 0,
                run * raw + (nom * u) % run == nom * u,
                0 <= (nom * u) % run,
        {
            assert(nom * u <= nom * run);
            assert(run * raw <= run * nom);
        }
    } else {
        assert(raw >= nom) by (nonlinear_arith)
            requires
                0 < run,
                u > run,
                nom > 0,
                run * raw + (nom * u) % run == nom * u,
                (nom * u) % run < run,
        {
            assert(nom * u >= nom * run);
            assert(run * (raw + 1 - nom) > 0);
        }
        let hi = nom * p.rmax / (WHOLE as int);
        assert(nom <= hi <= 4 * nom) by (nonlinear_arith)
            requires
                hi == nom * p.rmax / 1_000_000,
                1_000_000 <= p.rmax <= 4_000_000,
                nom >= 0,
        {
            assert(nom * 1_000_000 <= nom * p.rmax <= nom * 4_000_000);
        }
    }
}

/// A settled row ends at the right margin, unless it is the last one less than half
/// a pixel before it.
#[verifier::rlimit(40)]
pub proof fn settled_row_meets_the_margin(p: Pane, asp: Seq<Aspect>, row: FlexRow)
    requires
        p.wf(),
        all_shown(asp),
        p.vw <= 300_000 * PIXEL,
        row.start < row.end <= asp.len(),
        ({
            let (h, indented) = p.settled_height(asp, row.start as int, row.end as int);
            row.h == h && row.strip(asp, p.gap as int, settled_left(p, row, indented))
        }),
        p.vw - p.gap * (row.end - row.start + 1) >= PIXEL,
        p.fits(asp, row.start as int, row.end as int),
        row.end == asp.len() || (row.start == 0 && 100 * p.usable(row.end - row.start) >= 135
            * p.run(asp, row.start as int, row.end as int)) || p.nominal * p.usable(
            row.end - row.start,
        ) / p.run(asp, row.start as int, row.end as int) <= p.nominal * p.rmax / (WHOLE as int),
    ensures
        row.x@.last() + row.w@.last() <= p.vw - p.gap,
        row.end < asp.len() ==> 2 * (p.vw - p.gap - (row.x@.last() + row.w@.last())) < PIXEL,
        row.x@[0] >= p.gap,
        row.start > 0 ==> row.x@[0] == p.gap,
{
    let (s, e) = (row.start as int, row.end as int);
    let gap = p.gap as int;
    let nom = p.nominal as int;
    let cnt = e - s;
    let (h, indented) = p.settled_height(asp, s, e);
    let u = p.usable(cnt);
    let run = p.run(asp, s, e);
    settled_height_is_ample(p, asp, s, e);
    if indented {
        let left = settled_left(p, row, true);
        let t = total(row.w@, cnt);
        tiles_shrink_in_proportion(p, asp, row, gap, left, cnt);
        assert(t <= run) by (nonlinear_arith)
            requires
                nom * t <= nom * run,
                nom > 0,
        ;
        strip_end(row, asp, gap, left);
        assert(gap * (cnt + 1) == gap + gap * (cnt - 1) + gap) by (nonlinear_arith);
    } else {
        justified_row_fits(p, asp, row);
        if e < asp.len() {
            justified_row_spans(p, asp, row);
        }
    }
}

/// A list of row starts whose rows all fit is rebuilt with exactly those rows.
pub proof fn fitting_packing_is_kept(p: Pane, asp: Seq<Aspect>, starts: Seq<usize>, k: int)
    requires
        0 <= k < starts.len(),
        starts.last() < asp.len(),
        forall|i: int, j: int| 0 <= i < j < starts.len() ==> starts[i] < starts[j],
        forall|i: int|
            #![trigger starts[i]]
            0 <= i < starts.len() ==> p.fits(
                asp,
                starts[i] as int,
                p.seed_end(asp, starts, i + 1),
            ),
    ensures
        p.packed(asp, starts, starts[k] as int, k + 1).len() == starts.len() - k,
        forall|i: int|
            k <= i < starts.len() ==> #[trigger] p.packed(
                asp,
                starts,
                starts[k] as int,
                k + 1,
            )[i - k] == (starts[i] as int, p.seed_end(asp, starts, i + 1)),
    decreases starts.len() - k,
{
    let s = starts[k] as int;
    let e = p.seed_end(asp, starts, k + 1);
    assert(starts[k] <= starts.last());
    assert(p.fits(asp, s, e));
    assert(e > s && e <= asp.len()) by {
        if k + 1 < starts.len() {
            assert(starts[k] < starts[k + 1]);
            assert(starts[k + 1] <= starts.last());
        }
    }
    assert(p.packed_end(asp, starts, s, k + 1) == e);
    if k + 1 < starts.len() {
        fitting_packing_is_kept(p, asp, starts, k + 1);
        assert forall|i: int| k <= i < starts.len() implies #[trigger] p.packed(
            asp,
            starts,
            s,
            k + 1,
        )[i - k] == (starts[i] as int, p.seed_end(asp, starts, i + 1)) by {
            if i > k {
                assert(p.packed(asp, starts, e, k + 2)[i - (k + 1)] == (
                    starts[i] as int,
                    p.seed_end(asp, starts, i + 1),
                ));
            }
        }
    } else {
        assert(p.packed(asp, starts, e, k + 2) =~= Seq::<(int, int)>::empty());
    }
}

} // verus!
