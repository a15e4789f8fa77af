//! Where things lie on the views: the video, the seekbar, the chips. Lengths are
//! in micropixels, places along a row of chips in millionths of a chip, fractions
//! in billionths.

use vstd::prelude::*;

use crate::flex::{tile_width, Aspect, LENGTH_LIMIT, PIXEL, WHOLE};
use crate::grid::Rect;

verus! {

/// The larger of two lengths.
pub open spec fn at_least(a: int, b: int) -> int {
    if a < b {
        b
    } else {
        a
    }
}

/// `a` within `lo` and `hi`.
pub open spec fn within(a: int, lo: int, hi: int) -> int {
    if a < lo {
        lo
    } else if a > hi {
        hi
    } else {
        a
    }
}

fn clamp(a: i128, lo: i128, hi: i128) -> (r: i128)
    ensures
        r == within(a as int, lo as int, hi as int),
{
    if a < lo {
        lo
    } else if a > hi {
        hi
    } else {
        a
    }
}

/// The row of chips at the window's bottom: the height of its chips, the width
/// of one of 16:9, and the upper edge.
#[derive(Clone, Copy, PartialEq, Eq, Structural, Debug)]
pub struct Strip {
    pub cw: i128,
    pub ch: i128,
    pub y: i128,
}

/// The strip for chips of a height, at least 24 pixels, in a window of height
/// `vh`.
pub open spec fn strip_for(height: int, vh: int) -> Strip {
    let ch = at_least(height, 24 * PIXEL);
    Strip { cw: (ch * 16 / 9) as i128, ch: ch as i128, y: (vh - ch - 22 * PIXEL) as i128 }
}

/// The row of chips for a window of height `vh`.
pub fn strip_geom(height: i128, vh: i128) -> (s: Strip)
    requires
        height <= LENGTH_LIMIT,
        0 <= vh <= LENGTH_LIMIT,
    ensures
        s == strip_for(height as int, vh as int),
{
    let ch: i128 = if height < 24 * PIXEL {
        24 * PIXEL
    } else {
        height
    };
    Strip { cw: ch * 16 / 9, ch, y: vh - ch - 22 * PIXEL }
}

/// The size of a picture of `tw` by `th` as large as it fits `w` by `h`.
pub open spec fn fit_in(tw: int, th: int, w: int, h: int) -> (int, int) {
    let d = at_least(th, 1);
    if tw * h > w * d {
        (w, w * d / tw)
    } else {
        (h * tw / d, h)
    }
}

fn fit(tw: u32, th: u32, w: i128, h: i128) -> (r: (i128, i128))
    requires
        0 <= w <= LENGTH_LIMIT,
        0 <= h <= LENGTH_LIMIT,
    ensures
        (r.0 as int, r.1 as int) == fit_in(tw as int, th as int, w as int, h as int),
        0 <= r.0 <= w,
        0 <= r.1 <= h,
{
    let d: i128 = if th < 1 {
        1
    } else {
        th as i128
    };
    let a: i128 = tw as i128;
    proof {
        length_product(a as int, h as int);
        length_product(d as int, w as int);
    }
    if a * h > w * d {
        proof {
            assert(a > 0) by (nonlinear_arith)
                requires
                    a * h > w * d,
                    a >= 0,
                    w >= 0,
                    d >= 0,
                    h >= 0,
            ;
            assert(0 <= w * d / (a as int) <= h) by (nonlinear_arith)
                requires
                    a > 0,
                    0 <= w * d < a * h,
            ;
        }
        (w, w * d / a)
    } else {
        proof {
            assert(0 <= h * a / (d as int) <= w) by (nonlinear_arith)
                requires
                    d > 0,
                    0 <= a * h <= w * d,
                    h * a == a * h,
            ;
        }
        (h * a / d, h)
    }
}

proof fn length_product(a: int, l: int)
    requires
        0 <= a <= 0xffff_ffff,
        0 <= l <= LENGTH_LIMIT,
    ensures
        0 <= a * l <= 0xffff_ffff * 1_000_000_000_000,
        0 <= l * a <= 0xffff_ffff * 1_000_000_000_000,
        l * a == a * l,
{
    assert(0 <= a * l <= 0xffff_ffff * 1_000_000_000_000 && l * a == a * l) by (nonlinear_arith)
        requires
            0 <= a <= 0xffff_ffff,
            0 <= l <= 1_000_000_000_000,
    ;
}

/// Where the quick view shows a video of `tw` by `th`: in the middle of what the
/// strip leaves free.
pub open spec fn quickview_place(vw: int, strip_y: int, tw: int, th: int) -> Rect {
    let free = at_least(strip_y - 18 * PIXEL, 60 * PIXEL);
    let (w, h) = fit_in(tw, th, vw * 88 / 100, free * 92 / 100);
    Rect {
        x: ((vw - w) / 2) as i128,
        y: ((free - h) / 2 + 6 * PIXEL) as i128,
        w: w as i128,
        h: h as i128,
    }
}

/// Where the quick view shows a video of `tw` by `th`.
pub fn quickview_rect(vw: i128, strip_y: i128, tw: u32, th: u32) -> (r: Rect)
    requires
        0 <= vw <= LENGTH_LIMIT,
        -LENGTH_LIMIT <= strip_y <= LENGTH_LIMIT,
    ensures
        r == quickview_place(vw as int, strip_y as int, tw as int, th as int),
{
    let free: i128 = if strip_y - 18 * PIXEL < 60 * PIXEL {
        60 * PIXEL
    } else {
        strip_y - 18 * PIXEL
    };
    let (w, h) = fit(tw, th, vw * 88 / 100, free * 92 / 100);
    Rect { x: (vw - w) / 2, y: (free - h) / 2 + 6 * PIXEL, w, h }
}

/// Where the full view shows a video of `tw` by `th`: as large as the window
/// allows, in its middle.
pub open spec fn fullview_place(vw: int, vh: int, tw: int, th: int) -> Rect {
    let (w, h) = fit_in(tw, th, vw, vh);
    Rect { x: ((vw - w) / 2) as i128, y: ((vh - h) / 2) as i128, w: w as i128, h: h as i128 }
}

/// Where the full view shows a video of `tw` by `th`.
pub fn fullview_rect(vw: i128, vh: i128, tw: u32, th: u32) -> (r: Rect)
    requires
        0 <= vw <= LENGTH_LIMIT,
        0 <= vh <= LENGTH_LIMIT,
    ensures
        r == fullview_place(vw as int, vh as int, tw as int, th as int),
{
    let (w, h) = fit(tw, th, vw, vh);
    Rect { x: (vw - w) / 2, y: (vh - h) / 2, w, h }
}

/// The line of the seekbar: its left end, its width, and its lower edge.
#[derive(Clone, Copy, PartialEq, Eq, Structural, Debug)]
pub struct Line {
    pub x: i128,
    pub w: i128,
    pub bottom: i128,
}

impl Line {
    pub open spec fn wf(self) -> bool {
        &&& -8 * LENGTH_LIMIT <= self.x <= 8 * LENGTH_LIMIT
        &&& 8 * PIXEL <= self.w <= 8 * LENGTH_LIMIT
        &&& -8 * LENGTH_LIMIT <= self.bottom <= 8 * LENGTH_LIMIT
    }
}

/// The seekbar on a video at `r`, inset from its edges and lifted.
pub open spec fn line_on(r: Rect, lift: int) -> Line {
    let px = within(r.w * 5 / 100, 16 * PIXEL as int, 48 * PIXEL as int);
    let py = within(r.h * 5 / 100, 14 * PIXEL as int, 32 * PIXEL as int);
    Line {
        x: (r.x + px) as i128,
        w: at_least(r.w - 2 * px, 8 * PIXEL as int) as i128,
        bottom: (r.y + r.h - py - lift) as i128,
    }
}

/// The seekbar on a video at `r`.
pub fn seekbar_line(r: Rect, lift: i128) -> (l: Line)
    requires
        -LENGTH_LIMIT <= r.x <= LENGTH_LIMIT,
        -LENGTH_LIMIT <= r.y <= LENGTH_LIMIT,
        0 <= r.w <= LENGTH_LIMIT,
        0 <= r.h <= LENGTH_LIMIT,
        0 <= lift <= LENGTH_LIMIT,
    ensures
        l == line_on(r, lift as int),
        l.wf(),
{
    let px: i128 = clamp(r.w * 5 / 100, 16 * PIXEL, 48 * PIXEL);
    let py: i128 = clamp(r.h * 5 / 100, 14 * PIXEL, 32 * PIXEL);
    let w: i128 = r.w - 2 * px;
    Line {
        x: r.x + px,
        w: if w < 8 * PIXEL {
            8 * PIXEL
        } else {
            w
        },
        bottom: r.y + r.h - py - lift,
    }
}

/// How far the seekbar is lifted above a chapter bar that has slid in by `slide`
/// billionths.
pub fn seekbar_lift(fullview: bool, slide: u32, ch: i128) -> (l: i128)
    requires
        slide <= 1_000_000_000,
        0 <= ch <= LENGTH_LIMIT,
    ensures
        l == (if fullview {
            slide * (ch + 34 * PIXEL) / 1_000_000_000
        } else {
            0
        }),
{
    if fullview {
        proof {
            let a = ch + 34 * PIXEL;
            assert(0 <= slide * a <= 1_000_000_000 * 2_000_000_000_000) by (nonlinear_arith)
                requires
                    0 <= slide <= 1_000_000_000,
                    0 <= a <= 2_000_000_000_000,
            ;
        }
        (slide as i128) * (ch + 34 * PIXEL) / 1_000_000_000
    } else {
        0
    }
}

/// The fraction of a line at `x`.
pub open spec fn share_at(l: Line, x: int) -> int {
    if x <= l.x {
        0
    } else if x >= l.x + l.w {
        1_000_000_000
    } else {
        (x - l.x) * 1_000_000_000 / (l.w as int)
    }
}

/// `x`, `y` is on the line or near enough to take hold of it.
pub open spec fn near_line(l: Line, x: int, y: int) -> bool {
    &&& l.bottom - 18 * PIXEL <= y <= l.bottom + 10 * PIXEL
    &&& l.x - 6 * PIXEL <= x <= l.x + l.w + 6 * PIXEL
}

/// The fraction of the seekbar above or below `x`.
pub fn seekbar_frac(l: &Line, x: i128) -> (r: u32)
    requires
        l.wf(),
    ensures
        r == share_at(*l, x as int),
        r <= 1_000_000_000,
{
    if x <= l.x {
        0
    } else if x >= l.x + l.w {
        1_000_000_000
    } else {
        let a: i128 = (x - l.x) * 1_000_000_000;
        proof {
            let w = l.w as int;
            assert(0 <= a / (l.w as i128) <= 1_000_000_000) by (nonlinear_arith)
                requires
                    0 <= a < w * 1_000_000_000,
                    w == l.w,
                    w > 0,
            ;
        }
        (a / l.w) as u32
    }
}

/// The fraction of the seekbar at a pointer that is on it, where the clip's
/// position is known.
pub fn seekbar_hit(l: &Line, x: i128, y: i128, known: bool) -> (r: Option<u32>)
    requires
        l.wf(),
    ensures
        r == (if known && near_line(*l, x as int, y as int) {
            Some(share_at(*l, x as int) as u32)
        } else {
            None
        }),
        r matches Some(f) ==> f <= 1_000_000_000,
{
    if known && l.bottom - 18 * PIXEL <= y && y <= l.bottom + 10 * PIXEL && l.x - 6 * PIXEL <= x && x
        <= l.x + l.w + 6 * PIXEL {
        Some(seekbar_frac(l, x))
    } else {
        None
    }
}

/// The frame of a storyboard of `g` by `g` frames that is nearest to a fraction
/// `part` of `whole`.
pub open spec fn sheet_cell(part: int, whole: int, g: int) -> int {
    let cells = at_least(g, 1) * at_least(g, 1);
    if part <= 0 || whole <= 0 {
        0
    } else {
        let k = part * cells / whole;
        if k > cells - 1 {
            cells - 1
        } else {
            k
        }
    }
}

/// The frame of a storyboard for a position `part` in a clip of length `whole`:
/// its column and its row.
pub fn storyboard_cell(part: i64, whole: i64, g: u32) -> (r: (u64, u64))
    requires
        g <= 1_000,
    ensures
        ({
            let d = at_least(g as int, 1);
            let k = sheet_cell(part as int, whole as int, g as int);
            r.0 == k % d && r.1 == k / d
        }),
{
    let d: i128 = if g < 1 {
        1
    } else {
        g as i128
    };
    proof {
        assert(1 <= d * d <= 1_000_000) by (nonlinear_arith)
            requires
                1 <= d <= 1_000,
        ;
    }
    let cells: i128 = d * d;
    let k: i128 = if part <= 0 || whole <= 0 {
        0
    } else {
        proof {
            assert(0 <= part * cells <= 0x8000_0000_0000_0000 * 1_000_000) by (nonlinear_arith)
                requires
                    0 <= part <= 0x8000_0000_0000_0000,
                    0 <= cells <= 1_000_000,
            ;
            let a = part * cells;
            let w = whole as int;
            assert(0 <= a / w <= a) by (nonlinear_arith)
                requires
                    0 <= a,
                    w >= 1,
            ;
        }
        let k: i128 = (part as i128) * cells / (whole as i128);
        if k > cells - 1 {
            cells - 1
        } else {
            k
        }
    };
    proof {
        assert(0 <= k / (d as i128) <= k) by (nonlinear_arith)
            requires
                0 <= k,
                1 <= d,
        ;
    }
    ((k % d) as u64, (k / d) as u64)
}


/// A chip: its clip, its middle, and its width.
#[derive(Clone, Copy, PartialEq, Eq, Structural, Debug)]
pub struct Chip {
    pub clip: usize,
    pub cx: i128,
    pub w: i128,
}

/// The width of chip `i` at height `ch`.
pub open spec fn chip_width(asp: Seq<Aspect>, i: int, ch: int) -> int {
    crate::flex::width_at(asp[i], ch)
}

/// How far the middles of chip `i` and the next are apart.
pub open spec fn chip_step(asp: Seq<Aspect>, i: int, ch: int, gap: int) -> int {
    (chip_width(asp, i, ch) + chip_width(asp, i + 1, ch)) / 2 + gap
}

/// The chips to the right of chip `i`, whose middle is at `cx`, as far as they
/// or what they grow to can be seen.
pub open spec fn chips_right(asp: Seq<Aspect>, ch: int, gap: int, vw: int, i: int, cx: int) -> Seq<
    Chip,
>
    decreases asp.len() - i,
{
    if i < 0 || i + 1 >= asp.len() {
        Seq::empty()
    } else {
        let c = cx + chip_step(asp, i, ch, gap);
        let w = chip_width(asp, i + 1, ch);
        if c - w / 2 > vw + ch * 3 / 2 {
            Seq::empty()
        } else {
            seq![Chip { clip: (i + 1) as usize, cx: c as i128, w: w as i128 }] + chips_right(
                asp,
                ch,
                gap,
                vw,
                i + 1,
                c,
            )
        }
    }
}

/// The chips to the left of chip `i`, whose middle is at `cx`.
pub open spec fn chips_left(asp: Seq<Aspect>, ch: int, gap: int, i: int, cx: int) -> Seq<Chip>
    decreases i,
{
    if i <= 0 || i >= asp.len() {
        Seq::empty()
    } else {
        let c = cx - chip_step(asp, i - 1, ch, gap);
        let w = chip_width(asp, i - 1, ch);
        if c + w / 2 < -(ch * 3 / 2) {
            Seq::empty()
        } else {
            seq![Chip { clip: (i - 1) as usize, cx: c as i128, w: w as i128 }] + chips_left(
                asp,
                ch,
                gap,
                i - 1,
                c,
            )
        }
    }
}

/// The chip that a place along the strip lies on or after.
pub open spec fn strip_base(pos: int, n: int) -> int {
    if pos <= 0 {
        0
    } else if pos / (WHOLE as int) > n - 1 {
        n - 1
    } else {
        pos / (WHOLE as int)
    }
}

/// Where the middle of the base chip is.
pub open spec fn strip_start(asp: Seq<Aspect>, ch: int, gap: int, vw: int, pos: int) -> int {
    let b = strip_base(pos, asp.len() as int);
    if b + 1 < asp.len() {
        vw / 2 - within(pos - b * WHOLE, 0, WHOLE as int) * chip_step(asp, b, ch, gap) / (
        WHOLE as int)
    } else {
        vw / 2
    }
}

/// The chips of the strip around place `pos`: the one it lies on, those to its
/// right, those to its left.
pub open spec fn strip_chips(asp: Seq<Aspect>, ch: int, gap: int, vw: int, pos: int) -> Seq<Chip> {
    if asp.len() == 0 {
        Seq::empty()
    } else {
        let b = strip_base(pos, asp.len() as int);
        let cx = strip_start(asp, ch, gap, vw, pos);
        seq![Chip { clip: b as usize, cx: cx as i128, w: chip_width(asp, b, ch) as i128 }]
            + chips_right(asp, ch, gap, vw, b, cx) + chips_left(asp, ch, gap, b, cx)
    }
}

proof fn chip_bounds(asp: Seq<Aspect>, i: int, ch: int)
    requires
        0 <= i < asp.len(),
        asp[i].wf(),
        0 <= ch <= LENGTH_LIMIT,
    ensures
        0 <= chip_width(asp, i, ch) <= 3 * LENGTH_LIMIT,
{
    crate::flex::width_bounds(asp[i], ch);
}

/// The chips of the filmstrip that can be seen around place `pos`. Each has the
/// strip's height and its clip's shape.
pub fn strip_layout(asp: &Vec<Aspect>, ch: i128, gap: i128, vw: i128, pos: i64) -> (v: Vec<Chip>)
    requires
        forall|k: int| 0 <= k < asp@.len() ==> (#[trigger] asp@[k]).wf(),
        asp@.len() <= crate::state::MAX_CLIPS,
        0 <= ch <= LENGTH_LIMIT,
        0 <= gap <= LENGTH_LIMIT,
        0 <= vw <= LENGTH_LIMIT,
    ensures
        v@ == strip_chips(asp@, ch as int, gap as int, vw as int, pos as int),
{
    let n: usize = asp.len();
    let mut v: Vec<Chip> = Vec::new();
    if n == 0 {
        return v;
    }
    let base: usize = if pos <= 0 {
        0
    } else if (pos as i128) / WHOLE > n as i128 - 1 {
        n - 1
    } else {
        (pos as i128 / WHOLE) as usize
    };
    let wb: i128 = tile_width(asp[base], ch);
    let cx0: i128 = if base + 1 < n {
        let part: i128 = clamp(pos as i128 - (base as i128) * WHOLE, 0, WHOLE);
        let step: i128 = (wb + tile_width(asp[base + 1], ch)) / 2 + gap;
        proof {
            chip_bounds(asp@, base as int, ch as int);
            chip_bounds(asp@, base + 1, ch as int);
            assert(0 <= part * step <= 1_000_000 * 4_000_000_000_000) by (nonlinear_arith)
                requires
                    0 <= part <= 1_000_000,
                    0 <= step <= 4_000_000_000_000,
            ;
        }
        vw / 2 - part * step / WHOLE
    } else {
        vw / 2
    };
    let ghost total = strip_chips(asp@, ch as int, gap as int, vw as int, pos as int);
    let ghost head = seq![Chip { clip: base, cx: cx0, w: wb }];
    let ghost right = chips_right(asp@, ch as int, gap as int, vw as int, base as int, cx0 as int);
    let ghost left = chips_left(asp@, ch as int, gap as int, base as int, cx0 as int);
    v.push(Chip { clip: base, cx: cx0, w: wb });
    let edge: i128 = ch * 3 / 2;
    let mut i: usize = base;
    let mut cx: i128 = cx0;
    assert(v@ + right =~= head + right);
    while i + 1 < n
        invariant_except_break
            v@ + chips_right(asp@, ch as int, gap as int, vw as int, i as int, cx as int) == head
                + right,
        invariant
            i < n,
            n == asp@.len(),
            n <= crate::state::MAX_CLIPS,
            forall|k: int| 0 <= k < asp@.len() ==> (#[trigger] asp@[k]).wf(),
            0 <= ch <= LENGTH_LIMIT,
            0 <= gap <= LENGTH_LIMIT,
            0 <= vw <= LENGTH_LIMIT,
            edge == ch * 3 / 2,
            -10 * LENGTH_LIMIT <= cx <= 10 * LENGTH_LIMIT,
        ensures
            v@ == head + right,
        decreases n - i,
    {
        let w0: i128 = tile_width(asp[i], ch);
        let w: i128 = tile_width(asp[i + 1], ch);
        let c: i128 = cx + (w0 + w) / 2 + gap;
        proof {
            chip_bounds(asp@, i as int, ch as int);
            chip_bounds(asp@, i + 1, ch as int);
        }
        if c - w / 2 > vw + edge {
            assert(v@ + Seq::<Chip>::empty() =~= v@);
            break;
        }
        let ghost before = v@;
        v.push(Chip { clip: i + 1, cx: c, w });
        i += 1;
        cx = c;
        proof {
            let rest = chips_right(asp@, ch as int, gap as int, vw as int, i as int, cx as int);
            assert(before + (seq![Chip { clip: i, cx: c, w }] + rest) =~= v@ + rest);
            if i + 1 >= n {
                assert(v@ + rest =~= v@);
            }
        }
    }
    assert(v@ + left =~= head + right + left);
    i = base;
    cx = cx0;
    while i > 0
        invariant_except_break
            v@ + chips_left(asp@, ch as int, gap as int, i as int, cx as int) == head + right + left,
        invariant
            i < n,
            n == asp@.len(),
            forall|k: int| 0 <= k < asp@.len() ==> (#[trigger] asp@[k]).wf(),
            0 <= ch <= LENGTH_LIMIT,
            0 <= gap <= LENGTH_LIMIT,
            edge == ch * 3 / 2,
            -10 * LENGTH_LIMIT <= cx <= 10 * LENGTH_LIMIT,
        ensures
            v@ == head + right + left,
        decreases i,
    {
        let w0: i128 = tile_width(asp[i], ch);
        let w: i128 = tile_width(asp[i - 1], ch);
        let c: i128 = cx - ((w + w0) / 2 + gap);
        proof {
            chip_bounds(asp@, i as int, ch as int);
            chip_bounds(asp@, i - 1, ch as int);
        }
        if c + w / 2 < -edge {
            assert(v@ + Seq::<Chip>::empty() =~= v@);
            break;
        }
        let ghost before = v@;
        v.push(Chip { clip: i - 1, cx: c, w });
        i -= 1;
        cx = c;
        proof {
            let rest = chips_left(asp@, ch as int, gap as int, i as int, cx as int);
            assert(before + (seq![Chip { clip: i, cx: c, w }] + rest) =~= v@ + rest);
            if i == 0 {
                assert(v@ + rest =~= v@);
            }
        }
    }
    v
}

/// `x` is on a chip.
pub open spec fn on_chip(c: Chip, x: int) -> bool {
    2 * (x - c.cx) <= c.w && 2 * (c.cx - x) <= c.w
}

/// The first chip from `k` on that `x` is on.
pub open spec fn chip_under(chips: Seq<Chip>, x: int, k: int) -> Option<usize>
    decreases chips.len() - k,
{
    if k < 0 || k >= chips.len() {
        None
    } else if on_chip(chips[k], x) {
        Some(chips[k].clip)
    } else {
        chip_under(chips, x, k + 1)
    }
}

/// `y` is on the strip or just beside.
pub open spec fn on_strip(y: int, strip_y: int, ch: int) -> bool {
    strip_y - 8 * PIXEL <= y <= strip_y + ch + 8 * PIXEL
}

/// The chip of the filmstrip under the pointer.
pub fn strip_chip_at(chips: &Vec<Chip>, strip: &Strip, x: i64, y: i64) -> (r: Option<usize>)
    requires
        0 <= strip.ch <= LENGTH_LIMIT,
        -4 * LENGTH_LIMIT <= strip.y <= 4 * LENGTH_LIMIT,
        forall|k: int|
            0 <= k < chips@.len() ==> -0x4000_0000_0000_0000_0000 <= (#[trigger] chips@[k]).cx
                <= 0x4000_0000_0000_0000_0000,
    ensures
        r == (if on_strip(y as int, strip.y as int, strip.ch as int) {
            chip_under(chips@, x as int, 0)
        } else {
            None
        }),
{
    let at: i128 = y as i128;
    if at < strip.y - 8 * PIXEL || at > strip.y + strip.ch + 8 * PIXEL {
        return None;
    }
    let mut k: usize = 0;
    while k < chips.len()
        invariant
            k <= chips@.len(),
            forall|k: int|
                0 <= k < chips@.len() ==> -0x4000_0000_0000_0000_0000 <= (#[trigger] chips@[k]).cx
                    <= 0x4000_0000_0000_0000_0000,
            chip_under(chips@, x as int, k as int) == chip_under(chips@, x as int, 0),
            on_strip(y as int, strip.y as int, strip.ch as int),
        decreases chips@.len() - k,
    {
        let c = chips[k];
        let d: i128 = x as i128 - c.cx;
        let e: i128 = c.cx - x as i128;
        if 2 * d <= c.w && 2 * e <= c.w {
            return Some(c.clip);
        }
        k += 1;
    }
    None
}

/// How far apart chapter chips of width `cw` are.
pub open spec fn chapter_step(cw: int, gap: int) -> int {
    at_least(cw + gap, PIXEL as int)
}

/// Between which places the middle of the chapter row may pan: a row that fits
/// stays centred, a longer one shows its ends.
pub open spec fn chapter_bounds(cw: int, gap: int, vw: int, n: int) -> (int, int) {
    let room = at_least((vw - cw) / 2 - 24 * PIXEL, 0);
    let edge = room * WHOLE / chapter_step(cw, gap);
    let last = (if n > 0 {
        n - 1
    } else {
        0
    }) * WHOLE;
    if last <= edge * 2 {
        (last / 2, last / 2)
    } else {
        (edge, last - edge)
    }
}

/// Between which places the middle of the chapter row may pan.
pub fn chapter_pos_bounds(cw: i128, gap: i128, vw: i128, n: usize) -> (r: (i128, i128))
    requires
        0 <= cw <= 3 * LENGTH_LIMIT,
        0 <= gap <= LENGTH_LIMIT,
        0 <= vw <= LENGTH_LIMIT,
        n <= crate::state::MAX_CLIPS,
    ensures
        (r.0 as int, r.1 as int) == chapter_bounds(cw as int, gap as int, vw as int, n as int),
{
    let step: i128 = if cw + gap < PIXEL {
        PIXEL
    } else {
        cw + gap
    };
    // Euclidean halves: the difference may be negative.
    let d: i128 = vw - cw;
    let half: i128 = if d < 0 {
        -((1 - d) / 2)
    } else {
        d / 2
    };
    proof {
        if d < 0 {
            assert(d as int / 2 == -((1 - d) / 2));
        }
    }
    let room: i128 = if half - 24 * PIXEL < 0 {
        0
    } else {
        half - 24 * PIXEL
    };
    let edge: i128 = room * WHOLE / step;
    proof {
        let a = room * WHOLE;
        assert(0 <= a / (step as int) <= a) by (nonlinear_arith)
            requires
                0 <= a,
                step >= 1,
        ;
    }
    let last: i128 = (if n > 0 {
        n as i128 - 1
    } else {
        0
    }) * WHOLE;
    if last <= edge * 2 {
        (last / 2, last / 2)
    } else {
        (edge, last - edge)
    }
}

/// The middle of chapter chip `i`, the row's middle standing on place `pos`.
pub open spec fn chapter_middle(i: int, cw: int, gap: int, vw: int, pos: int) -> int {
    vw / 2 + crate::ribbon::between(0, (i * WHOLE - pos) * chapter_step(cw, gap), 1)
}

/// The last of the first `n` chapter chips that `x` is on.
pub open spec fn chapter_under(n: int, x: int, cw: int, gap: int, vw: int, pos: int) -> Option<usize>
    decreases n,
{
    if n <= 0 {
        None
    } else {
        let m = chapter_middle(n - 1, cw, gap, vw, pos);
        if 2 * (x - m) <= cw && 2 * (m - x) <= cw {
            Some((n - 1) as usize)
        } else {
            chapter_under(n - 1, x, cw, gap, vw, pos)
        }
    }
}

/// Where the row of chapter chips is, having slid in by `slide` billionths.
pub open spec fn chapter_row_y(base_y: int, ch: int, slide: int) -> int {
    base_y + (1_000_000_000 - slide) * (ch + 44 * PIXEL) / 1_000_000_000
}

/// A chapter row on the screen: the width and height of its chips, the gap, the
/// strip's place, how far it has slid in, and the place its middle stands on.
#[derive(Clone, Copy, PartialEq, Eq, Structural, Debug)]
pub struct ChapterRow {
    pub cw: i128,
    pub ch: i128,
    pub gap: i128,
    pub base_y: i128,
    pub slide: u32,
    pub pos: i64,
}

impl ChapterRow {
    pub open spec fn wf(self) -> bool {
        &&& 0 <= self.cw <= 3 * LENGTH_LIMIT
        &&& 0 <= self.ch <= LENGTH_LIMIT
        &&& 0 <= self.gap <= LENGTH_LIMIT
        &&& -4 * LENGTH_LIMIT <= self.base_y <= 4 * LENGTH_LIMIT
        &&& self.slide <= 1_000_000_000
    }
}

/// How far apart the row's chips are.
pub(crate) fn chip_step_of(row: &ChapterRow) -> (step: i128)
    requires
        row.wf(),
    ensures
        step == chapter_step(row.cw as int, row.gap as int),
        1 <= step <= 5 * LENGTH_LIMIT,
{
    if row.cw + row.gap < PIXEL {
        PIXEL
    } else {
        row.cw + row.gap
    }
}

/// The middle of the row's chip `i`.
pub(crate) fn chip_middle(i: usize, row: &ChapterRow, vw: i128) -> (m: i128)
    requires
        row.wf(),
        0 <= vw <= LENGTH_LIMIT,
        i <= crate::state::MAX_CLIPS,
    ensures
        m == chapter_middle(i as int, row.cw as int, row.gap as int, vw as int, row.pos as int),
        -0x1_0000_0000_0000_0000_0000_0000_0000 <= m <= 0x1_0000_0000_0000_0000_0000_0000_0000,
{
    let step: i128 = chip_step_of(row);
    let away: i128 = (i as i128) * WHOLE - row.pos as i128;
    proof {
        assert(-0x1_0000_0000_0000_0000 <= away <= 0x1_0000_0000_0000_0000);
        let a = away as int;
        let t = step as int;
        assert(-0x1_0000_0000_0000_0000 * 5_000_000_000_000 <= a * t <= 0x1_0000_0000_0000_0000
            * 5_000_000_000_000) by (nonlinear_arith)
            requires
                -0x1_0000_0000_0000_0000 <= a <= 0x1_0000_0000_0000_0000,
                1 <= t <= 5_000_000_000_000,
        ;
        crate::ribbon::glide_keeps_to_its_way(0, a * t, 1);
    }
    vw / 2 + crate::ribbon::glide(0, away * step, 1)
}

/// The chapter whose chip is under the pointer, of `n`.
pub fn chapter_chip_at(row: &ChapterRow, n: usize, vw: i128, x: i64, y: i64) -> (r: Option<usize>)
    requires
        row.wf(),
        0 <= vw <= LENGTH_LIMIT,
        n <= crate::state::MAX_CLIPS,
    ensures
        r == (if on_strip(
            y as int,
            chapter_row_y(row.base_y as int, row.ch as int, row.slide as int),
            row.ch as int,
        ) {
            chapter_under(
                n as int,
                x as int,
                row.cw as int,
                row.gap as int,
                vw as int,
                row.pos as int,
            )
        } else {
            None
        }),
        r matches Some(i) ==> i < n,
{
    let left: i128 = 1_000_000_000 - row.slide as i128;
    let tall: i128 = row.ch + 44 * PIXEL;
    proof {
        assert(0 <= left * tall <= 1_000_000_000 * 2_000_000_000_000) by (nonlinear_arith)
            requires
                0 <= left <= 1_000_000_000,
                0 <= tall <= 2_000_000_000_000,
        ;
    }
    let sy: i128 = row.base_y + left * tall / 1_000_000_000;
    let at: i128 = y as i128;
    if at < sy - 8 * PIXEL || at > sy + row.ch + 8 * PIXEL {
        return None;
    }
    let mut k: usize = n;
    while k > 0
        invariant
            k <= n,
            n <= crate::state::MAX_CLIPS,
            row.wf(),
            0 <= vw <= LENGTH_LIMIT,
            chapter_under(
                k as int,
                x as int,
                row.cw as int,
                row.gap as int,
                vw as int,
                row.pos as int,
            ) == chapter_under(
                n as int,
                x as int,
                row.cw as int,
                row.gap as int,
                vw as int,
                row.pos as int,
            ),
            on_strip(
                y as int,
                chapter_row_y(row.base_y as int, row.ch as int, row.slide as int),
                row.ch as int,
            ),
        decreases k,
    {
        let i: usize = k - 1;
        let m: i128 = chip_middle(i, row, vw);
        let d: i128 = x as i128 - m;
        let e: i128 = m - x as i128;
        if 2 * d <= row.cw && 2 * e <= row.cw {
            return Some(i);
        }
        k -= 1;
    }
    None
}

/// Whether the pointer is over a video or at most twelve pixels below it.
pub fn over_video(r: &Rect, x: i128, y: i128) -> (b: bool)
    requires
        -4 * LENGTH_LIMIT <= r.x <= 4 * LENGTH_LIMIT,
        -4 * LENGTH_LIMIT <= r.y <= 4 * LENGTH_LIMIT,
        0 <= r.w <= 4 * LENGTH_LIMIT,
        0 <= r.h <= 4 * LENGTH_LIMIT,
    ensures
        b == (r.x <= x <= r.x + r.w && r.y <= y <= r.y + r.h + 12 * PIXEL),
{
    r.x <= x && x <= r.x + r.w && r.y <= y && y <= r.y + r.h + 12 * PIXEL
}

/// Whether the pointer is at the lower edge of a window of height `vh`, where
/// the chapter bar comes up; a depth of zero is no edge.
pub fn at_lower_edge(y: i128, vh: i128, depth: i128) -> (b: bool)
    requires
        0 <= vh <= LENGTH_LIMIT,
        depth <= LENGTH_LIMIT,
    ensures
        b == (depth > 0 && y >= vh - depth),
{
    depth > 0 && y >= vh - depth
}

} // verus!
