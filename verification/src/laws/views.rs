//! Where the views show a video, its seekbar and their chips.

use vstd::prelude::*;

use crate::flex::{Aspect, LENGTH_LIMIT, PIXEL};
use crate::overlay::{
    chapter_bounds, chapter_middle, chapter_under, chip_under, chips_left, chips_right, fit_in,
    fullview_place, line_on, near_line, quickview_place, share_at, sheet_cell, strip_base,
    strip_chips, strip_for, strip_start, Chip, Line,
};
use crate::grid::Rect;

verus! {

/// A rectangle of `w` by `h` has the shape of a picture of `tw` by `th`, to the
/// micropixel of its shorter way.
pub open spec fn in_shape(w: int, h: int, tw: int, th: int) -> bool {
    let most = if tw < th {
        th
    } else {
        tw
    };
    -most <= w * th - h * tw <= most
}

proof fn a_fit_has_the_shape(tw: int, th: int, w: int, h: int)
    requires
        1 <= tw,
        1 <= th,
        0 <= w,
        0 <= h,
    ensures
        ({
            let (a, b) = fit_in(tw, th, w, h);
            &&& in_shape(a, b, tw, th)
            &&& 0 <= a <= w
            &&& 0 <= b <= h
            &&& a == w || b == h
        }),
{
    if tw * h > w * th {
        let x = w * th;
        vstd::arithmetic::div_mod::lemma_fundamental_div_mod(x, tw);
        vstd::arithmetic::div_mod::lemma_mod_bound(x, tw);
        assert(0 <= x / tw <= h && (x / tw) * tw == tw * (x / tw)) by (nonlinear_arith)
            requires
                x == w * th,
                0 <= w,
                1 <= th,
                1 <= tw,
                x < tw * h,
        {
            assert(x >= 0);
        }
    } else {
        let x = h * tw;
        vstd::arithmetic::div_mod::lemma_fundamental_div_mod(x, th);
        vstd::arithmetic::div_mod::lemma_mod_bound(x, th);
        assert(0 <= x / th <= w && (x / th) * th == th * (x / th)) by (nonlinear_arith)
            requires
                x == h * tw,
                0 <= h,
                1 <= th,
                1 <= tw,
                tw * h <= w * th,
        {
            assert(0 <= x <= w * th);
        }
    }
}

/// The full view shows a video in its own shape, as large as the window allows and in
/// its middle: it touches the window in one direction and leaves it in none.
pub proof fn the_full_view_keeps_the_shape(vw: int, vh: int, tw: int, th: int)
    requires
        0 <= vw <= LENGTH_LIMIT,
        0 <= vh <= LENGTH_LIMIT,
        1 <= tw <= u32::MAX,
        1 <= th <= u32::MAX,
    ensures
        ({
            let r = fullview_place(vw, vh, tw, th);
            &&& in_shape(r.w as int, r.h as int, tw, th)
            &&& r.w == vw || r.h == vh
            &&& 0 <= r.x && r.x + r.w <= vw
            &&& 0 <= r.y && r.y + r.h <= vh
            &&& 0 <= vw - r.w - 2 * r.x <= 1
            &&& 0 <= vh - r.h - 2 * r.y <= 1
        }),
{
    a_fit_has_the_shape(tw, th, vw, vh);
}

/// The quick view shows a video in its own shape, in the middle of the window over the
/// strip: it takes 88 of a hundred parts of the window's width or 92 of the height that
/// the strip leaves free, and no more than either.
pub proof fn the_quick_view_keeps_the_shape(vw: int, strip_y: int, tw: int, th: int)
    requires
        0 <= vw <= LENGTH_LIMIT,
        -LENGTH_LIMIT <= strip_y <= LENGTH_LIMIT,
        1 <= tw <= u32::MAX,
        1 <= th <= u32::MAX,
    ensures
        ({
            let r = quickview_place(vw, strip_y, tw, th);
            let free = if strip_y < 78 * PIXEL {
                60 * PIXEL
            } else {
                strip_y - 18 * PIXEL
            };
            &&& in_shape(r.w as int, r.h as int, tw, th)
            &&& r.w == vw * 88 / 100 || r.h == free * 92 / 100
            &&& r.w <= vw * 88 / 100
            &&& r.h <= free * 92 / 100
            &&& 0 <= vw - r.w - 2 * r.x <= 1
            &&& 0 <= free - r.h - 2 * (r.y - 6 * PIXEL) <= 1
            &&& 0 <= r.x && r.x + r.w <= vw
            &&& strip_y >= 78 * PIXEL ==> 0 <= r.y && r.y + r.h <= strip_y
        }),
{
    let free = if strip_y < 78 * PIXEL {
        60 * PIXEL as int
    } else {
        strip_y - 18 * PIXEL
    };
    a_fit_has_the_shape(tw, th, vw * 88 / 100, free * 92 / 100);
}

/// The strip lies at the window's bottom, 22 pixels above its edge; its chips are as
/// tall as asked, though no less than 24 pixels.
pub proof fn the_strip_lies_at_the_bottom(height: int, vh: int)
    requires
        height <= LENGTH_LIMIT,
        0 <= vh <= LENGTH_LIMIT,
    ensures
        ({
            let s = strip_for(height, vh);
            &&& s.y + s.ch == vh - 22 * PIXEL
            &&& height >= 24 * PIXEL ==> s.ch == height
            &&& height < 24 * PIXEL ==> s.ch == 24 * PIXEL
            &&& 9 * s.cw <= 16 * s.ch < 9 * s.cw + 9
        }),
{
}

/// The share of the seekbar at a point goes from nothing at its left end to the whole
/// at its right end, in proportion between them, and never back.
pub proof fn the_seekbar_goes_from_left_to_right(l: Line, x: int, y: int)
    requires
        l.wf(),
        x <= y,
    ensures
        0 <= share_at(l, x) <= share_at(l, y) <= 1_000_000_000,
        x <= l.x ==> share_at(l, x) == 0,
        x >= l.x + l.w ==> share_at(l, x) == 1_000_000_000,
        l.x <= x < l.x + l.w ==> share_at(l, x) * l.w <= (x - l.x) * 1_000_000_000 < (share_at(
            l,
            x,
        ) + 1) * l.w,
{
    let w = l.w as int;
    a_share_is_in_proportion(x - l.x, w);
    a_share_is_in_proportion(y - l.x, w);
    let (p, q) = ((x - l.x) * 1_000_000_000, (y - l.x) * 1_000_000_000);
    assert(0 <= p <= q ==> p / w <= q / w) by (nonlinear_arith)
        requires
            w > 0,
    ;
}

proof fn a_share_is_in_proportion(d: int, w: int)
    requires
        w > 0,
    ensures
        0 <= d < w ==> {
            let q = d * 1_000_000_000 / w;
            &&& 0 <= q <= 1_000_000_000
            &&& q * w <= d * 1_000_000_000 < (q + 1) * w
        },
{
    if 0 <= d < w {
        let p = d * 1_000_000_000;
        let q = p / w;
        vstd::arithmetic::div_mod::lemma_fundamental_div_mod(p, w);
        vstd::arithmetic::div_mod::lemma_mod_bound(p, w);
        assert(0 <= q <= 1_000_000_000 && q * w <= p < (q + 1) * w) by (nonlinear_arith)
            requires
                p == w * q + p % w,
                0 <= p % w < w,
                0 <= p < w * 1_000_000_000,
        ;
    }
}

/// The seekbar lies on the video, inset by a twentieth of it, between 16 and 48 pixels
/// from its sides and 14 and 32 from its lower edge, and above that by the lift; it is
/// taken hold of from 18 pixels above it to 10 below and 6 beside.
pub proof fn the_seekbar_lies_on_the_video(r: Rect, lift: int, x: int, y: int)
    requires
        -LENGTH_LIMIT <= r.x <= LENGTH_LIMIT,
        -LENGTH_LIMIT <= r.y <= LENGTH_LIMIT,
        200 * PIXEL <= r.w <= LENGTH_LIMIT,
        0 <= r.h <= LENGTH_LIMIT,
        0 <= lift <= LENGTH_LIMIT,
    ensures
        ({
            let l = line_on(r, lift);
            let px = l.x - r.x;
            let py = r.y + r.h - lift - l.bottom;
            &&& 16 * PIXEL <= px <= 48 * PIXEL
            &&& 16 * PIXEL < px < 48 * PIXEL ==> px == r.w * 5 / 100
            &&& l.x + l.w == r.x + r.w - px
            &&& 14 * PIXEL <= py <= 32 * PIXEL
            &&& 14 * PIXEL < py < 32 * PIXEL ==> py == r.h * 5 / 100
            &&& near_line(l, x, y) <==> -18 * PIXEL <= y - l.bottom <= 10 * PIXEL && -6 * PIXEL <= x
                - l.x && x - l.x - l.w <= 6 * PIXEL
        }),
{
}

/// The storyboard's frames follow the clip from its beginning to its end.
pub proof fn the_storyboard_follows_the_clip(part: int, later: int, whole: int, g: int)
    requires
        0 <= part <= later < whole,
        1 <= g <= 1_000,
    ensures
        0 <= sheet_cell(part, whole, g) <= sheet_cell(later, whole, g) < g * g,
        sheet_cell(0, whole, g) == 0,
        part > 0 ==> sheet_cell(part, whole, g) * whole <= part * (g * g) < (sheet_cell(
            part,
            whole,
            g,
        ) + 1) * whole,
{
    let cells = g * g;
    assert(1 <= cells) by (nonlinear_arith)
        requires
            1 <= g,
            cells == g * g,
    ;
    let (a, b) = (part * cells, later * cells);
    assert(0 <= a <= b < whole * cells) by (nonlinear_arith)
        requires
            0 <= part <= later < whole,
            1 <= cells,
            a == part * cells,
            b == later * cells,
    ;
    let (p, q) = (a / whole, b / whole);
    vstd::arithmetic::div_mod::lemma_fundamental_div_mod(a, whole);
    vstd::arithmetic::div_mod::lemma_mod_bound(a, whole);
    assert(0 <= p <= q < cells && p * whole <= a < (p + 1) * whole) by (nonlinear_arith)
        requires
            whole > 0,
            0 <= a <= b < whole * cells,
            p == a / whole,
            q == b / whole,
            a == whole * p + a % whole,
            0 <= a % whole < whole,
    ;
}

proof fn chips_to_the_right(asp: Seq<Aspect>, ch: int, gap: int, vw: int, i: int, cx: int, k: int)
    requires
        crate::flex::all_shown(asp),
        asp.len() <= crate::state::MAX_CLIPS,
        0 <= ch <= LENGTH_LIMIT,
        0 <= gap <= LENGTH_LIMIT,
        0 <= vw <= LENGTH_LIMIT,
        -10 * LENGTH_LIMIT <= cx <= 10 * LENGTH_LIMIT,
        0 <= i < asp.len(),
        0 <= k < chips_right(asp, ch, gap, vw, i, cx).len(),
    ensures
        ({
            let v = chips_right(asp, ch, gap, vw, i, cx);
            let (from, w) = if k == 0 {
                (cx, crate::flex::width_at(asp[i], ch))
            } else {
                (v[k - 1].cx as int, v[k - 1].w as int)
            };
            &&& v[k].clip == i + 1 + k
            &&& v[k].clip < asp.len()
            &&& v[k].w == crate::flex::width_at(asp[i + 1 + k], ch)
            &&& v[k].cx - from == (v[k].w + w) / 2 + gap
        }),
    decreases asp.len() - i,
{
    let c = cx + crate::overlay::chip_step(asp, i, ch, gap);
    crate::flex::width_bounds(asp[i], ch);
    crate::flex::width_bounds(asp[i + 1], ch);
    let w = crate::overlay::chip_width(asp, i + 1, ch);
    if c - w / 2 <= vw + ch * 3 / 2 {
        let rest = chips_right(asp, ch, gap, vw, i + 1, c);
        let v = chips_right(asp, ch, gap, vw, i, cx);
        if k > 0 {
            chips_to_the_right(asp, ch, gap, vw, i + 1, c, k - 1);
            assert(v[k] == rest[k - 1]);
            if k > 1 {
                assert(v[k - 1] == rest[k - 2]);
            }
        }
    }
}

proof fn chips_to_the_left(asp: Seq<Aspect>, ch: int, gap: int, i: int, cx: int, k: int)
    requires
        crate::flex::all_shown(asp),
        asp.len() <= crate::state::MAX_CLIPS,
        0 <= ch <= LENGTH_LIMIT,
        0 <= gap <= LENGTH_LIMIT,
        -10 * LENGTH_LIMIT <= cx <= 10 * LENGTH_LIMIT,
        0 <= i < asp.len(),
        0 <= k < chips_left(asp, ch, gap, i, cx).len(),
    ensures
        ({
            let v = chips_left(asp, ch, gap, i, cx);
            let (from, w) = if k == 0 {
                (cx, crate::flex::width_at(asp[i], ch))
            } else {
                (v[k - 1].cx as int, v[k - 1].w as int)
            };
            &&& v[k].clip == i - 1 - k
            &&& 0 <= i - 1 - k
            &&& v[k].w == crate::flex::width_at(asp[i - 1 - k], ch)
            &&& from - v[k].cx == (v[k].w + w) / 2 + gap
        }),
    decreases i,
{
    let c = cx - crate::overlay::chip_step(asp, i - 1, ch, gap);
    crate::flex::width_bounds(asp[i], ch);
    crate::flex::width_bounds(asp[i - 1], ch);
    let w = crate::overlay::chip_width(asp, i - 1, ch);
    if c + w / 2 >= -(ch * 3 / 2) {
        let rest = chips_left(asp, ch, gap, i - 1, c);
        let v = chips_left(asp, ch, gap, i, cx);
        if k > 0 {
            chips_to_the_left(asp, ch, gap, i - 1, c, k - 1);
            assert(v[k] == rest[k - 1]);
            if k > 1 {
                assert(v[k - 1] == rest[k - 2]);
            }
        }
    }
}

/// Each chip of the filmstrip has its clip's shape at the strip's height, and the next
/// clip's chip stands one gap to its right. A strip that stands on a chip has it in the
/// middle of the window.
pub proof fn chips_stand_side_by_side(
    asp: Seq<Aspect>,
    ch: int,
    gap: int,
    vw: int,
    pos: int,
    a: int,
    b: int,
)
    requires
        crate::flex::all_shown(asp),
        asp.len() <= crate::state::MAX_CLIPS,
        0 <= ch <= LENGTH_LIMIT,
        0 <= gap <= LENGTH_LIMIT,
        0 <= vw <= LENGTH_LIMIT,
        i64::MIN <= pos <= i64::MAX,
        0 <= a < strip_chips(asp, ch, gap, vw, pos).len(),
        0 <= b < strip_chips(asp, ch, gap, vw, pos).len(),
    ensures
        ({
            let v = strip_chips(asp, ch, gap, vw, pos);
            let (p, q) = (v[a], v[b]);
            &&& p.clip < asp.len()
            &&& p.w == crate::flex::width_at(asp[p.clip as int], ch)
            &&& q.clip == p.clip + 1 ==> q.cx - p.cx == (p.w + q.w) / 2 + gap
            &&& pos == p.clip * 1_000_000 ==> p.cx == vw / 2
            &&& a != b ==> p.clip != q.clip
        }),
{
    let base = strip_base(pos, asp.len() as int);
    let cx = strip_start(asp, ch, gap, vw, pos);
    let head = Chip {
        clip: base as usize,
        cx: cx as i128,
        w: crate::overlay::chip_width(asp, base, ch) as i128,
    };
    let right = chips_right(asp, ch, gap, vw, base, cx);
    let left = chips_left(asp, ch, gap, base, cx);
    let v = strip_chips(asp, ch, gap, vw, pos);
    assert(v =~= seq![head] + right + left);
    crate::flex::width_bounds(asp[base], ch);
    if base + 1 < asp.len() {
        crate::flex::width_bounds(asp[base + 1], ch);
        let part = crate::overlay::within(pos - base * 1_000_000, 0, 1_000_000);
        let step = crate::overlay::chip_step(asp, base, ch, gap);
        assert(0 <= part * step <= 1_000_000 * 4_000_000_000_000) by (nonlinear_arith)
            requires
                0 <= part <= 1_000_000,
                0 <= step <= 4_000_000_000_000,
        ;
        if pos == base * 1_000_000 {
            assert(part * step == 0) by (nonlinear_arith)
                requires
                    part == 0,
            ;
        }
    }
    let r = right.len() as int;
    let n = v.len() as int;
    if 1 <= a < 1 + r {
        chips_to_the_right(asp, ch, gap, vw, base, cx, a - 1);
        assert(v[a] == right[a - 1]);
        if a > 1 {
            assert(v[a - 1] == right[a - 2]);
        }
    } else if a > r {
        chips_to_the_left(asp, ch, gap, base, cx, a - 1 - r);
        assert(v[a] == left[a - 1 - r]);
        if a > 1 + r {
            assert(v[a - 1] == left[a - 2 - r]);
        }
    }
    if 1 <= b < 1 + r {
        chips_to_the_right(asp, ch, gap, vw, base, cx, b - 1);
        assert(v[b] == right[b - 1]);
        if b > 1 {
            assert(v[b - 1] == right[b - 2]);
        }
    } else if b > r {
        chips_to_the_left(asp, ch, gap, base, cx, b - 1 - r);
        assert(v[b] == left[b - 1 - r]);
        if b > 1 + r {
            assert(v[b - 1] == left[b - 2 - r]);
        }
    }
    assert(v[0] == head);
}

/// The chip under the pointer is one that the pointer is on, and there is none where it
/// is on none.
pub proof fn the_chip_under_the_pointer(chips: Seq<Chip>, x: int, k: int, j: int)
    requires
        0 <= k <= j < chips.len(),
    ensures
        match chip_under(chips, x, k) {
            Some(c) => exists|i: int|
                k <= i < chips.len() && (#[trigger] chips[i]).clip == c && -chips[i].w <= 2 * (x
                    - chips[i].cx) <= chips[i].w,
            None => !(-chips[j].w <= 2 * (x - chips[j].cx) <= chips[j].w),
        },
    decreases chips.len() - k,
{
    if crate::overlay::on_chip(chips[k], x) {
        assert(chips[k].clip == chips[k].clip);
    } else if k + 1 < chips.len() {
        let j2 = if j > k {
            j
        } else {
            k + 1
        };
        the_chip_under_the_pointer(chips, x, k + 1, j2);
        if chip_under(chips, x, k + 1) is Some {
            let c = chip_under(chips, x, k + 1)->0;
            let i = choose|i: int|
                k + 1 <= i < chips.len() && (#[trigger] chips[i]).clip == c && -chips[i].w <= 2 * (x
                    - chips[i].cx) <= chips[i].w;
            assert(chips[i].clip == c);
        }
    }
}

/// A row of chapters that fits stands in the middle; of a longer one the ends can be
/// brought as far in as the window's edge, and no further.
pub proof fn a_chapter_row_pans_between_its_ends(cw: int, gap: int, vw: int, n: int)
    requires
        0 <= cw <= 3 * LENGTH_LIMIT,
        0 <= gap <= LENGTH_LIMIT,
        0 <= vw <= LENGTH_LIMIT,
        1 <= n <= crate::state::MAX_CLIPS,
    ensures
        ({
            let (lo, hi) = chapter_bounds(cw, gap, vw, n);
            let last = (n - 1) * 1_000_000;
            &&& 0 <= lo <= hi <= last
            &&& 0 <= last - lo - hi <= 1
            &&& lo < hi ==> lo + hi == last
            &&& lo < hi && cw + gap >= PIXEL && vw - cw >= 48 * PIXEL ==> 2 * lo * (cw + gap)
                <= (vw - cw - 48 * PIXEL) * 1_000_000
        }),
{
    let step = crate::overlay::chapter_step(cw, gap);
    let room = crate::overlay::at_least((vw - cw) / 2 - 24 * PIXEL, 0);
    let e = room * 1_000_000 / step;
    assert(0 <= e && e * step <= room * 1_000_000) by (nonlinear_arith)
        requires
            e == room * 1_000_000 / step,
            room >= 0,
            step >= 1,
    ;
    let (lo, hi) = chapter_bounds(cw, gap, vw, n);
    if lo < hi && cw + gap >= PIXEL && vw - cw >= 48 * PIXEL {
        assert(2 * lo * (cw + gap) == 2 * (e * step)) by (nonlinear_arith)
            requires
                lo == e,
                step == cw + gap,
        ;
    }
}

/// The chapter under the pointer is one whose chip the pointer is on.
pub proof fn the_chapter_under_the_pointer(n: int, x: int, cw: int, gap: int, vw: int, pos: int)
    requires
        0 <= n <= crate::state::MAX_CLIPS,
    ensures
        chapter_under(n, x, cw, gap, vw, pos) matches Some(i) ==> i < n && -cw <= 2 * (x
            - chapter_middle(i as int, cw, gap, vw, pos)) <= cw,
        chapter_under(n, x, cw, gap, vw, pos) is None ==> forall|i: int|
            0 <= i < n ==> !(-cw <= 2 * (x - #[trigger] chapter_middle(i, cw, gap, vw, pos)) <= cw),
    decreases n,
{
    if n > 0 {
        the_chapter_under_the_pointer(n - 1, x, cw, gap, vw, pos);
    }
}

/// Chapter chips stand one step apart, from left to right, and the one that the row's
/// middle stands on is in the middle of the window.
pub proof fn chapter_chips_stand_in_a_row(i: int, cw: int, gap: int, vw: int)
    requires
        0 <= cw <= 3 * LENGTH_LIMIT,
        0 <= gap <= LENGTH_LIMIT,
        cw + gap >= PIXEL,
        0 <= vw <= LENGTH_LIMIT,
        0 <= i <= crate::state::MAX_CLIPS,
    ensures
        chapter_middle(i, cw, gap, vw, i * 1_000_000) == vw / 2,
        chapter_middle(i + 1, cw, gap, vw, i * 1_000_000) == vw / 2 + cw + gap,
{
    let step = cw + gap;
    assert((i * 1_000_000 - i * 1_000_000) * step == 0) by (nonlinear_arith);
    assert(((i + 1) * 1_000_000 - i * 1_000_000) * step == 1_000_000 * step) by (nonlinear_arith);
}

} // verus!
