//! How tiles are sized and placed, and what the slide show waits for.

use vstd::prelude::*;

use crate::flex::{Aspect, Pane, PIXEL, WHOLE};
use crate::grid::{row_of_is_one, rows_partition_the_library, widened, Layout, Shape};
use crate::state::State;

verus! {

/// Of tiles of the ideal width so many stand side by side, with gaps around them, as the
/// window takes: one more would not fit. A window too narrow still shows one.
pub proof fn a_row_takes_what_the_window_holds(s: Shape)
    requires
        s.wf(),
    ensures
        s.columns() >= 1,
        s.columns() > 1 ==> s.columns() * s.ideal() + (s.columns() + 1) * s.gap <= s.vw,
        (s.columns() + 1) * s.ideal() + (s.columns() + 2) * s.gap > s.vw,
{
    let w = s.ideal() + s.gap;
    let v = s.vw - s.gap;
    let c = s.columns();
    let g = s.gap as int;
    let i = s.ideal();
    if s.vw >= s.gap {
        let q = v / w;
        assert(q * w <= v < (q + 1) * w) by (nonlinear_arith)
            requires
                w > 0,
                q == v / w,
        ;
        assert(c * i + (c + 1) * g == c * w + g && (c + 1) * i + (c + 2) * g == (c + 1) * w + g)
            by (nonlinear_arith)
            requires
                w == i + g,
        ;
        if q < 1 {
            assert((q + 1) * w <= 2 * w) by (nonlinear_arith)
                requires
                    q < 1,
                    w > 0,
            ;
        }
    } else {
        assert((c + 1) * i + (c + 2) * g > s.vw) by (nonlinear_arith)
            requires
                c == 1,
                s.vw < g,
                i > 0,
                g >= 0,
        ;
    }
}

/// The tiles of a full row fill the window between its gaps, but for less than a unit for
/// each column.
pub proof fn a_row_fills_the_window(s: Shape)
    requires
        s.wf(),
        s.vw >= s.ideal() + 2 * s.gap,
    ensures
        ({
            let used = s.columns() * s.tile_span() + (s.columns() + 1) * s.gap;
            s.vw - s.columns() < used <= s.vw
        }),
        s.tile_span() >= s.ideal(),
{
    let w = s.ideal() + s.gap;
    let v = s.vw - s.gap;
    let c = s.columns();
    let g = s.gap as int;
    let i = s.ideal();
    let q = v / w;
    assert(q >= 1 && q * w <= v) by (nonlinear_arith)
        requires
            w > 0,
            v >= w,
            q == v / w,
    ;
    assert(c == q);
    assert(c * i + (c + 1) * g == c * w + g) by (nonlinear_arith)
        requires
            w == i + g,
    ;
    let room = s.vw - g * (c + 1);
    assert(g * (c + 1) == (c + 1) * g) by (nonlinear_arith);
    let t = room / c;
    assert(t >= i && c * t <= room < c * t + c) by (nonlinear_arith)
        requires
            c >= 1,
            t == room / c,
            room >= c * i,
    ;
}

/// A tile has at least the least width, grows with the zoom, and its height follows its
/// width in the shape that the settings give.
pub proof fn tiles_grow_with_the_zoom(s: Shape, zoom: i128)
    requires
        s.wf(),
        s.zoom <= zoom <= 100 * WHOLE,
        s.tile_w >= PIXEL,
    ensures
        ({
            let t = Shape { zoom, ..s };
            &&& 40 * PIXEL <= s.ideal() <= t.ideal()
            &&& 24 * PIXEL <= s.nominal() <= t.nominal()
            &&& s.zoom == WHOLE && s.tile_w >= 40 * PIXEL ==> s.ideal() == s.tile_w
            &&& s.nominal() > 24 * PIXEL ==> s.nominal() * s.tile_w <= s.ideal() * s.tile_h
                < (s.nominal() + 1) * s.tile_w
        }),
{
    let t = Shape { zoom, ..s };
    let d = s.tile_w as int;
    let h = s.tile_h as int;
    assert(d * s.zoom <= d * zoom) by (nonlinear_arith)
        requires
            s.zoom <= zoom,
            d >= 0,
    ;
    assert(s.zoom == 1_000_000 ==> d * s.zoom == d * 1_000_000) by (nonlinear_arith);
    let (a, b) = (s.ideal(), t.ideal());
    assert(0 <= a * h <= b * h) by (nonlinear_arith)
        requires
            0 <= a <= b,
            0 <= h,
    ;
    let (x, y) = (a * h, b * h);
    let (p, q) = (x / d, y / d);
    assert(p <= q && p * d <= x < (p + 1) * d) by (nonlinear_arith)
        requires
            0 <= x <= y,
            0 < d,
            p == x / d,
            q == y / d,
    ;
}

/// What a row may shrink or grow to is kept between a tenth and the whole, and between
/// the whole and four times it.
pub proof fn rows_stretch_within_reason(s: Shape)
    ensures
        s.pane().vw == s.vw,
        s.pane().gap == s.gap,
        WHOLE <= 10 * s.pane().rmin <= 10 * WHOLE,
        WHOLE <= s.pane().rmax <= 4 * WHOLE,
        WHOLE <= 10 * s.rmin <= 10 * WHOLE ==> s.pane().rmin == s.rmin,
        WHOLE <= s.rmax <= 4 * WHOLE ==> s.pane().rmax == s.rmax,
{
}

/// In the fixed grid tiles of one size stand a gap apart, row under row from the left.
pub proof fn the_fixed_grid_is_even(l: Layout, i: int)
    requires
        l.wf(),
        l.flex is None,
        0 <= i < l.len - 1,
        l.len <= usize::MAX - 25_000,
    ensures
        ({
            let (a, b) = (l.rect_of(i), l.rect_of(i + 1));
            let n = l.cols as int;
            &&& a.w == b.w
            &&& a.h == b.h
            &&& l.rect_of(0).x == l.gap
            &&& l.rect_of(0).y == l.gap
            &&& (i + 1) % n != 0 ==> b.x == a.x + a.w + l.gap && b.y == a.y
            &&& (i + 1) % n == 0 ==> b.x == l.gap && b.y == a.y + a.h + l.gap
        }),
{
    let n = l.cols as int;
    let (q, r) = (i / n, i % n);
    vstd::arithmetic::div_mod::lemma_fundamental_div_mod(i, n);
    vstd::arithmetic::div_mod::lemma_mod_bound(i, n);
    vstd::arithmetic::div_mod::lemma_div_pos_is_pos(i, n);
    vstd::arithmetic::div_mod::lemma_small_mod(0, n as nat);
    vstd::arithmetic::div_mod::lemma_basic_div(0, n);
    let (w, h) = (l.cell_w as int, l.cell_h as int);
    assert(q <= i) by (nonlinear_arith)
        requires
            i == n * q + r,
            n >= 1,
            q >= 0,
            r >= 0,
    ;
    assert(0 <= r * w <= 25_000 * w && 0 <= q * h <= 0x1_0000_0000_0000_0000 * h && (r + 1) * w == r
        * w + w && (q + 1) * h == q * h + h && 0 * w == 0 && 0 * h == 0) by (nonlinear_arith)
        requires
            0 <= r <= 25_000,
            0 <= q <= 0x1_0000_0000_0000_0000,
            0 <= w,
            0 <= h,
    ;
    if r + 1 < n {
        assert(i + 1 == q * n + (r + 1)) by (nonlinear_arith)
            requires
                i == n * q + r,
        ;
        vstd::arithmetic::div_mod::lemma_fundamental_div_mod_converse(i + 1, n, q, r + 1);
    } else {
        assert(i + 1 == (q + 1) * n + 0) by (nonlinear_arith)
            requires
                i == n * q + r,
                r + 1 == n,
        ;
        vstd::arithmetic::div_mod::lemma_fundamental_div_mod_converse(i + 1, n, q + 1, 0);
    }
}

/// In the flexible grid tiles of one row are of one height and stand a gap apart, and the
/// next row begins a gap under it.
pub proof fn the_flexible_grid_is_even(l: Layout, asp: Seq<Aspect>, i: int, row: int)
    requires
        l.wf(),
        l.flex is Some,
        l.spread(asp),
        crate::flex::all_shown(asp),
        0 <= i < l.len - 1,
        0 <= row < l.row_count(),
        l.span(row).0 <= i < l.span(row).1,
    ensures
        ({
            let (a, b) = (l.rect_of(i), l.rect_of(i + 1));
            &&& i + 1 < l.span(row).1 ==> b.x == a.x + a.w + l.gap && b.y == a.y && b.h == a.h
            &&& i + 1 == l.span(row).1 ==> b.y == a.y + a.h + l.gap
            &&& a.w * asp[i].h <= a.h * asp[i].w < (a.w + 1) * asp[i].h
        }),
{
    let f = l.flex->0;
    let rows = f.rows@;
    rows_partition_the_library(l, i, row);
    row_of_is_one(l, i, row);
    let r = rows[row];
    reveal(crate::flex::spread);
    assert(rows[row].h >= 4);
    let k = i - r.start;
    let (h, aw, ah) = (r.h as int, asp[i].w as int, asp[i].h as int);
    assert(r.w@[k] == crate::flex::width_at(asp[r.start + k], h));
    let p = h * aw;
    let w = p / ah;
    assert(asp[i].wf());
    assert(w * ah <= p < (w + 1) * ah) by (nonlinear_arith)
        requires
            ah > 0,
            w == p / ah,
    ;
    if i + 1 < r.end {
        rows_partition_the_library(l, i + 1, row);
        row_of_is_one(l, i + 1, row);
        assert(r.x@[k + 1] == r.x@[k + 1 - 1] + r.w@[k + 1 - 1] + l.gap);
    } else {
        if row + 1 == rows.len() {
            assert(rows.last().end == l.len);
        }
        assert(rows[row + 1].start == rows[row + 1 - 1].end);
        rows_partition_the_library(l, i + 1, row + 1);
        row_of_is_one(l, i + 1, row + 1);
    }
}

/// The tile that is hit lies under the point, its edges belonging to it.
pub proof fn what_is_hit_lies_there(l: Layout, x: int, y: int)
    requires
        l.wf(),
        l.flex is None ==> l.cell_h > 0,
        l.hit(x, y) is Some,
    ensures
        ({
            let i = l.hit(x, y)->0 as int;
            let r = l.rect_of(i);
            &&& r.x <= x <= r.x + r.w
            &&& r.y <= y <= r.y + r.h
            &&& y >= 0
        }),
{
    let row = choose|row: int| l.is_row_at(y, row);
    let (a, b) = l.span(row);
    if l.flex is None {
        let at = if y < l.gap {
            0
        } else {
            (y - l.gap) / (l.cell_h as int)
        };
        let last = if l.row_count() == 0 {
            0
        } else {
            l.row_count() - 1
        };
        if y >= l.gap {
            vstd::arithmetic::div_mod::lemma_div_pos_is_pos(y - l.gap, l.cell_h as int);
        }
        vstd::arithmetic::div_mod::lemma_div_pos_is_pos(l.len + l.cols - 1, l.cols as int);
        assert(l.is_row_at(y, if at < last {
            at
        } else {
            last
        }));
        assert(row * l.cols >= 0) by (nonlinear_arith)
            requires
                row >= 0,
                l.cols >= 0,
        ;
    }
    the_holder_holds(l, a, b, x, y);
}

proof fn the_holder_holds(l: Layout, a: int, b: int, x: int, y: int)
    requires
        l.wf(),
        l.holder_of(a, b, x, y) is Some,
        0 <= a,
        b <= usize::MAX,
    ensures
        l.rect_of(l.holder_of(a, b, x, y)->0 as int).holds(x, y),
    decreases b - a,
{
    if a < b && !l.rect_of(a).holds(x, y) {
        the_holder_holds(l, a + 1, b, x, y);
    }
}

/// The clip below stands in the next row, and none of that row is nearer; below the last
/// row stands none.
pub proof fn the_clip_below_is_the_nearest(l: Layout, i: int, row: int, j: int)
    requires
        l.wf(),
        l.len <= usize::MAX - 25_000,
        0 <= i < l.len,
        0 <= row < l.row_count(),
        l.span(row).0 <= i < l.span(row).1,
    ensures
        row + 1 == l.row_count() ==> l.below(i) is None,
        row + 1 < l.row_count() && l.span(row + 1).0 <= j < l.span(row + 1).1 ==> {
            &&& l.below(i) matches Some(k) && l.span(row + 1).0 <= k < l.span(row + 1).1
            &&& ({
                let mid = l.rect_of(i).x + l.rect_of(i).w / 2;
                let off = |t: int|
                    if 2 * l.rect_of(t).x + l.rect_of(t).w >= 2 * mid {
                        2 * l.rect_of(t).x + l.rect_of(t).w - 2 * mid
                    } else {
                        2 * mid - 2 * l.rect_of(t).x - l.rect_of(t).w
                    };
                off(l.below(i)->0 as int) <= off(j)
            })
        },
{
    rows_partition_the_library(l, i, row);
    row_of_is_one(l, i, row);
    if row + 1 < l.row_count() {
        let (a, b) = l.span(row + 1);
        if a <= j < b {
            assert(b <= usize::MAX);
            let mid = l.rect_of(i).x + l.rect_of(i).w / 2;
            crate::grid::nearest_is_nearest(l, a, b, mid);
            let k = l.below(i)->0;
            assert(l.off_centre(k as int, mid) <= l.off_centre(j, mid));
        }
    }
}

/// The rows worked on are those on screen and so many above and below, one more below,
/// as far as there are rows.
pub proof fn the_rows_on_screen_are_widened(first: int, last: int, margin: int, n: int, r: int)
    requires
        0 <= first <= last,
        0 <= margin,
        0 < n,
        0 <= r < n,
    ensures
        ({
            let (a, b) = widened(first, last, margin, n);
            (a <= r <= b) <==> (r + margin >= first && r <= last + margin + 1)
        }),
{
}

/// What the gaps leave of the window is what a row's tiles may take, at least one unit.
pub proof fn the_gaps_leave_the_rest(p: Pane, n: int)
    requires
        p.wf(),
        n >= 0,
    ensures
        p.gap * (n + 1) + PIXEL <= p.vw ==> p.usable(n) + p.gap * (n + 1) == p.vw,
        p.gap * (n + 1) + PIXEL > p.vw ==> p.usable(n) == PIXEL,
{
}

/// A row takes clips while they fit at the plain height, and one more only where that
/// shrinks it by less than doing without would stretch it.
pub proof fn a_row_is_filled(p: Pane, asp: Seq<Aspect>, s: int)
    requires
        p.wf(),
        0 <= s < asp.len(),
    ensures
        ({
            let e = p.row_end(asp, s);
            &&& s < e <= asp.len()
            &&& e > s + 2 ==> p.run(asp, s, e - 1) <= p.usable(e - 1 - s)
            &&& e < asp.len() && p.run(asp, s, e + 1) <= p.usable(e + 1 - s) ==> p.run(asp, s, e)
                > p.usable(e - s)
            &&& e > s + 1 && p.run(asp, s, e) > p.usable(e - s) ==> {
                &&& p.usable(e - s) * WHOLE >= p.rmin * p.run(asp, s, e)
                &&& p.usable(e - s) * p.usable(e - 1 - s) > p.run(asp, s, e) * p.run(asp, s, e - 1)
            }
            &&& e < asp.len() && p.run(asp, s, e) <= p.usable(e - s) && p.usable(e + 1 - s) * WHOLE >= p.rmin
                * p.run(asp, s, e + 1) ==> p.usable(e + 1 - s) * p.usable(e - s) <= p.run(asp, s, e + 1)
                * p.run(asp, s, e)
        }),
{
    a_fill_ends(p, asp, s, s + 1);
}

proof fn a_fill_ends(p: Pane, asp: Seq<Aspect>, s: int, i: int)
    requires
        0 <= s < i <= asp.len(),
    ensures
        ({
            let f = p.fill_end(asp, s, i);
            &&& i <= f <= asp.len()
            &&& forall|j: int|
                i < j <= f ==> #[trigger] p.run(asp, s, j) <= p.usable(j - s)
            &&& f < asp.len() ==> p.run(asp, s, f + 1) > p.usable(f + 1 - s)
        }),
    decreases asp.len() - i,
{
    if i < asp.len() && p.run(asp, s, i + 1) <= p.usable(i - s + 1) {
        a_fill_ends(p, asp, s, i + 1);
        if p.fill_end(asp, s, i + 1) == i + 1 {
            assert(p.run(asp, s, i + 1) <= p.usable(i + 1 - s));
        }
    }
}

/// The wait for the next clip begins with the clip's first frame, and not before the
/// slide show did; it is over when the set time has passed, at least the least.
pub proof fn the_slide_show_waits_its_time(s: State, since: u64, first: u64, now: u64)
    requires
        s.modes.quickview || s.modes.fullview,
        s.clips.len() > 0,
        s.modes.auto_skip_since == Some(since),
        s.lanes.live_sel matches Some(l) && l.clip == s.refs.selected && l.first_frame == Some(
            first,
        ),
    ensures
        ({
            let from = if first > since {
                first as int
            } else {
                since as int
            };
            let time = s.setup.tuning.auto_skip as int;
            &&& now <= from ==> s.watched(now) == Some(0u32)
            &&& now >= from + time && now >= from + crate::select::AUTO_SKIP_LEAST
                <==> s.watched(now) == Some(1_000_000_000u32)
        }),
{
    let e = crate::state::since(now, s.watch_start(since)) as int;
    let w = s.watch_time() as int;
    if 0 <= e < w {
        let x = e * 1_000_000_000 / w;
        assert(0 <= x < 1_000_000_000) by (nonlinear_arith)
            requires
                0 <= e < w,
                x == e * 1_000_000_000 / w,
        ;
        assert(e == 0 ==> x == 0) by (nonlinear_arith)
            requires
                w > 0,
                x == e * 1_000_000_000 / w,
        ;
    }
}

/// The slide show is suspended where nothing can be watched, and its wait then begins
/// anew.
pub proof fn a_suspended_slide_show_begins_anew(s: State, now: u64)
    requires
        s.modes.auto_skip_since is Some,
    ensures
        ({
            let t = s.auto_skipped(now);
            &&& !s.modes.quickview && !s.modes.fullview ==> t.modes.auto_skip_since == Some(now)
            &&& s.modes.scrubbing || s.chapters is Some || s.lanes.sel_parked || s.refs.pending_reselect
                is Some || s.clips.len() == 0 ==> t.modes.auto_skip_since == Some(now)
            &&& t.modes.auto_skip_since == Some(now) || t.modes.auto_skip_since
                == s.modes.auto_skip_since
            &&& s.watched(now) != Some(1_000_000_000u32) ==> t.refs == s.refs
        }),
{
}

/// A jump selects the clip, notes the moment, asks for it to be shown and lets go of the
/// pointer; to where no clip stands it changes nothing.
pub proof fn a_jump_selects(s: State, i: usize, now: u64)
    ensures
        ({
            let t = s.jumped_to(i, now);
            &&& i >= s.clips.len() ==> t == s
            &&& i < s.clips.len() ==> {
                &&& t.refs.selected == i
                &&& i != s.refs.selected ==> t.refs.sel_changed_at == now && t.refs.pending_reselect
                    is None
                &&& i == s.refs.selected ==> t.refs == s.refs
                &&& !t.modes.mouse_attention
                &&& t.fx.contains(crate::model::Effect::ScrollToSelected)
                &&& t.clips == s.clips
                &&& t.marked == s.marked
            }
        }),
{
    if i < s.clips.len() {
        let n = s.fx.len() as int;
        let t = s.jumped_to(i, now);
        assert(t.fx[n] == crate::model::Effect::ScrollToSelected);
    }
}

/// Rows are worked on from the middle outward: none nearer to it comes later, and of two
/// as near the upper comes first.
pub proof fn the_middle_comes_first(v: Seq<usize>, first: usize, last: usize, center: usize, i: int, j: int)
    requires
        crate::grid::center_out(v, first, last, center),
        0 <= i < j < v.len(),
    ensures
        ({
            let away = |r: usize|
                if r >= center {
                    r - center
                } else {
                    center - r
                };
            &&& away(v[i]) <= away(v[j])
            &&& away(v[i]) == away(v[j]) ==> v[i] < v[j]
            &&& first <= v[i] <= last
        }),
{
    assert(v.contains(v[i]));
    assert(crate::grid::comes_first(v[i], v[j], center));
}

/// The places of a row are its clips from left to right, row after row as the rows come.
pub proof fn places_go_row_by_row(l: Layout, rows: Seq<usize>, n: int, k: int)
    requires
        l.wf(),
        0 < n <= rows.len(),
        l.span(rows[n - 1] as int).0 <= l.span(rows[n - 1] as int).1 <= usize::MAX,
        0 <= l.span(rows[n - 1] as int).0,
        0 <= k < l.span(rows[n - 1] as int).1 - l.span(rows[n - 1] as int).0,
    ensures
        ({
            let before = crate::grid::places_of(l, rows, n - 1);
            let v = crate::grid::places_of(l, rows, n);
            let (a, b) = l.span(rows[n - 1] as int);
            &&& v.len() == before.len() + (b - a)
            &&& v.take(before.len() as int) == before
            &&& v[before.len() + k] == a + k
        }),
{
    let before = crate::grid::places_of(l, rows, n - 1);
    let v = crate::grid::places_of(l, rows, n);
    assert(v.take(before.len() as int) =~= before);
}

/// Without a stream the wait begins when the clip was selected; where one is to come it is
/// given time to start.
pub proof fn a_clip_without_a_stream_is_waited_for(s: State, since: u64)
    requires
        s.lanes.live_sel is None,
        since <= s.refs.sel_changed_at,
        s.refs.sel_changed_at + crate::select::AUTO_SKIP_SPAWN_GRACE <= u64::MAX,
    ensures
        !s.live() ==> s.watch_start(since) == s.refs.sel_changed_at,
        s.live() ==> s.watch_start(since) == s.refs.sel_changed_at
            + crate::select::AUTO_SKIP_SPAWN_GRACE,
{
}

/// A row that would not fit gives clips away at its end, as few as make it fit, and keeps
/// at least one.
pub proof fn a_row_gives_as_few_clips_as_it_must(p: Pane, asp: Seq<Aspect>, s: int, e: int, k: int)
    requires
        0 <= s < e <= asp.len(),
    ensures
        ({
            let f = p.heal(asp, s, e);
            &&& s < f <= e
            &&& f == s + 1 || p.usable(f - s) * WHOLE >= p.rmin * p.run(asp, s, f)
            &&& f < k <= e ==> p.usable(k - s) * WHOLE < p.rmin * p.run(asp, s, k)
        }),
    decreases e - s,
{
    if e > s + 1 && !p.fits(asp, s, e) {
        a_row_gives_as_few_clips_as_it_must(p, asp, s, e - 1, k);
    }
}

/// A packing is taken where it holds, and its rows follow one another without a gap.
pub proof fn a_packing_is_taken_where_it_holds(p: Pane, asp: Seq<Aspect>, starts: Seq<usize>, s: int, seed: int)
    requires
        0 <= s < asp.len(),
    ensures
        ({
            let e = p.packed_end(asp, starts, s, seed);
            let v = p.packed(asp, starts, s, seed);
            let proposed = if 0 <= seed < starts.len() {
                starts[seed] as int
            } else {
                asp.len() as int
            };
            &&& s < e <= asp.len()
            &&& s < proposed <= asp.len() && p.fits(asp, s, proposed) ==> e == proposed
            &&& v.len() > 0
            &&& v[0] == (s, e)
            &&& e < asp.len() ==> v.len() > 1 && v[1].0 == e
            &&& e == asp.len() ==> v.len() == 1
        }),
{
    let proposed = p.seed_end(asp, starts, seed);
    let top = if proposed < s + 1 {
        s + 1
    } else if proposed > asp.len() {
        asp.len() as int
    } else {
        proposed
    };
    a_row_gives_as_few_clips_as_it_must(p, asp, s, top, top);
    let e = p.packed_end(asp, starts, s, seed);
    let next = if e >= p.seed_end(asp, starts, seed) {
        seed + 1
    } else {
        seed
    };
    if e < asp.len() {
        let q = p.seed_end(asp, starts, next);
        let t = if q < e + 1 {
            e + 1
        } else if q > asp.len() {
            asp.len() as int
        } else {
            q
        };
        a_row_gives_as_few_clips_as_it_must(p, asp, e, t, t);
        assert(p.packed(asp, starts, e, next).len() > 0);
        assert(p.packed(asp, starts, e, next)[0].0 == e);
    }
}

} // verus!
