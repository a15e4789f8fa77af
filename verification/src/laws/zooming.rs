//! How rows flow under two fingers, and where they come to rest.

use vstd::prelude::*;

use crate::flex::{Aspect, FlexRow, Pane, LENGTH_LIMIT, WHOLE};
use crate::ribbon::{
    next_start, rest_x, settled_scroll, shared, RibbonGrip, RibbonItem, RibbonRow, Window,
};

verus! {

/// A row held by two fingers has its height at rest when the zoom is as it was, grows with
/// the zoom, and lets go of it where it is wholly blended.
pub proof fn rows_grow_under_the_fingers(g: RibbonGrip, h: RibbonGrip, n: int, nominal: int, off: int)
    requires
        g.wf(n),
        g.blend == 0,
        h == (RibbonGrip { zoom: h.zoom, ..g }),
        g.zoom <= h.zoom,
        0 <= nominal <= LENGTH_LIMIT,
        0 <= g.grip_row + off < g.rest_h@.len(),
    ensures
        g.row_h(nominal, off) <= h.row_h(nominal, off),
        g.zoom == g.z0 ==> g.row_h(nominal, off) == g.rest_h@[g.grip_row + off],
        (RibbonGrip { blend: WHOLE, ..g }).row_h(nominal, off) == nominal,
{
    let r = g.rest_h@[g.grip_row + off] as int;
    let (a, b, z) = (g.zoom as int, h.zoom as int, g.z0 as int);
    assert(0 <= r);
    let (x, y) = (r * a / z, r * b / z);
    assert(0 <= x <= y && (a == z ==> x == r)) by (nonlinear_arith)
        requires
            0 <= r,
            0 < a <= b,
            0 < z,
            x == r * a / z,
            y == r * b / z,
    {
        assert(r * a <= r * b);
        assert(a == z ==> r * a == r * z);
        assert(r * z / z == r);
    }
    assert(x * 1_000_000 + nominal * 0 == x * 1_000_000 && y * 1_000_000 + nominal * 0 == y
        * 1_000_000) by (nonlinear_arith);
    assert(x * 0 + nominal * 1_000_000 == nominal * 1_000_000) by (nonlinear_arith);
}

/// Where the rows come to rest the held row stays where it is, unless the content ends
/// before.
pub proof fn the_held_row_stays(win: Window, from: RibbonRow, rest: FlexRow, height: int)
    requires
        win.wf(),
        0 <= height,
    ensures
        ({
            let s = settled_scroll(win, from, rest, height);
            &&& 0 <= s
            &&& s <= height - win.vh || s == 0
            &&& 0 <= rest.y - from.y && rest.y - from.y + win.vh <= height ==> rest.y - s == from.y
        }),
{
}

/// A tile that rests in another row waits beyond the edge: one of an earlier row on the
/// left, one of a later row on the right.
pub proof fn tiles_of_other_rows_wait_outside(win: Window, rest: FlexRow, it: RibbonItem, w: int)
    requires
        w >= 0,
        rest.start < rest.end,
    ensures
        it.clip < rest.start ==> rest_x(win, rest, it, w) + w <= 0,
        it.clip >= rest.end ==> rest_x(win, rest, it, w) >= win.vw,
        rest.start <= it.clip < rest.end ==> rest_x(win, rest, it, w) == rest.x@[it.clip
            - rest.start],
{
}

/// A tile over the right edge shows in the next row what the edge cuts off: the two parts
/// make up the tile.
pub proof fn the_two_parts_make_up_the_tile(win: Window, it: RibbonItem)
    requires
        win.wf(),
        it.w > 0,
        it.x < win.right() < it.x + it.w,
    ensures
        (win.right() - it.x) + (win.entry(it, it.w as int) + it.w - win.left()) == it.w,
{
    let (a, w) = (win.right() - it.x, it.w as int);
    assert(a * w / w == a) by (nonlinear_arith)
        requires
            w > 0,
    ;
}

/// A tile over the left edge shows in the row before what the edge cuts off.
pub proof fn the_parts_before_make_up_the_tile(win: Window, it: RibbonItem)
    requires
        win.wf(),
        it.w > 0,
        it.x < win.left() < it.x + it.w,
    ensures
        (it.x + it.w - win.left()) + (win.right() - win.exit(it, it.w as int)) == it.w,
{
    let (a, w) = (win.left() - it.x, it.w as int);
    assert(a * w / w == a) by (nonlinear_arith)
        requires
            w > 0,
    ;
}

/// A tile that two rows show goes to the row that shows more of it, where that row can
/// take it; every row takes at least one clip and leaves one for the next.
pub proof fn a_shared_tile_goes_where_more_of_it_shows(
    p: Pane,
    asp: Seq<Aspect>,
    rows: Seq<RibbonRow>,
    i: int,
    cur: int,
)
    requires
        0 <= i < rows.len() - 1,
        rows[i].items@.len() > 0,
        0 <= cur < asp.len() - 1,
    ensures
        ({
            let last = rows[i].items@.last();
            let s = next_start(p, asp, rows, i, cur);
            let edge = p.vw - p.gap;
            &&& cur < s < asp.len()
            &&& shared(rows, i) && edge >= crate::flex::PIXEL && 2 * (edge - last.x) < last.w && cur
                < last.clip < asp.len() ==> s == last.clip
            &&& !shared(rows, i) && cur <= last.clip < asp.len() - 1 ==> s == last.clip + 1
            &&& shared(rows, i) && edge >= crate::flex::PIXEL && 2 * (edge - last.x) >= last.w && cur
                <= last.clip < asp.len() - 1 && p.fits(asp, cur, last.clip + 1) ==> s == last.clip
                + 1
        }),
{
}

/// Rows that are not known yet stand on the screen at the plain height, but for a rest.
pub proof fn unknown_rows_have_the_plain_height(g: RibbonGrip, n: int, nominal: int, off: int)
    requires
        g.wf(n),
        g.blend == 0,
        0 <= nominal <= LENGTH_LIMIT,
        !(0 <= g.grip_row + off < g.rest_h@.len()),
        100 * g.zoom >= g.z0,
    ensures
        g.row_h(nominal, off) <= nominal,
        (nominal - g.row_h(nominal, off) - 1) * g.z0 <= g.zoom,
{
    let (a, z) = (g.zoom as int, g.z0 as int);
    let r = nominal * z / a;
    let x = r * a / z;
    assert(x <= nominal && (nominal - x - 1) * z <= a && 0 <= x) by (nonlinear_arith)
        requires
            0 < a,
            0 < z,
            0 <= nominal,
            r == nominal * z / a,
            x == r * a / z,
    {
        assert(r * a <= nominal * z < r * a + a);
        assert(x * z <= r * a < x * z + z);
        assert(r >= 0);
    }
    assert(x * 1_000_000 + nominal * 0 == x * 1_000_000) by (nonlinear_arith);
}

/// A row is drawn on its way to rest where it is on the screen at either end.
pub proof fn rows_are_drawn_where_they_are_seen(win: Window, from: RibbonRow, rest: FlexRow, scroll: int)
    requires
        win.wf(),
        from.h > 0,
        rest.h > 0,
    ensures
        0 <= from.y < win.vh ==> crate::ribbon::seen(win, from, rest, scroll),
        0 <= rest.y - scroll < win.vh ==> crate::ribbon::seen(win, from, rest, scroll),
        from.y >= win.vh && rest.y - scroll >= win.vh ==> !crate::ribbon::seen(
            win,
            from,
            rest,
            scroll,
        ),
        from.y + from.h <= 0 && rest.y - scroll + rest.h <= 0 ==> !crate::ribbon::seen(
            win,
            from,
            rest,
            scroll,
        ),
{
}

} // verus!
