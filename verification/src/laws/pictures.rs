//! Which picture makes room in the atlas, and which part of a picture a tile shows.

use vstd::prelude::*;

use crate::atlas::{
    eviction_class, first_to_go, free_slot, given_up_slot_goes_first, Zone,
};
use crate::flex::{LENGTH_LIMIT, PIXEL, WHOLE};
use crate::grid::Layout;
use crate::model::{SlotKind, SlotOwner, Thumb};
use crate::picture::{display_shape, grown, shown_part, shown_part_is_within};
use crate::state::State;

verus! {

/// Clip `i` stands in row `r`.
pub open spec fn stands_in(lay: Layout, i: int, r: int) -> bool {
    0 <= r < lay.row_count() && lay.span(r).0 <= i < lay.span(r).1
}

/// How many rows lie between `r` and `c`.
pub open spec fn rows_between(r: int, c: int) -> int {
    if r < c {
        c - r
    } else {
        r - c
    }
}

/// A row is on or near the screen.
pub open spec fn seen(zone: Zone, r: int) -> bool {
    zone.first <= r && r <= zone.last
}

proof fn row_is_known(lay: Layout, i: int, r: int)
    requires
        lay.wf(),
        0 <= i < lay.len,
        stands_in(lay, i, r),
    ensures
        lay.row_holding(i) == r,
{
    crate::grid::rows_partition_the_library(lay, i, r);
    crate::grid::row_of_is_one(lay, i, r);
}

proof fn the_first_free_slot(slots: Seq<Option<SlotOwner>>, j: int)
    requires
        0 <= j <= slots.len() <= usize::MAX,
    ensures
        match free_slot(slots, j) {
            Some(k) => j <= k < slots.len() && slots[k as int] is None && forall|i: int|
                j <= i < k ==> (#[trigger] slots[i]) is Some,
            None => forall|i: int| j <= i < slots.len() ==> (#[trigger] slots[i]) is Some,
        },
    decreases slots.len() - j,
{
    if j < slots.len() && slots[j] is Some {
        the_first_free_slot(slots, j + 1);
    }
}

proof fn the_first_to_go_is_there(slots: Seq<Option<SlotOwner>>, lay: Layout, zone: Zone, n: int)
    requires
        n >= 1,
    ensures
        0 <= first_to_go(slots, lay, zone, n) < n,
    decreases n,
{
    if n > 1 {
        the_first_to_go_is_there(slots, lay, zone, n - 1);
    }
}

/// While a slot is free, a picture takes the first free one and nothing is given up.
pub proof fn a_free_slot_is_taken_first(
    s: State,
    lay: Layout,
    zone: Zone,
    incoming: SlotKind,
    f: int,
)
    requires
        0 <= f < s.slots.len() <= usize::MAX,
        s.slots[f] is None,
        forall|i: int| 0 <= i < f ==> (#[trigger] s.slots[i]) is Some,
    ensures
        s.slot_for(lay, zone, incoming) == Some(f as usize),
        s.slot_cleared(lay, zone, incoming) == s,
{
    reveal(State::slot_cleared);
    the_first_free_slot(s.slots, 0);
}

/// A full atlas gives up, of pictures of one kind on one side of the screen's edge, the
/// one whose row is farthest from the middle: no other is farther away.
pub proof fn the_farthest_picture_is_given_up(
    s: State,
    lay: Layout,
    zone: Zone,
    incoming: SlotKind,
    k: int,
    rj: int,
    rk: int,
)
    requires
        lay.wf(),
        0 < s.slots.len() <= usize::MAX,
        forall|i: int| 0 <= i < s.slots.len() ==> (#[trigger] s.slots[i]) is Some,
        0 <= k < s.slots.len(),
        s.slots[k]->0.clip < lay.len,
        stands_in(lay, s.slots[k]->0.clip as int, rk),
        s.slot_for(lay, zone, incoming) matches Some(j) && s.slots[j as int]->0.clip < lay.len
            && stands_in(lay, s.slots[j as int]->0.clip as int, rj),
    ensures
        ({
            let j = s.slot_for(lay, zone, incoming)->0 as int;
            let (a, b) = (s.slots[j]->0, s.slots[k]->0);
            let c = zone.center as int;
            &&& 0 <= j < s.slots.len()
            &&& eviction_class(seen(zone, rj), a.kind) == eviction_class(seen(zone, rk), b.kind)
                ==> rows_between(rk, c) <= rows_between(rj, c)
            &&& a.kind == b.kind && seen(zone, rj) == seen(zone, rk) ==> rows_between(rk, c)
                <= rows_between(rj, c)
        }),
{
    the_first_free_slot(s.slots, 0);
    let n = s.slots.len() as int;
    the_first_to_go_is_there(s.slots, lay, zone, n);
    let j = s.slot_for(lay, zone, incoming)->0 as int;
    given_up_slot_goes_first(s.slots, lay, zone, n, k);
    row_is_known(lay, s.slots[j]->0.clip as int, rj);
    row_is_known(lay, s.slots[k]->0.clip as int, rk);
}

/// A full atlas gives up sheets away from the screen first, then thumbnails away from
/// it, then sheets on it: the one given up is never a playing tile nor a thumbnail on the
/// screen; it is a thumbnail only where no sheet lies away from the screen, and a sheet
/// on the screen only where nothing lies away from it. For a sheet nothing on the screen
/// is given up.
pub proof fn what_is_out_of_sight_goes_first(
    s: State,
    lay: Layout,
    zone: Zone,
    incoming: SlotKind,
    k: int,
    rj: int,
    rk: int,
)
    requires
        lay.wf(),
        0 < s.slots.len() <= usize::MAX,
        forall|i: int| 0 <= i < s.slots.len() ==> (#[trigger] s.slots[i]) is Some,
        0 <= k < s.slots.len(),
        s.slots[k]->0.clip < lay.len,
        stands_in(lay, s.slots[k]->0.clip as int, rk),
        s.slot_for(lay, zone, incoming) matches Some(j) && s.slots[j as int]->0.clip < lay.len
            && stands_in(lay, s.slots[j as int]->0.clip as int, rj),
    ensures
        ({
            let j = s.slot_for(lay, zone, incoming)->0 as int;
            let (a, b) = (s.slots[j]->0, s.slots[k]->0);
            &&& !(a.kind is Live)
            &&& a.kind is Static ==> !seen(zone, rj) && !(b.kind is Anim && !seen(zone, rk))
            &&& a.kind is Anim && seen(zone, rj) ==> !(incoming is Anim) && (b.kind is Live || seen(
                zone,
                rk,
            ))
        }),
{
    the_first_free_slot(s.slots, 0);
    let n = s.slots.len() as int;
    the_first_to_go_is_there(s.slots, lay, zone, n);
    let j = s.slot_for(lay, zone, incoming)->0 as int;
    given_up_slot_goes_first(s.slots, lay, zone, n, k);
    row_is_known(lay, s.slots[j]->0.clip as int, rj);
    row_is_known(lay, s.slots[k]->0.clip as int, rk);
}

/// A picture gets a slot of a full atlas whenever one may be given up for it: a sheet or
/// a thumbnail away from the screen, or, for anything but a sheet, a sheet on it.
pub proof fn room_is_made_where_it_can_be(
    s: State,
    lay: Layout,
    zone: Zone,
    incoming: SlotKind,
    k: int,
    rk: int,
)
    requires
        lay.wf(),
        0 < s.slots.len() <= usize::MAX,
        forall|i: int| 0 <= i < s.slots.len() ==> (#[trigger] s.slots[i]) is Some,
        0 <= k < s.slots.len(),
        s.slots[k]->0.clip < lay.len,
        stands_in(lay, s.slots[k]->0.clip as int, rk),
        !(s.slots[k]->0.kind is Live),
        !seen(zone, rk) || (s.slots[k]->0.kind is Anim && !(incoming is Anim)),
    ensures
        s.slot_for(lay, zone, incoming) is Some,
{
    the_first_free_slot(s.slots, 0);
    let n = s.slots.len() as int;
    the_first_to_go_is_there(s.slots, lay, zone, n);
    given_up_slot_goes_first(s.slots, lay, zone, n, k);
    row_is_known(lay, s.slots[k]->0.clip as int, rk);
}

/// What is given up is gone from the atlas and from its clip, and only that: every other
/// slot and every other clip is as it was.
pub proof fn only_what_is_given_up_goes(
    s: State,
    lay: Layout,
    zone: Zone,
    incoming: SlotKind,
    k: int,
    i: int,
)
    requires
        s.wf(),
        s.slots.len() <= usize::MAX,
        forall|i: int| 0 <= i < s.slots.len() ==> (#[trigger] s.slots[i]) is Some,
        0 <= k < s.slots.len(),
        0 <= i < s.clips.len(),
    ensures
        ({
            let t = s.slot_cleared(lay, zone, incoming);
            match s.slot_for(lay, zone, incoming) {
                None => t == s,
                Some(j) => {
                    let o = s.slots[j as int]->0;
                    &&& t.slots.len() == s.slots.len()
                    &&& t.slots[j as int] is None
                    &&& k != j ==> t.slots[k] == s.slots[k]
                    &&& t.clips.len() == s.clips.len()
                    &&& i != o.clip ==> t.clips[i] == s.clips[i]
                    &&& i == o.clip ==> t.clips[i].path == s.clips[i].path
                    &&& i == o.clip && o.kind is Static ==> t.clips[i].thumb == Thumb::Absent
                        && t.clips[i].anim == s.clips[i].anim
                    &&& i == o.clip && o.kind is Anim ==> t.clips[i].anim == Thumb::Absent
                        && t.clips[i].thumb == s.clips[i].thumb
                    &&& t.refs == s.refs
                    &&& t.fx == s.fx
                },
            }
        }),
{
    reveal(State::slot_cleared);
    reveal(crate::state::tied);
    the_first_free_slot(s.slots, 0);
    the_first_to_go_is_there(s.slots, lay, zone, s.slots.len() as int);
}

/// A box shows the middle of a picture, as much of it as has the shape of the box: the
/// whole height of a picture that is wider than the box, else its whole width.
pub proof fn a_box_shows_the_middle(sw: int, sh: int, w: int, h: int)
    requires
        1 <= sw <= u32::MAX,
        1 <= sh <= u32::MAX,
        0 < w <= 8 * LENGTH_LIMIT,
        0 < h <= 8 * LENGTH_LIMIT,
    ensures
        ({
            let r = shown_part(sw, sh, w, h);
            &&& r.w == sw * PIXEL || r.h == sh * PIXEL
            &&& 0 <= sw * PIXEL - r.w - 2 * r.x <= 1
            &&& 0 <= sh * PIXEL - r.h - 2 * r.y <= 1
            &&& r.w <= sw * PIXEL
            &&& r.h <= sh * PIXEL
            &&& -h < r.w * h - r.h * w < w
        }),
{
    shown_part_is_within(sw, sh, w, h);
    let r = shown_part(sw, sh, w, h);
    if sw * h > w * sh {
        let x = sh * PIXEL * w;
        vstd::arithmetic::div_mod::lemma_fundamental_div_mod(x, h);
        vstd::arithmetic::div_mod::lemma_mod_bound(x, h);
        assert(0 <= x / h <= sw * 1_000_000) by (nonlinear_arith)
            requires
                x == sh * 1_000_000 * w,
                sw * h > w * sh,
                h > 0,
                sh >= 0,
                w >= 0,
        {
            assert(x == 1_000_000 * (w * sh));
            assert(0 <= x <= (sw * 1_000_000) * h);
        }
        assert(r.w * h - r.h * w == -(x % h)) by (nonlinear_arith)
            requires
                r.w == x / h,
                r.h == sh * 1_000_000,
                x == sh * 1_000_000 * w,
                x == h * (x / h) + x % h,
        ;
    } else {
        let x = sw * PIXEL * h;
        vstd::arithmetic::div_mod::lemma_fundamental_div_mod(x, w);
        vstd::arithmetic::div_mod::lemma_mod_bound(x, w);
        assert(0 <= x / w <= sh * 1_000_000) by (nonlinear_arith)
            requires
                x == sw * 1_000_000 * h,
                sw * h <= w * sh,
                w > 0,
                sw >= 0,
                h >= 0,
        {
            assert(x == 1_000_000 * (sw * h));
            assert(0 <= x <= (sh * 1_000_000) * w);
        }
        assert(r.w * h - r.h * w == x % w) by (nonlinear_arith)
            requires
                r.h == x / w,
                r.w == sw * 1_000_000,
                x == sw * 1_000_000 * h,
                x == w * (x / w) + x % w,
        ;
    }
}

/// A tile that stands out grows in one direction only: at rest it has its own size, and
/// standing out wholly it has the shape that is shown, to the micropixel.
pub proof fn a_tile_that_stands_out_takes_the_shape(w: int, h: int, a: int, b: int)
    requires
        0 < w <= LENGTH_LIMIT,
        0 < h <= LENGTH_LIMIT,
        0 < a <= LENGTH_LIMIT,
        0 < b <= LENGTH_LIMIT,
    ensures
        grown(w, h, a, b, 0) == (w, h),
        ({
            let (x, y) = grown(w, h, a, b, WHOLE as int);
            &&& x == w || y == h
            &&& x >= w && y >= h
            &&& -b < x * b - y * a < a
        }),
{
    if a * h > w * b {
        let p = h * a;
        let q = p / b;
        vstd::arithmetic::div_mod::lemma_fundamental_div_mod(p, b);
        vstd::arithmetic::div_mod::lemma_mod_bound(p, b);
        assert(q >= w && q * b == b * q && p == a * h) by (nonlinear_arith)
            requires
                p == h * a,
                q == p / b,
                a * h > w * b,
                b > 0,
        ;
        assert((q - w) * 0 == 0) by (nonlinear_arith);
        assert((q - w) * 1_000_000 / 1_000_000 == q - w);
    } else {
        let p = w * b;
        let q = p / a;
        vstd::arithmetic::div_mod::lemma_fundamental_div_mod(p, a);
        vstd::arithmetic::div_mod::lemma_mod_bound(p, a);
        assert(q >= h && q * a == a * q) by (nonlinear_arith)
            requires
                p == w * b,
                q == p / a,
                a * h <= w * b,
                a > 0,
        ;
        assert((q - h) * 0 == 0) by (nonlinear_arith);
        assert((q - h) * 1_000_000 / 1_000_000 == q - h);
    }
}

/// The shape that is shown is the picture's own, unless that is further from the square
/// than `most` to one.
pub proof fn a_shape_stays_near_the_square(sw: u32, sh: u32, most: int)
    requires
        0 < sw,
        0 < sh,
        WHOLE <= most <= LENGTH_LIMIT,
    ensures
        ({
            let (a, b) = display_shape(sw, sh, most);
            &&& 0 < a && 0 < b
            &&& a * WHOLE <= most * b
            &&& b * WHOLE <= most * a
            &&& sw * WHOLE <= most * sh && sh * WHOLE <= most * sw ==> a == sw && b == sh
            &&& sw > sh ==> a >= b
            &&& sw < sh ==> a <= b
        }),
{
    assert(most * most >= 1_000_000 * 1_000_000) by (nonlinear_arith)
        requires
            most >= 1_000_000,
    ;
    if sw * WHOLE > most * sh {
        assert(sw > sh) by (nonlinear_arith)
            requires
                sw * 1_000_000 > most * sh,
                most >= 1_000_000,
                sh > 0,
        ;
    } else if sh * WHOLE > most * sw {
        assert(sh > sw) by (nonlinear_arith)
            requires
                sh * 1_000_000 > most * sw,
                most >= 1_000_000,
                sw > 0,
        ;
    }
}

} // verus!
