//! Where the camera, the strips and the tiles go, and how they get there.

use vstd::prelude::*;

use crate::camera::{
    main_turn, pinch_factor, portion, strip_place, tile_rest, zoom_asked, BarMotion, Camera, Scales,
    REACH,
};
use crate::flex::WHOLE;
use crate::model::ZoomStep;
use crate::ribbon::between;
use crate::state::State;

verus! {

/// A glide comes nearer to where it goes and never passes it; with the whole share it
/// arrives, with none it stays.
pub proof fn a_glide_comes_nearer(a: int, b: int, t: int, u: int)
    requires
        0 <= t <= u <= WHOLE,
    ensures
        a <= b ==> a <= between(a, b, t) <= between(a, b, u) <= b,
        a >= b ==> a >= between(a, b, t) >= between(a, b, u) >= b,
        between(a, b, 0) == a,
        between(a, b, WHOLE as int) == b,
{
    let d = if b >= a {
        b - a
    } else {
        a - b
    };
    assert(0 <= d * t / 1_000_000 <= d * u / 1_000_000 <= d) by (nonlinear_arith)
        requires
            0 <= d,
            0 <= t <= u <= 1_000_000,
    {
        assert(0 <= d * t <= d * u <= d * 1_000_000);
    }
    assert(d * 0 == 0) by (nonlinear_arith);
}

proof fn portion_keeps_the_side(x: int, num: int, den: int)
    requires
        0 <= num,
        0 < den,
    ensures
        x >= 0 ==> portion(x, num, den) >= 0,
        x <= 0 ==> portion(x, num, den) <= 0,
        num == den ==> portion(x, num, den) == x,
        num <= den && x >= 0 ==> portion(x, num, den) <= x,
        num <= den && x <= 0 ==> portion(x, num, den) >= x,
{
    let m = if x < 0 {
        -x
    } else {
        x
    };
    assert(m * num / den >= 0) by (nonlinear_arith)
        requires
            m >= 0,
            num >= 0,
            den > 0,
    ;
    if num <= den {
        assert(m * num / den <= m) by (nonlinear_arith)
            requires
                m >= 0,
                0 <= num <= den,
                den > 0,
        ;
    }
    if num == den {
        assert(m * num / den == m) by (nonlinear_arith)
            requires
                num == den,
                den > 0,
        ;
    }
    if x == 0 {
        assert(0 * num / den == 0) by (nonlinear_arith)
            requires
                den > 0,
        ;
    }
}

/// A zoom by key goes in by 1.15 times the zoom and out through as much, within the
/// bounds; a reset leads to the zoom that is none.
pub proof fn a_zoom_by_key(c: Camera, min: i128, max: i128)
    requires
        c.wf(),
        0 <= min <= max <= crate::camera::ZOOM_LIMIT,
    ensures
        ({
            let z = c.zoom_target as int;
            let i = zoom_asked(z, ZoomStep::In);
            let o = zoom_asked(z, ZoomStep::Out);
            &&& 100 * i <= 115 * z < 100 * i + 100
            &&& 115 * o <= 100 * z < 115 * o + 115
            &&& o <= z <= i
            &&& zoom_asked(z, ZoomStep::Reset) == 1_000_000
            &&& i <= max && i >= min ==> c.zooming(i, min, max).zoom_target == i
            &&& i > max ==> c.zooming(i, min, max).zoom_target == max
            &&& o < min ==> c.zooming(o, min, max).zoom_target == min
            &&& c.zooming(i, min, max).zoom == c.zoom
            &&& c.zooming(i, min, max).scroll_target == c.scroll_target
        }),
{
}

/// Fingers that go apart enlarge and those that close reduce, in proportion to how far
/// they went; fingers that rest do neither.
pub proof fn a_pinch_enlarges_or_reduces(zoom: i128, delta: int, s: int, min: i128, max: i128)
    requires
        0 <= zoom <= max,
        min <= zoom,
        0 <= min <= max <= crate::camera::ZOOM_LIMIT,
        0 <= s <= crate::camera::ZOOM_LIMIT,
        i64::MIN <= delta <= i64::MAX,
    ensures
        ({
            let z = Camera::pinched_zoom(zoom, pinch_factor(delta, s), min, max);
            &&& min <= z <= max
            &&& delta == 0 ==> z == zoom
            &&& delta >= 0 ==> z >= zoom
            &&& delta <= 0 ==> z <= zoom
        }),
        s == 1_000_000 && delta == 100_000_000 ==> pinch_factor(delta, s) == 1_100_000,
        s == 1_000_000 && delta == -100_000_000 ==> pinch_factor(delta, s) == 900_000,
{
    let f = pinch_factor(delta, s);
    portion_keeps_the_side(delta, s, 1_000_000_000);
    if s == 1_000_000 {
        assert(100_000_000 * s / 1_000_000_000 == 100_000);
    }
    assert(delta >= 0 ==> f >= 1_000_000);
    assert(delta <= 0 ==> f <= 1_000_000);
    let z = zoom as int;
    if f >= 1_000_000 {
        assert(z * f / 1_000_000 >= z) by (nonlinear_arith)
            requires
                z >= 0,
                f >= 1_000_000,
        ;
    }
    if f <= 1_000_000 {
        assert(z * f / 1_000_000 <= z) by (nonlinear_arith)
            requires
                z >= 0,
                f <= 1_000_000,
        ;
    }
}

/// The camera goes where the selection stands in the middle of the window, as far as the
/// content reaches.
pub proof fn the_camera_brings_a_tile_to_the_middle(c: Camera, ty: int, th: int, vh: int, max: i128)
    requires
        c.wf(),
        crate::camera::near(ty),
        crate::camera::near(th),
        0 <= vh <= REACH,
        0 <= max <= REACH,
    ensures
        ({
            let t = c.heading_for(ty, th, vh, max);
            let x = t.scroll_target;
            &&& 0 <= x <= max
            &&& t.scroll_vel == 0
            &&& t.scroll == c.scroll
            &&& 0 < x && x < max ==> 0 <= 2 * ty + th - (2 * x + vh) <= 1
            &&& x == 0 ==> 2 * ty + th - vh <= 1 || max == 0
            &&& x == max ==> 2 * ty + th - vh >= 2 * max || max == 0
        }),
{
}

/// The content goes with the wheel: a turn up scrolls up, a turn down scrolls down, as
/// far as the wheel is sensitive.
pub proof fn the_grid_goes_with_the_wheel(c: Camera, dy: int, s: int)
    requires
        c.wf(),
        0 <= s <= crate::camera::ZOOM_LIMIT,
        i64::MIN <= dy <= i64::MAX,
    ensures
        ({
            let t = c.panned(dy, s);
            &&& dy >= 0 ==> t.scroll_target <= c.scroll_target
            &&& dy <= 0 ==> t.scroll_target >= c.scroll_target
            &&& t.scroll == c.scroll
            &&& t.zoom_target == c.zoom_target
            &&& s == 1_000_000 && crate::camera::near(c.scroll_target - dy) ==> t.scroll_target
                == c.scroll_target - dy
        }),
{
    portion_keeps_the_side(dy, s, 1_000_000);
}

/// Coasting goes on in the direction of the speed, and the speed never grows.
pub proof fn coasting_goes_on(c: Camera, dt: u64, damp: i128)
    requires
        c.wf(),
        0 <= damp <= WHOLE,
    ensures
        ({
            let t = c.coasted(dt, damp);
            &&& c.scroll_vel >= 0 ==> t.scroll_target >= c.scroll_target && 0 <= t.scroll_vel
                <= c.scroll_vel
            &&& c.scroll_vel <= 0 ==> t.scroll_target <= c.scroll_target && c.scroll_vel
                <= t.scroll_vel <= 0
            &&& dt == 1_000_000_000 && crate::camera::near(c.scroll_target + c.scroll_vel)
                ==> t.scroll_target == c.scroll_target + c.scroll_vel
            &&& damp == WHOLE ==> t.scroll_vel == c.scroll_vel
        }),
{
    let v = c.scroll_vel as int;
    portion_keeps_the_side(v, dt as int, 1_000_000_000);
    portion_keeps_the_side(v, damp as int, 1_000_000);
}

/// When the content's height changes, what was in the middle of the window keeps its
/// share of that height; an unchanged height moves nothing.
pub proof fn the_middle_keeps_its_place(c: Camera, old_h: i128, new_h: i128, vh: i128)
    requires
        c.wf(),
        0 < old_h <= REACH,
        0 <= new_h <= REACH,
        0 <= vh <= REACH,
        c.scroll >= 0,
    ensures
        ({
            let t = c.anchored(old_h, new_h, vh);
            let half = vh as int / 2;
            let (p, q) = (c.scroll + half, t.scroll + half);
            &&& new_h == old_h ==> t == c
            &&& crate::camera::near(portion(p, new_h as int, old_h as int) - half) ==> q * old_h <= p
                * new_h < (q + 1) * old_h
        }),
{
    let half = vh as int / 2;
    let p = c.scroll + half;
    let (n, o) = (new_h as int, old_h as int);
    let x = p * n;
    assert(x >= 0) by (nonlinear_arith)
        requires
            p >= 0,
            n >= 0,
            x == p * n,
    ;
    vstd::arithmetic::div_mod::lemma_fundamental_div_mod(x, o);
    vstd::arithmetic::div_mod::lemma_mod_bound(x, o);
    let q = x / o;
    assert(q * o <= x < (q + 1) * o) by (nonlinear_arith)
        requires
            x == o * q + x % o,
            0 <= x % o < o,
    ;
    if n == o {
        portion_keeps_the_side(c.scroll + half, o, o);
        portion_keeps_the_side(c.scroll_target + half, o, o);
    }
}

/// The filmstrip goes with the larger turn of the wheel and stays on its chips; home, it
/// goes to the chip of its clip; put there, it is there.
pub proof fn the_filmstrip_goes_to_its_chip(
    c: Camera,
    i: usize,
    dx: int,
    dy: int,
    s: int,
    step: int,
    n: int,
    a: i128,
)
    requires
        c.wf(),
        i <= crate::state::MAX_CLIPS,
        0 <= s <= crate::camera::ZOOM_LIMIT,
        step > 0,
        1 <= n <= crate::state::MAX_CLIPS,
        c.strip_target <= (n - 1) * 1_000_000,
    ensures
        c.strip_put(i).strip_pos == i * 1_000_000,
        c.strip_put(i).strip_target == i * 1_000_000,
        c.strip_stepped(Some(i), a).strip_target == i * 1_000_000,
        c.strip_stepped(None, a).strip_target == c.strip_target,
        ({
            let t = c.strip_panned(dx, dy, s, step, n);
            let d = main_turn(dx, dy);
            &&& 0 <= t.strip_target <= (n - 1) * 1_000_000
            &&& d >= 0 ==> t.strip_target <= c.strip_target
            &&& d <= 0 ==> t.strip_target >= c.strip_target
            &&& t.strip_pos == c.strip_pos
        }),
        (dx >= 0 && dy >= 0 && dx > dy) ==> main_turn(dx, dy) == dx,
        (dx >= 0 && dy >= 0 && dx <= dy) ==> main_turn(dx, dy) == dy,
        main_turn(-dx, -dy) == -main_turn(dx, dy),
{
    portion_keeps_the_side(main_turn(dx, dy), s, step);
}

/// A turn of the wheel by the width of a chip moves a strip by one chip.
pub proof fn a_chips_width_is_a_chip(target: int, step: int, lo: int, hi: int)
    requires
        step > 0,
        lo <= target - 1_000_000,
        target + 1_000_000 <= hi,
    ensures
        strip_place(target, step, 1_000_000, step, lo, hi) == target - 1_000_000,
        strip_place(target, -step, 1_000_000, step, lo, hi) == target + 1_000_000,
{
    assert(step * 1_000_000 / step == 1_000_000) by (nonlinear_arith)
        requires
            step > 0,
    ;
}

/// The selection and the hovered tile stand out in their own size, and all others come to
/// rest in theirs; behind a view no tile moves.
pub proof fn tiles_stand_out_where_they_should(
    s: State,
    camera: bool,
    scales: Scales,
    i: int,
)
    requires
        0 <= i < s.clips.len() <= crate::state::MAX_CLIPS,
    ensures
        ({
            let t = s.tiles_sprung(camera, scales, WHOLE);
            let sel = i == s.refs.selected;
            let hov = !sel && s.refs.hovered == Some(i as usize);
            &&& t.clips.len() == s.clips.len()
            &&& t.clips[i].path == s.clips[i].path
            &&& s.modal() ==> t.clips == s.clips
            &&& !s.modal() && sel ==> t.clips[i].scale == scales.selected && t.clips[i].emph
                == 1_000_000
            &&& !s.modal() && hov ==> t.clips[i].scale == scales.hovered && t.clips[i].emph
                == 1_000_000
            &&& !s.modal() && !sel && !hov ==> t.clips[i].scale == 1_000_000 && t.clips[i].emph
                == 0
            &&& camera ==> t.scene.motion
        }),
{
    reveal(State::tiles_sprung);
    let to = tile_rest(i, s.refs, scales);
    a_glide_comes_nearer(s.clips[i].scale as int, to.scale as int, 0, WHOLE as int);
    a_glide_comes_nearer(s.clips[i].emph as int, to.emph as int, 0, WHOLE as int);
}

/// A bar that opens slides in, one that closes slides out; either comes nearer and is
/// there at the latest with the whole share.
pub proof fn a_bar_slides_in_and_out(b: BarMotion, a: i128)
    requires
        b.wf(),
        0 <= a <= WHOLE,
    ensures
        b.slide <= b.stepped(true, a).slide <= 1_000_000,
        0 <= b.stepped(false, a).slide <= b.slide,
        b.stepped(true, WHOLE).slide == 1_000_000,
        b.stepped(false, WHOLE).slide == 0,
        b.stepped(true, WHOLE).pos == b.target,
        b.stepped(true, a).target == b.target,
{
    a_glide_comes_nearer(b.slide as int, 1_000_000, a as int, WHOLE as int);
    a_glide_comes_nearer(b.slide as int, 0, a as int, WHOLE as int);
    a_glide_comes_nearer(b.pos as int, b.target as int, a as int, WHOLE as int);
}

/// A zoom that glides comes nearer to its target; where tiles slide it is there at once,
/// and a strip that is held keeps it.
pub proof fn a_zoom_comes_nearer(c: Camera, a: i128)
    requires
        c.wf(),
        0 <= a <= WHOLE,
    ensures
        c.zoom <= c.zoom_target ==> c.zoom <= c.zoom_stepped(false, false, a).zoom
            <= c.zoom_target,
        c.zoom >= c.zoom_target ==> c.zoom >= c.zoom_stepped(false, false, a).zoom
            >= c.zoom_target,
        c.zoom_stepped(false, true, a).zoom == c.zoom_target,
        c.zoom_stepped(true, false, a).zoom == c.zoom,
        c.zoom_stepped(true, true, a).zoom == c.zoom,
        c.chased(true, a).scroll == c.scroll_target,
        c.scroll <= c.scroll_target ==> c.scroll <= c.chased(false, a).scroll <= c.scroll_target,
        c.scroll >= c.scroll_target ==> c.scroll >= c.chased(false, a).scroll >= c.scroll_target,
{
    a_glide_comes_nearer(c.zoom as int, c.zoom_target as int, a as int, WHOLE as int);
    a_glide_comes_nearer(c.scroll as int, c.scroll_target as int, a as int, WHOLE as int);
}

/// Beyond either end the content is drawn back alike: as far from the bottom as, past the
/// top, from the top.
pub proof fn both_ends_draw_back_alike(c: Camera, d: Camera, max: int, keep: int, beyond: int)
    requires
        0 <= max,
        0 <= keep <= WHOLE,
        beyond > 0,
        c.scroll_target == max + beyond,
        d.scroll_target == -beyond,
    ensures
        c.drawn_back(max, keep) - max == -d.drawn_back(max, keep),
        0 <= c.drawn_back(max, keep) - max <= beyond,
{
    portion_keeps_the_side(beyond, keep, WHOLE as int);
}

} // verus!
