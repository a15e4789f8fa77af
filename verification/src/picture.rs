//! Which part of a picture a tile shows, and how a tile that stands out takes on
//! the shape of its picture. Lengths are in micropixels, shares in millionths.

use vstd::prelude::*;

use crate::flex::{LENGTH_LIMIT, PIXEL, WHOLE};
use crate::grid::Rect;
use crate::ribbon::glide;

verus! {

/// A picture of `sw` by `sh` is wider than a box of `w` by `h`.
pub open spec fn wider(sw: int, sh: int, w: int, h: int) -> bool {
    sw * h > w * sh
}

/// The part of a picture of `sw` by `sh` pixels that a box of `w` by `h` shows:
/// the middle of it, as much as has the shape of the box.
pub open spec fn shown_part(sw: int, sh: int, w: int, h: int) -> Rect {
    if wider(sw, sh, w, h) {
        let cw = sh * PIXEL * w / h;
        Rect { x: ((sw * PIXEL - cw) / 2) as i128, y: 0, w: cw as i128, h: (sh * PIXEL) as i128 }
    } else {
        let ch = sw * PIXEL * h / w;
        Rect { x: 0, y: ((sh * PIXEL - ch) / 2) as i128, w: (sw * PIXEL) as i128, h: ch as i128 }
    }
}

/// The shown part lies within the picture.
pub proof fn shown_part_is_within(sw: int, sh: int, w: int, h: int)
    requires
        0 <= sw <= u32::MAX,
        0 <= sh <= u32::MAX,
        0 < w <= 8 * LENGTH_LIMIT,
        0 < h <= 8 * LENGTH_LIMIT,
    ensures
        ({
            let r = shown_part(sw, sh, w, h);
            &&& 0 <= r.x && 0 <= r.y && 0 <= r.w && 0 <= r.h
            &&& r.x + r.w <= sw * PIXEL
            &&& r.y + r.h <= sh * PIXEL
        }),
{
    if wider(sw, sh, w, h) {
        assert(sh * 1_000_000 * w <= sw * 1_000_000 * h) by (nonlinear_arith)
            requires
                w * sh <= sw * h,
        ;
        part_of_a_side(sh, sw, w, h);
    } else {
        assert(sw * 1_000_000 * h <= sh * 1_000_000 * w) by (nonlinear_arith)
            requires
                sw * h <= w * sh,
        ;
        part_of_a_side(sw, sh, h, w);
    }
}

proof fn part_of_a_side(a: int, b: int, p: int, q: int)
    requires
        0 <= a <= u32::MAX,
        0 <= b <= u32::MAX,
        0 < p <= 8 * LENGTH_LIMIT,
        0 < q <= 8 * LENGTH_LIMIT,
        a * 1_000_000 * p <= b * 1_000_000 * q,
    ensures
        0 <= a * 1_000_000 * p / q <= b * 1_000_000,
        0 <= a * 1_000_000 * p <= 0x1_0000_0000 * 1_000_000 * 8_000_000_000_000,
{
    let x = a * 1_000_000 * p;
    assert(0 <= x <= 0x1_0000_0000 * 1_000_000 * 8_000_000_000_000) by (nonlinear_arith)
        requires
            0 <= a <= 0x1_0000_0000,
            0 < p <= 8_000_000_000_000,
            x == a * 1_000_000 * p,
    ;
    assert(0 <= x / q <= b * 1_000_000) by (nonlinear_arith)
        requires
            0 <= x <= b * 1_000_000 * q,
            q > 0,
    ;
}

/// The part of a picture that a box shows.
pub fn crop(sw: u32, sh: u32, w: i128, h: i128) -> (r: Rect)
    requires
        0 < w <= 8 * LENGTH_LIMIT,
        0 < h <= 8 * LENGTH_LIMIT,
    ensures
        r == shown_part(sw as int, sh as int, w as int, h as int),
{
    proof {
        shown_part_is_within(sw as int, sh as int, w as int, h as int);
        assert(0 <= sw * h <= 0x1_0000_0000 * 8_000_000_000_000) by (nonlinear_arith)
            requires
                0 <= sw < 0x1_0000_0000,
                0 < h <= 8_000_000_000_000,
        ;
        assert(0 <= w * sh <= 0x1_0000_0000 * 8_000_000_000_000) by (nonlinear_arith)
            requires
                0 <= sh < 0x1_0000_0000,
                0 < w <= 8_000_000_000_000,
        ;
        assert(0 <= sh * 1_000_000 * w <= 0x1_0000_0000 * 1_000_000 * 8_000_000_000_000)
            by (nonlinear_arith)
            requires
                0 <= sh < 0x1_0000_0000,
                0 < w <= 8_000_000_000_000,
        ;
        assert(0 <= sw * 1_000_000 * h <= 0x1_0000_0000 * 1_000_000 * 8_000_000_000_000)
            by (nonlinear_arith)
            requires
                0 <= sw < 0x1_0000_0000,
                0 < h <= 8_000_000_000_000,
        ;
        if wider(sw as int, sh as int, w as int, h as int) {
            assert(sh * 1_000_000 * w <= sw * 1_000_000 * h) by (nonlinear_arith)
                requires
                    w * sh <= sw * h,
            ;
            part_of_a_side(sh as int, sw as int, w as int, h as int);
        } else {
            assert(sw * 1_000_000 * h <= sh * 1_000_000 * w) by (nonlinear_arith)
                requires
                    sw * h <= w * sh,
            ;
            part_of_a_side(sw as int, sh as int, h as int, w as int);
        }
    }
    let (a, b): (i128, i128) = (sw as i128, sh as i128);
    if a * h > w * b {
        let cw: i128 = b * PIXEL * w / h;
        Rect { x: (a * PIXEL - cw) / 2, y: 0, w: cw, h: b * PIXEL }
    } else {
        let ch: i128 = a * PIXEL * h / w;
        Rect { x: 0, y: (b * PIXEL - ch) / 2, w: a * PIXEL, h: ch }
    }
}

/// The shape in which a tile that stands out shows a picture of `sw` by `sh`: its
/// own, but no further from the square than `most` to one.
pub open spec fn display_shape(sw: u32, sh: u32, most: int) -> (int, int) {
    if sw * WHOLE > most * sh {
        (most, WHOLE as int)
    } else if sh * WHOLE > most * sw {
        (WHOLE as int, most)
    } else {
        (sw as int, sh as int)
    }
}

/// The size of a tile of `w` by `h` that stands out by the share `e`: it grows
/// towards the shape `a` to `b`, and never shrinks.
pub open spec fn grown(w: int, h: int, a: int, b: int, e: int) -> (int, int) {
    if a * h > w * b {
        (crate::ribbon::between(w, h * a / b, e), h)
    } else {
        (w, crate::ribbon::between(h, w * b / a, e))
    }
}

/// The size of a tile of `w` by `h` that stands out by the share `e` and shows a
/// picture of `sw` by `sh`, drawn no further from the square than `most` to one.
pub fn emphasised(w: i128, h: i128, sw: u32, sh: u32, most: i128, e: i128) -> (r: (i128, i128))
    requires
        0 < w <= LENGTH_LIMIT,
        0 < h <= LENGTH_LIMIT,
        0 < sw,
        0 < sh,
        WHOLE <= most <= LENGTH_LIMIT,
        0 <= e <= WHOLE,
    ensures
        (r.0 as int, r.1 as int) == ({
            let (a, b) = display_shape(sw, sh, most as int);
            grown(w as int, h as int, a, b, e as int)
        }),
        r.0 >= w,
        r.1 >= h,
{
    proof {
        assert(0 <= most * sh <= 1_000_000_000_000 * 0x1_0000_0000) by (nonlinear_arith)
            requires
                0 <= most <= 1_000_000_000_000,
                0 <= sh < 0x1_0000_0000,
        ;
        assert(0 <= most * sw <= 1_000_000_000_000 * 0x1_0000_0000) by (nonlinear_arith)
            requires
                0 <= most <= 1_000_000_000_000,
                0 <= sw < 0x1_0000_0000,
        ;
    }
    let (a, b): (i128, i128) = if sw as i128 * WHOLE > most * sh as i128 {
        (most, WHOLE)
    } else if sh as i128 * WHOLE > most * sw as i128 {
        (WHOLE, most)
    } else {
        (sw as i128, sh as i128)
    };
    proof {
        side_in_range(a as int, h as int);
        side_in_range(b as int, w as int);
    }
    if a * h > w * b {
        proof {
            longer_side(h as int, a as int, w as int, b as int);
            crate::ribbon::glide_keeps_to_its_way(w as int, h * a / (b as int), e as int);
            assert(h * a == a * h) by (nonlinear_arith);
        }
        (glide(w, h * a / b, e), h)
    } else {
        proof {
            assert(w * b >= h * a) by (nonlinear_arith)
                requires
                    a * h <= w * b,
            ;
            longer_side(w as int, b as int, h as int, a as int);
            crate::ribbon::glide_keeps_to_its_way(h as int, w * b / (a as int), e as int);
        }
        (w, glide(h, w * b / a, e))
    }
}

proof fn side_in_range(a: int, h: int)
    requires
        0 <= a <= 1_000_000_000_000,
        0 <= h <= 1_000_000_000_000,
    ensures
        0 <= a * h <= 1_000_000_000_000_000_000_000_000,
        0 <= h * a <= 1_000_000_000_000_000_000_000_000,
{
    assert(0 <= a * h <= 1_000_000_000_000 * 1_000_000_000_000) by (nonlinear_arith)
        requires
            0 <= a <= 1_000_000_000_000,
            0 <= h <= 1_000_000_000_000,
    ;
    assert(h * a == a * h) by (nonlinear_arith);
}

proof fn longer_side(h: int, a: int, w: int, b: int)
    requires
        h * a >= w * b,
        0 <= h * a <= 1_000_000_000_000_000_000_000_000,
        b > 0,
    ensures
        w <= h * a / b <= 1_000_000_000_000_000_000_000_000,
{
    let x = h * a;
    assert(w <= x / b <= x) by (nonlinear_arith)
        requires
            x >= w * b,
            x >= 0,
            b > 0,
    ;
}

} // verus!
