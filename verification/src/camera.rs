//! The camera over the grid, the filmstrip under the quick view, and the springs
//! that tiles grow and shrink by.
//!
//! Lengths are in micropixels, speeds in micropixels a second; zooms, shares and
//! places on a strip are in millionths. How far something comes in a frame, as a
//! share of its way, is for the caller to say: it follows from the length of the
//! frame by an exponential.

use vstd::prelude::*;

use crate::arrivals::REST_SCALE;
use crate::flex::{LENGTH_LIMIT, PIXEL, WHOLE};
use crate::model::{Clip, ZoomStep};
use crate::ribbon::{clamp_to, glide};
use crate::state::{Refs, Scene, State, Switchblade};

verus! {

/// The furthest that the camera goes, and the largest speed that it may have.
pub const REACH: i128 = 1_000_000_000_000_000_000;

/// The largest product of what is within ten times that reach.
pub const PRODUCT: i128 = 100_000_000_000_000_000_000_000_000_000_000_000_000;

/// The largest zoom that the settings may allow.
pub const ZOOM_LIMIT: i128 = 1_000_000_000_000;

/// What set the camera going: a key, or the wheel. Each has a strength of its
/// own.
#[derive(Clone, Copy, PartialEq, Eq, Structural, Debug)]
pub enum Chase {
    Keys,
    Wheel,
}

/// Where the camera and the filmstrip are, and where they are going.
#[derive(Clone, Copy, PartialEq, Eq, Structural, Debug)]
pub struct Camera {
    pub scroll: i128,
    pub scroll_target: i128,
    pub scroll_vel: i128,
    pub zoom: i128,
    pub zoom_target: i128,
    pub chase: Chase,
    /// The place that the middle of the filmstrip stands on.
    pub strip_pos: i128,
    pub strip_target: i128,
}

/// `x` kept within the camera's reach.
pub open spec fn reached(x: int) -> int {
    crate::ribbon::clamped(x, -(REACH as int), REACH as int)
}

/// `num` parts of `x` of which `den` make the whole, towards zero.
pub open spec fn portion(x: int, num: int, den: int) -> int {
    if x >= 0 {
        x * num / den
    } else {
        -((-x) * num / den)
    }
}

/// Two values are further apart than `rest`.
pub open spec fn apart(a: int, b: int, rest: int) -> bool {
    a - b > rest || b - a > rest
}

/// Within the camera's reach.
pub open spec fn near(x: int) -> bool {
    -REACH <= x <= REACH
}

/// The larger of two turns of the wheel, sideways or up and down.
pub open spec fn main_turn(dx: int, dy: int) -> int {
    if (if dx < 0 {
        -dx
    } else {
        dx
    }) > (if dy < 0 {
        -dy
    } else {
        dy
    }) {
        dx
    } else {
        dy
    }
}

/// The zoom that a key asks for: 1.15 times the zoom, the zoom through 1.15, or
/// the zoom that is none.
pub open spec fn zoom_asked(zoom: int, step: ZoomStep) -> int {
    match step {
        ZoomStep::In => zoom * 115 / 100,
        ZoomStep::Out => zoom * 100 / 115,
        ZoomStep::Reset => WHOLE as int,
    }
}

/// What a pinch multiplies the zoom by, at least a hundredth: the whole and
/// `delta` billionths, weighed by how sensitive pinches are.
pub open spec fn pinch_factor(delta: int, sensitivity: int) -> int {
    let f = WHOLE + portion(delta, sensitivity, 1_000_000_000);
    if f < 10_000 {
        10_000
    } else {
        f
    }
}

/// How near the camera must be to count as at rest.
pub const SCROLL_REST: i128 = 300_000;

/// How near the zoom must be to count as at rest.
pub const ZOOM_REST: i128 = 1_000;

/// How near a strip must be to count as at rest.
pub const STRIP_REST: i128 = 1_000;

/// How near to its bounds the camera jumps the rest of the way back.
pub const BAND_REST: i128 = 500_000;

impl Camera {
    pub open spec fn wf(self) -> bool {
        &&& near(self.scroll as int)
        &&& near(self.scroll_target as int)
        &&& near(self.scroll_vel as int)
        &&& 0 <= self.zoom <= ZOOM_LIMIT
        &&& 0 <= self.zoom_target <= ZOOM_LIMIT
        &&& 0 <= self.strip_pos <= REACH
        &&& 0 <= self.strip_target <= REACH
    }

    /// The camera with another zoom to come to, within the bounds for zooms.
    pub open spec fn zooming(self, target: int, min: i128, max: i128) -> Camera {
        Camera {
            zoom_target: crate::ribbon::clamped(target, min as int, max as int) as i128,
            ..self
        }
    }

    /// The zoom that a pinch by a factor leads to from `zoom`.
    pub open spec fn pinched_zoom(zoom: i128, factor: int, min: i128, max: i128) -> int {
        crate::ribbon::clamped(zoom * factor / (WHOLE as int), min as int, max as int)
    }

    /// The camera on its way to a tile, of height `th` at `ty`, in the middle of
    /// a window of height `vh`.
    pub open spec fn heading_for(self, ty: int, th: int, vh: int, max: i128) -> Camera {
        Camera {
            scroll_target: crate::ribbon::clamped((2 * ty + th - vh) / 2, 0, max as int) as i128,
            scroll_vel: 0,
            chase: Chase::Keys,
            ..self
        }
    }

    /// The camera after the wheel has turned by `dy` over the grid: it goes with
    /// the wheel, and its speed follows that of the wheel.
    pub open spec fn panned(self, dy: int, sensitivity: int) -> Camera {
        let d = -portion(dy, sensitivity, WHOLE as int);
        Camera {
            scroll_target: reached(self.scroll_target + d) as i128,
            scroll_vel: reached(portion(self.scroll_vel as int, 7, 10) + d * 18) as i128,
            chase: Chase::Wheel,
            ..self
        }
    }

    /// The camera after the zoom has come closer to its target: where a strip is
    /// held the fingers set the zoom, where tiles glide the zoom is there at
    /// once.
    pub open spec fn zoom_stepped(self, held: bool, at_once: bool, a: i128) -> Camera {
        Camera {
            zoom: if held {
                self.zoom
            } else if at_once {
                self.zoom_target
            } else {
                crate::ribbon::between(
                    self.zoom as int,
                    self.zoom_target as int,
                    a as int,
                ) as i128
            },
            ..self
        }
    }

    /// A place that keeps its share of the content's height, measured in the
    /// middle of the window, when that height changes.
    pub open spec fn kept_place(x: int, old_h: int, new_h: int, half: int) -> int {
        reached(portion(x + half, new_h, old_h) - half)
    }

    /// The camera after the content's height has changed.
    pub open spec fn anchored(self, old_h: i128, new_h: i128, vh: i128) -> Camera {
        if old_h > 0 {
            let half = vh as int / 2;
            Camera {
                scroll: Camera::kept_place(
                    self.scroll as int,
                    old_h as int,
                    new_h as int,
                    half,
                ) as i128,
                scroll_target: Camera::kept_place(
                    self.scroll_target as int,
                    old_h as int,
                    new_h as int,
                    half,
                ) as i128,
                ..self
            }
        } else {
            self
        }
    }

    /// The camera after it has coasted for `dt`, its speed damped.
    pub open spec fn coasted(self, dt: u64, damp: i128) -> Camera {
        Camera {
            scroll_target: reached(
                self.scroll_target + portion(self.scroll_vel as int, dt as int, 1_000_000_000),
            ) as i128,
            scroll_vel: portion(self.scroll_vel as int, damp as int, WHOLE as int) as i128,
            ..self
        }
    }

    /// Where a target beyond the bounds is after a frame in which it kept `keep`
    /// of its distance: at the bound once it is next to it.
    pub open spec fn drawn_back(self, max: int, keep: int) -> int {
        if self.scroll_target < 0 {
            let t = portion(self.scroll_target as int, keep, WHOLE as int);
            if t > -BAND_REST {
                0
            } else {
                t
            }
        } else if self.scroll_target > max {
            let t = portion(self.scroll_target - max, keep, WHOLE as int);
            if t < BAND_REST {
                max
            } else {
                max + t
            }
        } else {
            self.scroll_target as int
        }
    }

    /// The camera after its target has been drawn back within the bounds. A
    /// strip that is held keeps the view where it is.
    pub open spec fn banded(self, held: bool, max: i128, keep: i128) -> Camera {
        if held {
            Camera { scroll_target: self.scroll, scroll_vel: 0, ..self }
        } else if self.scroll_target < 0 || self.scroll_target > max {
            Camera {
                scroll_target: self.drawn_back(max as int, keep as int) as i128,
                scroll_vel: 0,
                ..self
            }
        } else {
            self
        }
    }

    /// The camera after a frame on its way, or at its target at once behind a
    /// view.
    pub open spec fn chased(self, modal: bool, a: i128) -> Camera {
        Camera {
            scroll: if modal {
                self.scroll_target
            } else {
                crate::ribbon::between(
                    self.scroll as int,
                    self.scroll_target as int,
                    a as int,
                ) as i128
            },
            ..self
        }
    }

    /// The camera is on its way.
    pub open spec fn moving(self) -> bool {
        ||| apart(self.scroll_target as int, self.scroll as int, SCROLL_REST as int)
        ||| apart(self.zoom_target as int, self.zoom as int, ZOOM_REST as int)
    }

    /// The filmstrip after a frame, homing on a clip where it does.
    pub open spec fn strip_stepped(self, home: Option<usize>, a: i128) -> Camera {
        let target = match home {
            Some(i) => (i * WHOLE) as i128,
            None => self.strip_target,
        };
        Camera {
            strip_target: target,
            strip_pos: crate::ribbon::between(
                self.strip_pos as int,
                target as int,
                a as int,
            ) as i128,
            ..self
        }
    }

    /// The filmstrip at a clip, at once.
    pub open spec fn strip_put(self, i: usize) -> Camera {
        Camera { strip_pos: (i * WHOLE) as i128, strip_target: (i * WHOLE) as i128, ..self }
    }

    /// The filmstrip after the wheel has turned.
    pub open spec fn strip_panned(
        self,
        dx: int,
        dy: int,
        sensitivity: int,
        step: int,
        n: int,
    ) -> Camera {
        Camera {
            strip_target: strip_place(
                self.strip_target as int,
                main_turn(dx, dy),
                sensitivity,
                step,
                0,
                (n - 1) * WHOLE,
            ) as i128,
            ..self
        }
    }
}

/// Where a strip goes when the wheel turns by `d`: `step` is from one chip to
/// the next.
pub open spec fn strip_place(
    target: int,
    d: int,
    sensitivity: int,
    step: int,
    lo: int,
    hi: int,
) -> int {
    crate::ribbon::clamped(target - portion(d, sensitivity, step), lo, hi)
}

/// `x` kept within the camera's reach.
fn reach(x: i128) -> (r: i128)
    ensures
        r == reached(x as int),
        near(r as int),
{
    clamp_to(x, -REACH, REACH)
}

/// `num` parts of `x` of which `den` make the whole, towards zero.
fn part(x: i128, num: i128, den: i128) -> (r: i128)
    requires
        -10 * REACH <= x <= 10 * REACH,
        0 <= num <= 10 * REACH,
        den > 0,
    ensures
        r == portion(x as int, num as int, den as int),
        -PRODUCT <= r <= PRODUCT,
        num <= den ==> (x >= 0 ==> 0 <= r <= x) && (x < 0 ==> x <= r <= 0),
{
    let m: i128 = if x < 0 {
        -x
    } else {
        x
    };
    proof {
        let p = m * num;
        assert(0 <= p <= PRODUCT) by (nonlinear_arith)
            requires
                0 <= m <= 10_000_000_000_000_000_000,
                0 <= num <= 10_000_000_000_000_000_000,
                p == m * num,
                PRODUCT == 100_000_000_000_000_000_000_000_000_000_000_000_000,
        ;
        assert(0 <= p / (den as int) <= p) by (nonlinear_arith)
            requires
                0 <= p,
                den >= 1,
        ;
        if num <= den {
            assert(p / (den as int) <= m) by (nonlinear_arith)
                requires
                    p == m * num,
                    0 <= m,
                    num <= den,
                    den >= 1,
            ;
        }
    }
    if x < 0 {
        -(m * num / den)
    } else {
        m * num / den
    }
}

fn are_apart(a: i128, b: i128, rest: i128) -> (r: bool)
    requires
        -2 * REACH <= a <= 2 * REACH,
        -2 * REACH <= b <= 2 * REACH,
    ensures
        r == apart(a as int, b as int, rest as int),
{
    a - b > rest || b - a > rest
}

fn turn_of(dx: i64, dy: i64) -> (d: i128)
    ensures
        d == main_turn(dx as int, dy as int),
        -REACH * 10 <= d <= REACH * 10,
{
    let x: i128 = dx as i128;
    let y: i128 = dy as i128;
    let ax: i128 = if x < 0 {
        -x
    } else {
        x
    };
    let ay: i128 = if y < 0 {
        -y
    } else {
        y
    };
    if ax > ay {
        x
    } else {
        y
    }
}

impl Camera {
    /// Asks for another zoom by a key.
    pub fn zoom_by(&mut self, step: ZoomStep, min: i128, max: i128)
        requires
            old(self).wf(),
            0 <= min <= max <= ZOOM_LIMIT,
        ensures
            *final(self) == old(self).zooming(zoom_asked(old(self).zoom_target as int, step), min, max),
            final(self).wf(),
    {
        let z: i128 = match step {
            ZoomStep::In => self.zoom_target * 115 / 100,
            ZoomStep::Out => self.zoom_target * 100 / 115,
            ZoomStep::Reset => WHOLE,
        };
        self.set_zoom(z, min, max);
    }

    /// Asks for another zoom.
    pub fn set_zoom(&mut self, target: i128, min: i128, max: i128)
        requires
            old(self).wf(),
            0 <= min <= max <= ZOOM_LIMIT,
        ensures
            *final(self) == old(self).zooming(target as int, min, max),
            final(self).wf(),
    {
        self.zoom_target = clamp_to(target, min, max);
    }

    /// Asks for another zoom by a pinch that holds no strip.
    pub fn pinch(&mut self, delta: i64, sensitivity: i128, min: i128, max: i128)
        requires
            old(self).wf(),
            0 <= min <= max <= ZOOM_LIMIT,
            0 <= sensitivity <= ZOOM_LIMIT,
        ensures
            *final(self) == old(self).zooming(
                old(self).zoom_target * pinch_factor(delta as int, sensitivity as int) / (
                WHOLE as int),
                min,
                max,
            ),
            final(self).wf(),
    {
        let z: i128 = stretched(self.zoom_target, delta, sensitivity);
        self.set_zoom(z, min, max);
    }

    /// Zooms at once, as a pinch that holds a strip does. Returns whether that
    /// moved the zoom: by more than a millionth.
    pub fn pinch_held(&mut self, delta: i64, sensitivity: i128, min: i128, max: i128) -> (moved: bool)
        requires
            old(self).wf(),
            0 <= min <= max <= ZOOM_LIMIT,
            0 <= sensitivity <= ZOOM_LIMIT,
        ensures
            ({
                let z = Camera::pinched_zoom(
                    old(self).zoom,
                    pinch_factor(delta as int, sensitivity as int),
                    min,
                    max,
                );
                &&& moved == apart(z, old(self).zoom as int, 1)
                &&& *final(self) == (if moved {
                    Camera { zoom: z as i128, zoom_target: z as i128, ..*old(self) }
                } else {
                    *old(self)
                })
            }),
            final(self).wf(),
    {
        let z: i128 = clamp_to(stretched(self.zoom, delta, sensitivity), min, max);
        if are_apart(z, self.zoom, 1) {
            self.zoom = z;
            self.zoom_target = z;
            true
        } else {
            false
        }
    }

    /// Brings a tile to the middle of the window, as far as the grid reaches.
    pub fn scroll_to(&mut self, ty: i128, th: i128, vh: i128, max: i128)
        requires
            old(self).wf(),
            near(ty as int),
            near(th as int),
            0 <= vh <= LENGTH_LIMIT,
            0 <= max <= REACH,
        ensures
            *final(self) == old(self).heading_for(ty as int, th as int, vh as int, max),
            final(self).wf(),
    {
        let d: i128 = 2 * ty + th - vh;
        let half: i128 = if d < 0 {
            -((1 - d) / 2)
        } else {
            d / 2
        };
        assert(half == d as int / 2);
        self.scroll_target = clamp_to(half, 0, max);
        self.scroll_vel = 0;
        self.chase = Chase::Keys;
    }

    /// Pans the grid with the wheel.
    pub fn pan(&mut self, dy: i64, sensitivity: i128)
        requires
            old(self).wf(),
            0 <= sensitivity <= ZOOM_LIMIT,
        ensures
            *final(self) == old(self).panned(dy as int, sensitivity as int),
            final(self).wf(),
    {
        let d: i128 = -turned(dy as i128, sensitivity, WHOLE);
        self.scroll_target = reach(self.scroll_target + d);
        self.scroll_vel = reach(part(self.scroll_vel, 7, 10) + d * 18);
        self.chase = Chase::Wheel;
    }

    /// Moves the zoom towards its target by the share `a` of the way. Returns
    /// whether the zoom has moved.
    pub fn step_zoom(&mut self, held: bool, at_once: bool, a: i128) -> (zoomed: bool)
        requires
            old(self).wf(),
            0 <= a <= WHOLE,
        ensures
            *final(self) == old(self).zoom_stepped(held, at_once, a),
            zoomed == apart(final(self).zoom as int, old(self).zoom as int, 10),
            final(self).wf(),
    {
        let before: i128 = self.zoom;
        if held {
        } else if at_once {
            self.zoom = self.zoom_target;
        } else {
            proof {
                crate::ribbon::glide_keeps_to_its_way(
                    self.zoom as int,
                    self.zoom_target as int,
                    a as int,
                );
            }
            self.zoom = glide(self.zoom, self.zoom_target, a);
        }
        are_apart(self.zoom, before, 10)
    }

    /// Keeps what is in the middle of the window there when the content's height
    /// changes from `old_h` to `new_h`.
    pub fn anchor(&mut self, old_h: i128, new_h: i128, vh: i128)
        requires
            old(self).wf(),
            near(old_h as int),
            0 <= new_h <= REACH,
            0 <= vh <= LENGTH_LIMIT,
        ensures
            *final(self) == old(self).anchored(old_h, new_h, vh),
            final(self).wf(),
    {
        if old_h > 0 {
            let half: i128 = vh / 2;
            self.scroll = reach(part(self.scroll + half, new_h, old_h) - half);
            self.scroll_target = reach(part(self.scroll_target + half, new_h, old_h) - half);
        }
    }

    /// Lets the camera coast for `dt` nanoseconds, its speed damped by `damp`.
    pub fn coast(&mut self, dt: u64, damp: i128)
        requires
            old(self).wf(),
            dt <= REACH,
            0 <= damp <= WHOLE,
        ensures
            *final(self) == old(self).coasted(dt, damp),
            final(self).wf(),
    {
        self.scroll_target = reach(
            self.scroll_target + part(self.scroll_vel, dt as i128, 1_000_000_000),
        );
        self.scroll_vel = part(self.scroll_vel, damp, WHOLE);
    }

    /// Draws a target beyond the bounds back, of whose distance `keep` stays.
    pub fn band(&mut self, held: bool, max: i128, keep: i128)
        requires
            old(self).wf(),
            0 <= max <= REACH,
            0 <= keep <= WHOLE,
        ensures
            *final(self) == old(self).banded(held, max, keep),
            final(self).wf(),
    {
        if held {
            self.scroll_target = self.scroll;
            self.scroll_vel = 0;
        } else if self.scroll_target < 0 {
            let t: i128 = part(self.scroll_target, keep, WHOLE);
            self.scroll_target = if t > -BAND_REST {
                0
            } else {
                t
            };
            self.scroll_vel = 0;
        } else if self.scroll_target > max {
            let t: i128 = part(self.scroll_target - max, keep, WHOLE);
            self.scroll_target = if t < BAND_REST {
                max
            } else {
                max + t
            };
            self.scroll_vel = 0;
        }
    }

    /// Moves the camera towards its target by the share `a` of the way; behind a
    /// view it is there at once. Returns whether that leaves something to see on
    /// its way.
    pub fn chase_target(&mut self, modal: bool, a: i128) -> (motion: bool)
        requires
            old(self).wf(),
            0 <= a <= WHOLE,
        ensures
            *final(self) == old(self).chased(modal, a),
            motion == (!modal && final(self).moving()),
            final(self).wf(),
    {
        if modal {
            self.scroll = self.scroll_target;
            return false;
        }
        proof {
            crate::ribbon::glide_keeps_to_its_way(
                self.scroll as int,
                self.scroll_target as int,
                a as int,
            );
        }
        self.scroll = glide(self.scroll, self.scroll_target, a);
        are_apart(self.scroll_target, self.scroll, SCROLL_REST) || are_apart(
            self.zoom_target,
            self.zoom,
            ZOOM_REST,
        )
    }

    /// Moves the filmstrip towards where it goes, which is clip `home` where it
    /// homes. Returns whether it is on its way.
    pub fn step_strip(&mut self, home: Option<usize>, a: i128) -> (motion: bool)
        requires
            old(self).wf(),
            home matches Some(i) ==> i <= crate::state::MAX_CLIPS,
            0 <= a <= WHOLE,
        ensures
            *final(self) == old(self).strip_stepped(home, a),
            motion == apart(
                final(self).strip_target as int,
                final(self).strip_pos as int,
                STRIP_REST as int,
            ),
            final(self).wf(),
    {
        if let Some(i) = home {
            self.strip_target = i as i128 * WHOLE;
        }
        proof {
            crate::ribbon::glide_keeps_to_its_way(
                self.strip_pos as int,
                self.strip_target as int,
                a as int,
            );
        }
        self.strip_pos = glide(self.strip_pos, self.strip_target, a);
        are_apart(self.strip_target, self.strip_pos, STRIP_REST)
    }

    /// Puts the filmstrip on a clip.
    pub fn put_strip(&mut self, i: usize)
        requires
            old(self).wf(),
            i <= crate::state::MAX_CLIPS,
        ensures
            *final(self) == old(self).strip_put(i),
            final(self).wf(),
    {
        self.strip_pos = i as i128 * WHOLE;
        self.strip_target = self.strip_pos;
    }

    /// Pans the filmstrip with the wheel, over a library of `n` clips. Returns
    /// the clip whose chip is nearest to where it goes.
    pub fn pan_strip(&mut self, dx: i64, dy: i64, sensitivity: i128, step: i128, n: usize) -> (r:
        Option<usize>)
        requires
            old(self).wf(),
            0 <= sensitivity <= ZOOM_LIMIT,
            n <= crate::state::MAX_CLIPS,
        ensures
            n == 0 || step <= PIXEL ==> r is None && *final(self) == *old(self),
            n > 0 && step > PIXEL ==> {
                &&& *final(self) == old(self).strip_panned(
                    dx as int,
                    dy as int,
                    sensitivity as int,
                    step as int,
                    n as int,
                )
                &&& r == Some(((final(self).strip_target + WHOLE / 2) / (WHOLE as int)) as usize)
                &&& r->0 < n
            },
            final(self).wf(),
    {
        if n == 0 || step <= PIXEL {
            return None;
        }
        let d: i128 = turn_of(dx, dy);
        let last: i128 = (n as i128 - 1) * WHOLE;
        self.strip_target = clamp_to(self.strip_target - turned(d, sensitivity, step), 0, last);
        Some(((self.strip_target + WHOLE / 2) / WHOLE) as usize)
    }
}

/// A zoom stretched by a pinch.
fn stretched(zoom: i128, delta: i64, sensitivity: i128) -> (z: i128)
    requires
        0 <= zoom <= ZOOM_LIMIT,
        0 <= sensitivity <= ZOOM_LIMIT,
    ensures
        z == zoom * pinch_factor(delta as int, sensitivity as int) / (WHOLE as int),
        z >= 0,
{
    let f: i128 = WHOLE + turned(delta as i128, sensitivity, 1_000_000_000);
    let g: i128 = if f < 10_000 {
        10_000
    } else {
        f
    };
    proof {
        assert(0 <= zoom * g <= PRODUCT) by (nonlinear_arith)
            requires
                0 <= zoom <= 1_000_000_000_000,
                0 <= g <= 20_000_000_000_000_000_000_000_000,
                PRODUCT == 100_000_000_000_000_000_000_000_000_000_000_000_000,
        ;
    }
    zoom * g / WHOLE
}

/// A turn of the wheel or of the fingers, weighed by how sensitive they are, as
/// a share of a step of at least a pixel.
fn turned(d: i128, sensitivity: i128, step: i128) -> (r: i128)
    requires
        -10 * REACH <= d <= 10 * REACH,
        0 <= sensitivity <= ZOOM_LIMIT,
        step >= WHOLE,
    ensures
        r == portion(d as int, sensitivity as int, step as int),
        -10_000_000_000_000_000_000_000_000 <= r <= 10_000_000_000_000_000_000_000_000,
{
    let r: i128 = part(d, sensitivity, step);
    proof {
        let m = if d < 0 {
            -d as int
        } else {
            d as int
        };
        let p = m * sensitivity;
        assert(0 <= p <= 10_000_000_000_000_000_000_000_000_000_000) by (nonlinear_arith)
            requires
                0 <= m <= 10_000_000_000_000_000_000,
                0 <= sensitivity <= 1_000_000_000_000,
                p == m * sensitivity,
        ;
        assert(0 <= p / (step as int) <= 10_000_000_000_000_000_000_000_000) by (nonlinear_arith)
            requires
                0 <= p <= 10_000_000_000_000_000_000_000_000_000_000,
                step >= 1_000_000,
        ;
    }
    r
}

/// Where the middle of the chapter row goes when the wheel turns, between the
/// places that it may stand on.
pub fn pan_chapters(
    target: i128,
    dx: i64,
    dy: i64,
    sensitivity: i128,
    step: i128,
    bounds: (i128, i128),
) -> (t: i128)
    requires
        near(target as int),
        0 <= sensitivity <= ZOOM_LIMIT,
        bounds.0 <= bounds.1,
    ensures
        t == (if step <= PIXEL {
            target as int
        } else {
            strip_place(
                target as int,
                main_turn(dx as int, dy as int),
                sensitivity as int,
                step as int,
                bounds.0 as int,
                bounds.1 as int,
            )
        }),
{
    if step <= PIXEL {
        return target;
    }
    let d: i128 = turn_of(dx, dy);
    clamp_to(target - turned(d, sensitivity, step), bounds.0, bounds.1)
}

/// How large a tile comes to be drawn and how far it comes to stand out.
#[derive(Clone, Copy, PartialEq, Eq, Structural, Debug)]
pub struct Rest {
    pub scale: u32,
    pub emph: u32,
}

/// How large the selection and the hovered tile are drawn.
#[derive(Clone, Copy, PartialEq, Eq, Structural, Debug)]
pub struct Scales {
    pub selected: u32,
    pub hovered: u32,
}

/// Where the springs of the tile at place `i` go: the selection is drawn in its
/// size, the hovered tile in its own, and both stand out.
pub open spec fn tile_rest(i: int, refs: Refs, scales: Scales) -> Rest {
    if i == refs.selected {
        Rest { scale: scales.selected, emph: 1_000_000 }
    } else if refs.hovered == Some(i as usize) {
        Rest { scale: scales.hovered, emph: 1_000_000 }
    } else {
        Rest { scale: REST_SCALE, emph: 0 }
    }
}

/// A clip's springs are on their way.
pub open spec fn springs_under_way(c: Clip, to: Rest) -> bool {
    apart(to.scale as int, c.scale as int, 2_000) || apart(to.emph as int, c.emph as int, 5_000)
}

/// A clip after a frame of its springs.
pub open spec fn sprung(c: Clip, to: Rest, a: i128) -> Clip {
    Clip {
        scale: crate::ribbon::between(c.scale as int, to.scale as int, a as int) as u32,
        emph: crate::ribbon::between(c.emph as int, to.emph as int, a as int) as u32,
        ..c
    }
}

impl State {
    /// Some tile's springs are on their way.
    pub open spec fn tiles_under_way(self, scales: Scales) -> bool {
        exists|i: int|
            0 <= i < self.clips.len() && springs_under_way(
                #[trigger] self.clips[i],
                tile_rest(i, self.refs, scales),
            )
    }

    /// The state after a frame of the tiles' springs; `camera` tells whether the
    /// camera is on its way. Behind a view the tiles rest.
    #[verifier::opaque]
    pub open spec fn tiles_sprung(self, camera: bool, scales: Scales, a: i128) -> State {
        if self.modal() {
            State { scene: Scene { motion: camera, ..self.scene }, ..self }
        } else {
            State {
                clips: Seq::new(
                    self.clips.len(),
                    |i: int| sprung(self.clips[i], tile_rest(i, self.refs, scales), a),
                ),
                scene: Scene { motion: camera || self.tiles_under_way(scales), ..self.scene },
                ..self
            }
        }
    }
}

/// Springs are no part of what ties the library together.
proof fn springs_keep_the_state_sound(s: State, camera: bool, scales: Scales, a: i128)
    requires
        s.wf(),
    ensures
        s.tiles_sprung(camera, scales, a).wf(),
{
    reveal(State::tiles_sprung);
    reveal(crate::state::tied);
    let t = s.tiles_sprung(camera, scales, a);
    assert forall|p: u64| #[trigger] t.index.contains_key(p) implies t.index[p] < t.clips.len()
        && t.clips[t.index[p] as int].path == p by {
        assert(s.index.contains_key(p));
    }
    assert forall|k: int| 0 <= k < t.clips.len() implies {
        &&& (#[trigger] t.clips[k]).thumb == s.clips[k].thumb
        &&& t.clips[k].anim == s.clips[k].anim
    } by {}
}

fn rest_of(i: usize, selected: usize, hovered: Option<usize>, scales: Scales) -> (r: Rest)
    ensures
        forall|refs: Refs|
            refs.selected == selected && refs.hovered == hovered ==> r == #[trigger] tile_rest(
                i as int,
                refs,
                scales,
            ),
{
    let over = match hovered {
        Some(h) => h == i,
        None => false,
    };
    if i == selected {
        Rest { scale: scales.selected, emph: 1_000_000 }
    } else if over {
        Rest { scale: scales.hovered, emph: 1_000_000 }
    } else {
        Rest { scale: REST_SCALE, emph: 0 }
    }
}

fn spring(c: Clip, to: Rest, a: i128) -> (r: (Clip, bool))
    requires
        0 <= a <= WHOLE,
    ensures
        r.0 == sprung(c, to, a),
        r.1 == springs_under_way(c, to),
{
    proof {
        crate::ribbon::glide_keeps_to_its_way(c.scale as int, to.scale as int, a as int);
        crate::ribbon::glide_keeps_to_its_way(c.emph as int, to.emph as int, a as int);
    }
    let scale: u32 = glide(c.scale as i128, to.scale as i128, a) as u32;
    let emph: u32 = glide(c.emph as i128, to.emph as i128, a) as u32;
    let away = are_apart(to.scale as i128, c.scale as i128, 2_000) || are_apart(
        to.emph as i128,
        c.emph as i128,
        5_000,
    );
    (Clip { scale, emph, ..c }, away)
}

impl Switchblade {
    /// Moves the tiles' springs by the share `a` of their way, and notes whether
    /// anything in the grid is on its way.
    pub fn spring_tiles(&mut self, camera: bool, scales: Scales, a: i128)
        requires
            old(self)@.wf(),
            0 <= a <= WHOLE,
        ensures
            final(self)@ == old(self)@.tiles_sprung(camera, scales, a),
            final(self)@.wf(),
    {
        let ghost s = self@;
        proof {
            springs_keep_the_state_sound(s, camera, scales, a);
            reveal(State::tiles_sprung);
        }
        self.scene.motion = camera;
        if self.modes.quickview || self.modes.fullview {
            return;
        }
        let ghost before = s.clips;
        let mut away = false;
        let mut i: usize = 0;
        while i < self.clips.len()
            invariant
                i <= self.clips@.len() == before.len(),
                0 <= a <= WHOLE,
                before == s.clips,
                self@ == (State {
                    clips: self.clips@,
                    scene: Scene { motion: camera, ..s.scene },
                    ..s
                }),
                forall|k: int| i <= k < before.len() ==> (#[trigger] self.clips@[k]) == before[k],
                forall|k: int|
                    0 <= k < i ==> (#[trigger] self.clips@[k]) == sprung(
                        before[k],
                        tile_rest(k, s.refs, scales),
                        a,
                    ),
                away ==> s.tiles_under_way(scales),
                !away ==> forall|k: int|
                    0 <= k < i ==> !springs_under_way(
                        #[trigger] before[k],
                        tile_rest(k, s.refs, scales),
                    ),
            decreases self.clips@.len() - i,
        {
            let to = rest_of(i, self.refs.selected, self.refs.hovered, scales);
            assert(to == tile_rest(i as int, s.refs, scales));
            let (c, moving) = spring(self.clips[i], to, a);
            if moving {
                assert(springs_under_way(s.clips[i as int], tile_rest(i as int, s.refs, scales)));
                away = true;
            }
            self.clips.set(i, c);
            i += 1;
        }
        if away {
            self.scene.motion = true;
        }
        assert(self.clips@ =~= s.tiles_sprung(camera, scales, a).clips);
    }
}

/// How far the chapter bar has slid in, the place that the middle of its row
/// stands on, and the place that it goes to.
#[derive(Clone, Copy, PartialEq, Eq, Structural, Debug)]
pub struct BarMotion {
    pub slide: i128,
    pub pos: i128,
    pub target: i128,
}

impl BarMotion {
    pub open spec fn wf(self) -> bool {
        0 <= self.slide <= WHOLE && near(self.pos as int) && near(self.target as int)
    }

    /// Where the slide of a bar goes.
    pub open spec fn slides_to(open: bool) -> int {
        if open {
            WHOLE as int
        } else {
            0
        }
    }

    /// The bar after a frame.
    pub open spec fn stepped(self, open: bool, a: i128) -> BarMotion {
        BarMotion {
            slide: crate::ribbon::between(
                self.slide as int,
                BarMotion::slides_to(open),
                a as int,
            ) as i128,
            pos: crate::ribbon::between(self.pos as int, self.target as int, a as int) as i128,
            ..self
        }
    }

    /// Moves the bar by the share `a` of its way. Returns whether it is on its
    /// way, and whether a bar that closes is down.
    pub fn step(&mut self, open: bool, a: i128) -> (r: (bool, bool))
        requires
            old(self).wf(),
            0 <= a <= WHOLE,
        ensures
            *final(self) == old(self).stepped(open, a),
            r.0 == (apart(BarMotion::slides_to(open), final(self).slide as int, 2_000) || apart(
                final(self).target as int,
                final(self).pos as int,
                STRIP_REST as int,
            )),
            r.1 == (!open && final(self).slide < 5_000),
            final(self).wf(),
    {
        let to: i128 = if open {
            WHOLE
        } else {
            0
        };
        proof {
            crate::ribbon::glide_keeps_to_its_way(self.slide as int, to as int, a as int);
            crate::ribbon::glide_keeps_to_its_way(self.pos as int, self.target as int, a as int);
        }
        self.slide = glide(self.slide, to, a);
        self.pos = glide(self.pos, self.target, a);
        let motion = are_apart(to, self.slide, 2_000) || are_apart(
            self.target,
            self.pos,
            STRIP_REST,
        );
        (motion, !open && self.slide < 5_000)
    }
}

/// Where nothing is to glide, a frame covers the whole way: the zoom, the camera
/// and the filmstrip are where they go.
pub proof fn a_whole_step_arrives(c: Camera, home: Option<usize>)
    requires
        c.wf(),
        home matches Some(i) ==> i <= crate::state::MAX_CLIPS,
    ensures
        c.zoom_stepped(false, false, WHOLE).zoom == c.zoom_target,
        c.chased(false, WHOLE).scroll == c.scroll_target,
        c.strip_stepped(home, WHOLE).strip_pos == c.strip_stepped(home, WHOLE).strip_target,
{
    crate::ribbon::glide_keeps_to_its_way(c.zoom as int, c.zoom_target as int, WHOLE as int);
    crate::ribbon::glide_keeps_to_its_way(c.scroll as int, c.scroll_target as int, WHOLE as int);
    crate::ribbon::glide_keeps_to_its_way(
        c.strip_pos as int,
        c.strip_stepped(home, WHOLE).strip_target as int,
        WHOLE as int,
    );
}

/// The camera is drawn towards its bounds and never past them; within them it is
/// left alone.
pub proof fn the_band_draws_inward(c: Camera, max: i128, keep: i128)
    requires
        c.wf(),
        0 <= max <= REACH,
        0 <= keep <= WHOLE,
    ensures
        c.scroll_target < 0 ==> c.scroll_target <= c.banded(false, max, keep).scroll_target <= 0,
        c.scroll_target > max ==> max <= c.banded(false, max, keep).scroll_target
            <= c.scroll_target,
        0 <= c.scroll_target <= max ==> c.banded(false, max, keep) == c,
{
    let x = c.scroll_target as int;
    let d = if x < 0 {
        -x
    } else {
        x - max
    };
    if x < 0 || x > max {
        assert(0 <= d * keep / 1_000_000 <= d) by (nonlinear_arith)
            requires
                0 <= d,
                0 <= keep <= 1_000_000,
        ;
    }
}

} // verus!
