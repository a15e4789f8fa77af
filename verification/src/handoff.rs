//! Frames of the streams as files, to compare what a tile showed with what its
//! thumbnail shows.

use vstd::prelude::*;

use crate::measure::write_fixed;
use crate::text::{chars_of, decimal, push_char};

verus! {

/// The longest part of a clip's name that a file is named after.
pub const STEM_LIMIT: usize = 48;

/// Whether Unicode counts a character among the letters and the numbers.
pub uninterp spec fn alphanumeric(c: char) -> bool;

/// Calls `char::is_alphanumeric`, whose answer depends on the character alone.
#[verifier::external_body]
fn is_alphanumeric(c: char) -> (r: bool)
    ensures
        r == alphanumeric(c),
{
    c.is_alphanumeric()
}

/// A character as it may stand in a file's name.
pub open spec fn plain_char(c: char) -> char {
    if alphanumeric(c) {
        c
    } else {
        '_'
    }
}

/// The end of a clip's name as it may stand in a file's name.
pub open spec fn plain_end(stem: Seq<char>) -> Seq<char> {
    let from = if stem.len() > STEM_LIMIT {
        stem.len() - STEM_LIMIT
    } else {
        0
    };
    stem.skip(from).map_values(|c: char| plain_char(c))
}

/// The end of a clip's name as it may stand in a file's name.
pub fn plain_stem(stem: &str) -> (s: String)
    ensures
        s@ == plain_end(stem@),
{
    let v = chars_of(stem);
    let n: usize = v.len();
    let from: usize = if n > STEM_LIMIT {
        n - STEM_LIMIT
    } else {
        0
    };
    let mut s = String::new();
    let mut k: usize = from;
    assert(s@ =~= plain_end(stem@).take(0));
    while k < n
        invariant
            from <= k <= n == v@.len(),
            v@ == stem@,
            from == (if n > STEM_LIMIT {
                n - STEM_LIMIT
            } else {
                0
            }),
            s@ == plain_end(stem@).take(k - from),
        decreases n - k,
    {
        let c = v[k];
        let plain = if is_alphanumeric(c) {
            c
        } else {
            '_'
        };
        push_char(&mut s, plain);
        k += 1;
        assert(plain_end(stem@).take(k - from) =~= plain_end(stem@).take(k - 1 - from).push(plain));
    }
    assert(plain_end(stem@).take(n - from) =~= plain_end(stem@));
    s
}

/// The name of the file that a frame is written to.
pub open spec fn frame_file(stem: Seq<char>, lane: Seq<char>, generation: u64, k: u32, pts: i64) -> Seq<
    char,
> {
    stem + "__"@ + lane + "_g"@ + crate::text::decimal_of(generation as nat) + "_f"@
        + crate::text::decimal_of(k as nat) + "_pts"@ + crate::measure::fixed(
        pts as int,
        1_000_000_000,
        3,
        false,
    ) + ".ppm"@
}

/// The name of the file that the `k`th frame of a stream is written to, which
/// is shown at `pts` nanoseconds of its clip.
pub fn frame_name(stem: &str, lane: &str, generation: u64, k: u32, pts: i64) -> (s: String)
    ensures
        s@ == frame_file(stem@, lane@, generation, k, pts),
{
    let mut s = stem.to_owned();
    s.append("__");
    s.append(lane);
    s.append("_g");
    s.append(decimal(generation).as_str());
    s.append("_f");
    s.append(decimal(k as u64).as_str());
    s.append("_pts");
    s.append(write_fixed(pts as i128, 1_000_000_000, 3, false).as_str());
    s.append(".ppm");
    s
}

/// What stands before the pixels of a picture in the portable pixmap format.
pub open spec fn pixmap_head(w: u32, h: u32) -> Seq<char> {
    "P6\n"@ + crate::text::decimal_of(w as nat) + " "@ + crate::text::decimal_of(h as nat)
        + "\n255\n"@
}

/// What stands before the pixels of a picture.
pub fn pixmap_header(w: u32, h: u32) -> (s: String)
    ensures
        s@ == pixmap_head(w, h),
{
    let mut s = "P6\n".to_owned();
    s.append(decimal(w as u64).as_str());
    s.append(" ");
    s.append(decimal(h as u64).as_str());
    s.append("\n255\n");
    s
}

/// Pixels without their fourth channel.
pub open spec fn opaque_pixels(rgba: Seq<u8>, n: int) -> Seq<u8> {
    Seq::new((3 * n) as nat, |i: int| rgba[i / 3 * 4 + i % 3])
}

/// The pixels of a picture of `w` by `h` without their fourth channel; nothing
/// where there are too few.
pub fn rgb_pixels(rgba: &Vec<u8>, w: u32, h: u32) -> (r: Option<Vec<u8>>)
    ensures
        rgba@.len() < w * h * 4 ==> r is None,
        rgba@.len() >= w * h * 4 ==> r is Some && r->0@ == opaque_pixels(rgba@, w * h),
{
    proof {
        assert(0 <= w * h <= 0xffff_ffff * 0xffff_ffff) by (nonlinear_arith)
            requires
                0 <= w <= 0xffff_ffff,
                0 <= h <= 0xffff_ffff,
        ;
    }
    let n: u128 = w as u128 * h as u128;
    if (rgba.len() as u128) < n * 4 {
        return None;
    }
    let n: usize = n as usize;
    let mut v: Vec<u8> = Vec::new();
    let mut k: usize = 0;
    while k < n
        invariant
            k <= n,
            n == w * h,
            n * 4 <= rgba@.len() <= usize::MAX,
            v@ == opaque_pixels(rgba@, k as int),
        decreases n - k,
    {
        v.push(rgba[4 * k]);
        v.push(rgba[4 * k + 1]);
        v.push(rgba[4 * k + 2]);
        k += 1;
        assert(v@ =~= opaque_pixels(rgba@, k as int));
    }
    Some(v)
}

} // verus!
