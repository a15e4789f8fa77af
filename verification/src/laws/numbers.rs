//! Numbers: how they are ranked, rounded, written and read back.

use vstd::prelude::*;

use crate::events::{after_event, span_rows, LaneModel, RelEvent};
use crate::measure::{
    ascended, ascended_is_in_order, fixed, mean_spread, nearest_rank, nearest_whole, padded,
    percentile, sign_of, ten_to,
};
use crate::start::{atlas_of, recipe_of};
use crate::table::{column_of, last_count, Name, Row};
use crate::text::{
    count_in, decimal_of, digit_of, digits_value, drop_space, find_space, is_digit_char,
    is_space_char, joined_path, replaced, skip_space, trimmed,
};
use crate::tuning::Tuning;

verus! {

/// A percentile is the least measure that so great a share does not exceed: at its rank
/// the share is reached, one earlier it is not.
pub proof fn a_rank_reaches_its_share(percent: int, n: int)
    requires
        0 < percent <= 100,
        0 < n,
    ensures
        ({
            let k = nearest_rank(percent, n);
            &&& 0 <= k < n
            &&& 100 * k < percent * n <= 100 * (k + 1)
        }),
        nearest_rank(0, n) == 0,
        nearest_rank(100, n) == n - 1,
{
    let p = percent * n;
    assert(0 < p <= 100 * n) by (nonlinear_arith)
        requires
            0 < percent <= 100,
            0 < n,
            p == percent * n,
    ;
    assert(0 * n == 0) by (nonlinear_arith);
}

/// The least and the greatest measure hold all the others between them, and percentiles
/// rise with the share.
pub proof fn percentiles_rise(xs: Seq<i128>, p: int, q: int, i: int)
    requires
        0 <= p <= q <= 100,
        0 <= i < xs.len(),
    ensures
        percentile(xs, p) <= percentile(xs, q),
        percentile(xs, 0) <= xs[i] <= percentile(xs, 100),
{
    ascended_is_in_order(xs);
    let v = ascended(xs);
    let n = xs.len() as int;
    a_rank_reaches_its_share(100, n);
    assert(0 <= p * n <= q * n <= 100 * n) by (nonlinear_arith)
        requires
            0 <= p <= q <= 100,
            0 < n,
    ;
    assert(v[nearest_rank(p, n)] <= v[nearest_rank(q, n)]);
    broadcast use vstd::seq_lib::group_to_multiset_ensures;

    assert(xs.contains(xs[i]));
    assert(xs.to_multiset().count(xs[i]) > 0);
    assert(v.contains(xs[i]));
    let k = choose|k: int| 0 <= k < v.len() && v[k] == xs[i];
    assert(v[0] <= v[k] <= v[n - 1]);
}

/// A mean is the sum over the count.
pub proof fn a_mean_is_the_sum_over_the_count(xs: Seq<i128>, x: i128)
    requires
        xs.len() > 0,
        xs.len() <= 1_000_000_000,
        crate::measure::all_in_range(xs),
        forall|k: int| 0 <= k < xs.len() ==> xs[k] == x,
    ensures
        mean_spread(xs).num * crate::measure::UNIT == x * mean_spread(xs).den,
        mean_spread(xs).lo == x,
        mean_spread(xs).hi == x,
{
    let n = xs.len() as int;
    equal_terms_sum_up(xs, x, n);
    percentiles_rise(xs, 0, 100, 0);
    crate::measure::percentiles_are_measures(xs, 0, 0);
    crate::measure::percentiles_are_measures(xs, 100, 0);
    assert(crate::measure::in_range(xs[0]));
    let m = crate::measure::MEASURE_LIMIT as int;
    assert(-m * 1_000_000_000 <= n * x <= m * 1_000_000_000) by (nonlinear_arith)
        requires
            0 < n <= 1_000_000_000,
            -m <= x <= m,
    ;
    let u = crate::measure::UNIT as int;
    assert((n * x) * u == x * (u * n)) by (nonlinear_arith);
}

proof fn equal_terms_sum_up(xs: Seq<i128>, x: i128, n: int)
    requires
        0 <= n <= xs.len(),
        forall|k: int| 0 <= k < xs.len() ==> xs[k] == x,
    ensures
        crate::measure::sum_of(xs, n) == n * x,
    decreases n,
{
    if n > 0 {
        equal_terms_sum_up(xs, x, n - 1);
    }
    assert(n * x == (n - 1) * x + x && 0 * x == 0) by (nonlinear_arith);
}

/// Rounding leads to the nearest whole number, and half way to the even one.
pub proof fn rounding_leads_to_the_nearest(a: int, b: int)
    requires
        0 <= a,
        0 < b,
    ensures
        ({
            let r = nearest_whole(a, b);
            &&& -b <= 2 * (r * b - a) <= b
            &&& 2 * (r * b - a) == b || 2 * (r * b - a) == -b ==> r % 2 == 0
        }),
{
    let (q, r) = (a / b, a % b);
    vstd::arithmetic::div_mod::lemma_fundamental_div_mod(a, b);
    vstd::arithmetic::div_mod::lemma_mod_bound(a, b);
    assert(q * b == b * q && (q + 1) * b == b * q + b) by (nonlinear_arith);
}

/// What is written in figures reads back as the number.
pub proof fn figures_read_back(n: nat)
    ensures
        decimal_of(n).len() > 0,
        digits_value(decimal_of(n), decimal_of(n).len() as int) == n,
        forall|k: int| 0 <= k < decimal_of(n).len() ==> is_digit_char(#[trigger] decimal_of(n)[k]),
        n <= usize::MAX ==> count_in(decimal_of(n)) == Some(n),
        n > 0 ==> decimal_of(n)[0] != '0',
    decreases n,
{
    let d = decimal_of(n);
    if n >= 10 {
        figures_read_back(n / 10);
        let head = decimal_of(n / 10);
        values_of_a_prefix(d, head, head.len() as int);
        assert(d.last() == digit_of(n % 10));
    } else {
        assert(digits_value(d, 0) == 0);
    }
    let e = d.len() as int;
    assert(digits_value(d, e) == 10 * digits_value(d, e - 1) + (d[e - 1] as nat - '0' as nat) as nat);
    assert(is_digit_char(d[0]));
}

proof fn values_of_a_prefix(s: Seq<char>, t: Seq<char>, n: int)
    requires
        0 <= n <= t.len() <= s.len(),
        forall|k: int| 0 <= k < n ==> s[k] == t[k],
    ensures
        digits_value(s, n) == digits_value(t, n),
    decreases n,
{
    if n > 0 {
        values_of_a_prefix(s, t, n - 1);
    }
}

/// So many figures stand behind the point as are asked for, and they read back.
pub proof fn figures_behind_the_point_read_back(n: int, d: nat)
    requires
        0 <= n < ten_to(d),
    ensures
        padded(n, d).len() == d,
        digits_value(padded(n, d), d as int) == n,
    decreases d,
{
    if d > 0 {
        let e = (d - 1) as nat;
        figures_behind_the_point_read_back(n / 10, e);
        values_of_a_prefix(padded(n, d), padded(n / 10, e), e as int);
        assert(padded(n, d)[e as int] == digit_of((n % 10) as nat));
    }
}

/// A fraction is written as the nearest number with so many figures behind the point,
/// with its sign in front.
pub proof fn a_fraction_is_written_to_the_nearest(num: int, den: int, d: nat, plus: bool)
    requires
        0 < den,
        0 < d,
    ensures
        ({
            let a = if num < 0 {
                -num
            } else {
                num
            };
            let r = nearest_whole(a * ten_to(d), den);
            let (whole, rest) = (r / ten_to(d), r % ten_to(d));
            &&& fixed(num, den, d, plus) == sign_of(num < 0, plus) + decimal_of(whole as nat)
                + seq!['.'] + padded(rest, d)
            &&& whole * ten_to(d) + rest == r
            &&& 0 <= rest < ten_to(d)
            &&& -den <= 2 * (r * den - a * ten_to(d)) <= den
            &&& sign_of(true, plus) == seq!['-']
            &&& sign_of(false, true) == seq!['+']
            &&& sign_of(false, false).len() == 0
        }),
{
    powers_are_positive(d);
    let t = ten_to(d);
    let a = if num < 0 {
        -num
    } else {
        num
    };
    assert(a * t >= 0) by (nonlinear_arith)
        requires
            a >= 0,
            t > 0,
    ;
    rounding_leads_to_the_nearest(a * t, den);
    let r = nearest_whole(a * t, den);
    vstd::arithmetic::div_mod::lemma_fundamental_div_mod(r, t);
    vstd::arithmetic::div_mod::lemma_mod_bound(r, t);
    assert((r / t) * t == t * (r / t)) by (nonlinear_arith);
}

proof fn powers_are_positive(d: nat)
    ensures
        ten_to(d) > 0,
    decreases d,
{
    if d > 0 {
        powers_are_positive((d - 1) as nat);
    }
}

/// A trimmed text neither begins nor ends with a space, and only spaces were taken.
pub proof fn trimming_takes_the_spaces_at_the_ends(s: Seq<char>, i: int)
    ensures
        ({
            let t = trimmed(s);
            &&& t.len() > 0 ==> !is_space_char(t[0]) && !is_space_char(t.last())
            &&& exists|a: int, b: int|
                0 <= a <= b <= s.len() && t == #[trigger] s.subrange(a, b) && (0 <= i < s.len() && !(
                a <= i < b) ==> is_space_char(s[i]))
        }),
{
    let n = s.len() as int;
    let a = skip_space(s, 0, n);
    skipping_spaces(s, 0, n);
    let b = drop_space(s, a, n);
    dropping_spaces(s, a, n);
    assert(trimmed(s) == s.subrange(a, b));
}

proof fn skipping_spaces(s: Seq<char>, from: int, to: int)
    requires
        0 <= from <= to <= s.len(),
    ensures
        ({
            let k = skip_space(s, from, to);
            &&& from <= k <= to
            &&& forall|j: int| from <= j < k ==> is_space_char(#[trigger] s[j])
            &&& k < to ==> !is_space_char(s[k])
        }),
    decreases to - from,
{
    if from < to && is_space_char(s[from]) {
        skipping_spaces(s, from + 1, to);
    }
}

proof fn dropping_spaces(s: Seq<char>, from: int, to: int)
    requires
        0 <= from <= to <= s.len(),
    ensures
        ({
            let k = drop_space(s, from, to);
            &&& from <= k <= to
            &&& forall|j: int| k <= j < to ==> is_space_char(#[trigger] s[j])
            &&& k > from ==> !is_space_char(s[k - 1])
        }),
    decreases to - from,
{
    if from < to && is_space_char(s[to - 1]) {
        dropping_spaces(s, from, to - 1);
    }
}

/// The first space is found: none stands before it.
pub proof fn the_first_space_is_found(s: Seq<char>, from: int, to: int)
    requires
        0 <= from <= to <= s.len(),
    ensures
        ({
            let k = find_space(s, from, to);
            &&& from <= k <= to
            &&& forall|j: int| from <= j < k ==> !is_space_char(#[trigger] s[j])
            &&& k < to ==> is_space_char(s[k])
        }),
    decreases to - from,
{
    if from < to && !is_space_char(s[from]) {
        the_first_space_is_found(s, from + 1, to);
    }
}

/// Where a pattern stands it is replaced, and what stands around it is kept.
pub proof fn a_pattern_is_replaced(before: Seq<char>, pat: Seq<char>, after: Seq<char>, with: Seq<char>)
    requires
        pat.len() > 0,
        forall|k: int| 0 <= k < before.len() ==> #[trigger] before[k] != pat[0],
    ensures
        replaced(before + pat + after, pat, with) == before + with + replaced(after, pat, with),
        replaced(before, pat, with) == before,
    decreases before.len(),
{
    let s = before + pat + after;
    if before.len() > 0 {
        let rest = before.subrange(1, before.len() as int);
        a_pattern_is_replaced(rest, pat, after, with);
        assert(s.subrange(0, pat.len() as int)[0] == before[0]);
        assert(s.subrange(1, s.len() as int) =~= rest + pat + after);
        assert(seq![before[0]] + (rest + with + replaced(after, pat, with)) =~= before + with
            + replaced(after, pat, with));
        if before.len() >= pat.len() {
            assert(before.subrange(0, pat.len() as int)[0] == before[0]);
            assert(seq![before[0]] + rest =~= before);
        }
    } else {
        assert(s.subrange(0, pat.len() as int) =~= pat);
        assert(s.subrange(pat.len() as int, s.len() as int) =~= after);
        assert(before + with + replaced(after, pat, with) =~= with + replaced(after, pat, with));
    }
}

/// A path below a directory stands behind it, parted by one slash; a path from the root
/// stays as it is.
pub proof fn a_path_is_joined_by_one_slash(dir: Seq<char>, rest: Seq<char>)
    requires
        dir.len() > 0,
        rest.len() > 0,
    ensures
        rest[0] == '/' ==> joined_path(dir, rest) == rest,
        rest[0] != '/' && dir.last() == '/' ==> joined_path(dir, rest) == dir + rest,
        rest[0] != '/' && dir.last() != '/' ==> joined_path(dir, rest) == dir + seq!['/'] + rest,
{
    assert(dir.push('/') =~= dir + seq!['/']);
}

/// A column holds, in order, what the rows of its name measure, and nothing else.
pub proof fn a_column_holds_its_rows(rows: Seq<Row>, q: Name, which: int, n: int)
    requires
        0 < n <= rows.len(),
    ensures
        ({
            let r = rows[n - 1];
            let (before, after) = (
                column_of(rows, q, which, n - 1),
                column_of(rows, q, which, n),
            );
            &&& r.a == q.a && r.b == q.b ==> after == before.push(
                if which == 0 {
                    r.v0
                } else if which == 1 {
                    r.v1
                } else if which == 2 {
                    r.v2
                } else {
                    r.v3
                },
            ) && last_count(rows, q, n) == r.n
            &&& r.a != q.a || r.b != q.b ==> after == before && last_count(rows, q, n) == last_count(
                rows,
                q,
                n - 1,
            )
        }),
{
}

/// A span lasts from its beginning to its end, and there is none where one is missing.
pub proof fn a_span_lasts_from_its_beginning_to_its_end(
    lane: Seq<char>,
    metric: Seq<char>,
    from: i64,
    lasting: i64,
    to: Option<i64>,
)
    requires
        from + lasting <= i64::MAX,
        from + lasting >= i64::MIN,
    ensures
        ({
            let v = span_rows(lane, metric, Some(from), Some((from + lasting) as i64));
            v.len() == 1 && v[0].v0 == lasting && v[0].a == lane && v[0].b == metric
        }),
        span_rows(lane, metric, None, to).len() == 0,
        span_rows(lane, metric, to, None).len() == 0,
{
}

/// Of a stream the last start counts, and of what it gave the first picture that was
/// ready and the first that was shown.
pub proof fn the_first_picture_counts(l: LaneModel, e: RelEvent)
    ensures
        ({
            let m = after_event(l, e);
            &&& e.kind@ == "decode_spawn"@ ==> m.spawn == Some(e.t)
            &&& e.kind@ == "decode_ready"@ && l.ready is None ==> m.ready == Some(e.t)
            &&& l.ready is Some ==> m.ready == l.ready
            &&& e.kind@ == "frame_served"@ && l.served is None ==> m.served == Some(e.t)
            &&& l.served is Some ==> m.served == l.served
            &&& e.kind@ != "decode_spawn"@ ==> m.spawn == l.spawn
            &&& e.kind@ != "frame_served"@ ==> m.served == l.served
            &&& e.kind@ != "promotion"@ ==> m.promo == l.promo
            &&& m.generation == l.generation
        }),
{
    reveal_strlit("decode_spawn");
    reveal_strlit("decode_ready");
    reveal_strlit("frame_served");
    reveal_strlit("promotion");
    assert("decode_spawn"@[7] != "decode_ready"@[7]);
    assert("frame_served"@[0] != "decode_ready"@[0]);
    assert("promotion"@[0] != "decode_ready"@[0]);
}

/// A better thumbnail takes a lower number, and all that a thumbnail is made by stays
/// within its limits.
pub proof fn better_pictures_take_lower_numbers(t: Tuning, u: Tuning)
    requires
        t.thumb_quality < u.thumb_quality,
    ensures
        recipe_of(u).quality <= recipe_of(t).quality,
        1 <= t.thumb_quality && u.thumb_quality <= 10 ==> recipe_of(u).quality
            < recipe_of(t).quality,
        2 <= recipe_of(t).quality <= 11,
        64 <= recipe_of(t).thumb_w <= 2048,
        36 <= recipe_of(t).thumb_h <= 2048,
        1 <= recipe_of(t).anim_grid <= 4,
        64 <= t.thumb_width <= 2048 ==> recipe_of(t).thumb_w == t.thumb_width,
        36 <= t.thumb_height <= 2048 ==> recipe_of(t).thumb_h == t.thumb_height,
        1 <= t.anim_grid <= 4 ==> recipe_of(t).anim_grid == t.anim_grid,
        t.thumb_seek_fraction <= 990_000_000 ==> recipe_of(t).seek_fraction
            == t.thumb_seek_fraction,
{
}

/// The atlas holds as many thumbnails side by side, and as many rows of them, as its
/// size takes, and at least one.
pub proof fn the_atlas_takes_what_its_size_holds(t: Tuning)
    ensures
        ({
            let a = atlas_of(t);
            let (w, h) = (
                if t.atlas_width > 8192 {
                    8192
                } else {
                    t.atlas_width as int
                },
                if t.atlas_height > 8192 {
                    8192
                } else {
                    t.atlas_height as int
                },
            );
            &&& a.slot_w == recipe_of(t).thumb_w
            &&& a.slot_h == recipe_of(t).thumb_h
            &&& a.cols >= 1
            &&& a.rows >= 1
            &&& a.cols > 1 ==> a.cols * a.slot_w <= w
            &&& a.rows > 1 ==> a.rows * a.slot_h <= h
            &&& (a.cols + 1) * a.slot_w > w
            &&& (a.rows + 1) * a.slot_h > h
        }),
{
    let a = atlas_of(t);
    along(t.atlas_width, a.slot_w);
    along(t.atlas_height, a.slot_h);
}

proof fn along(length: u32, slot: u32)
    requires
        1 <= slot,
    ensures
        ({
            let k = crate::start::slots_along(length, slot);
            let w = if length > 8192 {
                8192
            } else {
                length as int
            };
            &&& 1 <= k <= 8192
            &&& k > 1 ==> k * slot <= w
            &&& (k + 1) * slot > w
        }),
{
    let w = if length > 8192 {
        8192
    } else {
        length as int
    };
    let s = slot as int;
    let n = w / s;
    assert(0 <= n <= w && n * s <= w < (n + 1) * s) by (nonlinear_arith)
        requires
            0 <= w,
            1 <= s,
            n == w / s,
    ;
    assert(n < 1 ==> (n + 1) * s <= 2 * s) by (nonlinear_arith)
        requires
            1 <= s,
    ;
}

/// Half of the measures, then most, then all lie below what stands for them.
pub proof fn a_summary_rises(xs: Seq<i128>, i: int)
    requires
        0 <= i < xs.len(),
    ensures
        ({
            let s = crate::measure::stat_of(xs);
            let m = crate::measure::median_spread(xs);
            &&& s.p50 <= s.p95 <= s.max
            &&& xs[i] <= s.max
            &&& m.lo <= m.num <= m.hi
            &&& m.lo <= xs[i] <= m.hi
            &&& m.den == m.unit
        }),
{
    percentiles_rise(xs, 50, 95, i);
    percentiles_rise(xs, 95, 100, i);
    percentiles_rise(xs, 0, 50, i);
    percentiles_rise(xs, 50, 100, i);
}

/// A phase that took all the time has the whole share, and the total of jobs is in
/// seconds.
pub proof fn a_phase_has_its_share(
    s: crate::report::PhaseStat,
    p: crate::events::PhaseSamples,
    all: int,
)
    requires
        crate::events::phase_sums_up(s, p, all),
        0 < all,
        crate::events::phase_sum(p) <= all,
        0 <= crate::events::phase_sum(p),
    ensures
        0 <= s.share <= crate::measure::UNIT,
        crate::events::phase_sum(p) == all ==> s.share == crate::measure::UNIT,
        s.share * all <= crate::events::phase_sum(p) * crate::measure::UNIT < (s.share + 1) * all,
{
    let (x, u) = (crate::events::phase_sum(p), crate::measure::UNIT as int);
    let q = x * u / all;
    assert(0 <= q <= u && q * all <= x * u < (q + 1) * all && (x == all ==> q == u))
        by (nonlinear_arith)
        requires
            0 <= x <= all,
            0 < all,
            0 < u,
            q == x * u / all,
    {
        assert(0 <= x * u <= all * u);
        assert(all * u / all == u);
    }
}

} // verus!
