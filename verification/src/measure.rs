//! Measures and their summaries: percentiles, medians, means, and how they are
//! written. A measure is a whole number of millionths.

use vstd::prelude::*;

use crate::text::{decimal_wide, digit, push_char};

verus! {

/// One, in millionths.
pub const UNIT: i128 = 1_000_000;

/// Measures are no larger than this.
pub const MEASURE_LIMIT: i128 = 20_000_000_000_000_000_000_000_000;

/// A measure is within what is summed up and written.
pub open spec fn in_range(x: i128) -> bool {
    -MEASURE_LIMIT <= x <= MEASURE_LIMIT
}

/// All of some measures are.
pub open spec fn all_in_range(xs: Seq<i128>) -> bool {
    forall|k: int| 0 <= k < xs.len() ==> in_range(#[trigger] xs[k])
}

/// Where `x` belongs among the first `n` of `xs`, which ascend: after those that
/// are not larger.
pub open spec fn rank_of(xs: Seq<i128>, x: i128, n: int) -> int
    decreases n,
{
    if n <= 0 {
        0
    } else if xs[n - 1] <= x {
        n
    } else {
        rank_of(xs, x, n - 1)
    }
}

/// The measures in ascending order.
pub open spec fn ascended(xs: Seq<i128>) -> Seq<i128>
    decreases xs.len(),
{
    if xs.len() == 0 {
        Seq::empty()
    } else {
        let rest = ascended(xs.drop_last());
        rest.insert(rank_of(rest, xs.last(), rest.len() as int), xs.last())
    }
}

/// The measures ascend.
pub open spec fn ascends(xs: Seq<i128>) -> bool {
    forall|i: int, j: int| 0 <= i <= j < xs.len() ==> xs[i] <= xs[j]
}

proof fn rank_splits(xs: Seq<i128>, x: i128, n: int)
    requires
        ascends(xs),
        0 <= n <= xs.len(),
    ensures
        0 <= rank_of(xs, x, n) <= n,
        forall|i: int| 0 <= i < rank_of(xs, x, n) ==> (#[trigger] xs[i]) <= x,
        forall|i: int| rank_of(xs, x, n) <= i < n ==> (#[trigger] xs[i]) > x,
    decreases n,
{
    if n > 0 && xs[n - 1] > x {
        rank_splits(xs, x, n - 1);
    }
}

/// Putting measures in order puts them in order, and keeps each of them.
pub proof fn ascended_is_in_order(xs: Seq<i128>)
    ensures
        ascends(ascended(xs)),
        ascended(xs).len() == xs.len(),
        ascended(xs).to_multiset() == xs.to_multiset(),
    decreases xs.len(),
{
    if xs.len() > 0 {
        let rest = ascended(xs.drop_last());
        ascended_is_in_order(xs.drop_last());
        let x = xs.last();
        let r = rank_of(rest, x, rest.len() as int);
        rank_splits(rest, x, rest.len() as int);
        let all = ascended(xs);
        assert forall|i: int, j: int| 0 <= i <= j < all.len() implies all[i] <= all[j] by {
            if j < r {
                assert(all[i] == rest[i] && all[j] == rest[j]);
            } else if j == r {
                if i < r {
                    assert(all[i] == rest[i]);
                }
            } else {
                assert(all[j] == rest[j - 1]);
                if i < r {
                    assert(all[i] == rest[i]);
                } else if i > r {
                    assert(all[i] == rest[i - 1]);
                }
            }
        }
        rest.to_multiset_ensures();
        xs.drop_last().to_multiset_ensures();
        xs.to_multiset_ensures();
        rest.insert(r, x).to_multiset_ensures();
        assert(rest.insert(r, x).remove(r) =~= rest);
        assert(rest.insert(r, x)[r] == x);
        assert(rest.insert(r, x).contains(x));
        assert(rest.insert(r, x).to_multiset() =~= rest.to_multiset().insert(x));
        assert(xs =~= xs.drop_last().push(x));
        assert(xs.drop_last().push(x).to_multiset() =~= xs.drop_last().to_multiset().insert(x));
    } else {
        assert(ascended(xs) =~= xs);
    }
}

/// The measures in ascending order.
pub fn sort_measures(xs: &Vec<i128>) -> (v: Vec<i128>)
    ensures
        v@ == ascended(xs@),
        v@.len() == xs@.len(),
        ascends(v@),
{
    let mut v: Vec<i128> = Vec::new();
    let mut k: usize = 0;
    assert(xs@.take(0) =~= Seq::empty());
    while k < xs.len()
        invariant
            k <= xs@.len(),
            v@ == ascended(xs@.take(k as int)),
            v@.len() == k,
        decreases xs@.len() - k,
    {
        let x: i128 = xs[k];
        let mut n: usize = v.len();
        while n > 0 && v[n - 1] > x
            invariant
                n <= v@.len(),
                rank_of(v@, x, n as int) == rank_of(v@, x, v@.len() as int),
            decreases n,
        {
            n -= 1;
        }
        v.insert(n, x);
        proof {
            let t = xs@.take(k + 1);
            assert(t.drop_last() =~= xs@.take(k as int));
            assert(t.last() == x);
        }
        k += 1;
    }
    proof {
        assert(xs@.take(xs@.len() as int) =~= xs@);
        ascended_is_in_order(xs@);
    }
    v
}

/// The place of a percentile by nearest rank among `n` ordered measures.
pub open spec fn nearest_rank(percent: int, n: int) -> int {
    let r = (percent * n + 99) / 100;
    let k = if r < 1 {
        0
    } else {
        r - 1
    };
    if k > n - 1 {
        n - 1
    } else {
        k
    }
}

/// A percentile, by nearest rank; zero of nothing.
pub open spec fn percentile(xs: Seq<i128>, percent: int) -> i128 {
    if xs.len() == 0 {
        0
    } else {
        ascended(xs)[nearest_rank(percent, xs.len() as int)]
    }
}

/// The median, a high percentile and the largest of some measures.
#[derive(Clone, Copy, PartialEq, Eq, Structural, Debug)]
pub struct Stat {
    pub p50: i128,
    pub p95: i128,
    pub max: i128,
}

/// The summary of some measures.
pub open spec fn stat_of(xs: Seq<i128>) -> Stat {
    Stat { p50: percentile(xs, 50), p95: percentile(xs, 95), max: percentile(xs, 100) }
}

fn pick(sorted: &Vec<i128>, percent: u8) -> (r: i128)
    requires
        sorted@.len() > 0,
        percent <= 100,
    ensures
        r == sorted@[nearest_rank(percent as int, sorted@.len() as int)],
{
    let len: usize = sorted.len();
    let n: u128 = len as u128;
    proof {
        assert(0 <= percent * n <= 100 * 0x1_0000_0000_0000_0000) by (nonlinear_arith)
            requires
                0 <= percent <= 100,
                0 <= n <= 0x1_0000_0000_0000_0000,
        ;
    }
    let r: u128 = ((percent as u128) * n + 99) / 100;
    let k: u128 = if r < 1 {
        0
    } else {
        r - 1
    };
    let i: u128 = if k > n - 1 {
        n - 1
    } else {
        k
    };
    sorted[i as usize]
}

/// The median, a high percentile and the largest of some measures.
pub fn pctl_stat(xs: &Vec<i128>) -> (s: Stat)
    ensures
        s == stat_of(xs@),
{
    if xs.len() == 0 {
        return Stat { p50: 0, p95: 0, max: 0 };
    }
    let v = sort_measures(xs);
    Stat { p50: pick(&v, 50), p95: pick(&v, 95), max: pick(&v, 100) }
}

/// The hundredth percentile is the largest, and no percentile is outside the
/// measures.
pub proof fn percentiles_are_measures(xs: Seq<i128>, percent: int, k: int)
    requires
        0 <= k < xs.len(),
        0 <= percent <= 100,
    ensures
        xs.contains(percentile(xs, percent)),
        xs[k] <= percentile(xs, 100),
        percentile(xs, percent) <= percentile(xs, 100),
{
    ascended_is_in_order(xs);
    let v = ascended(xs);
    let n = xs.len() as int;
    let i = nearest_rank(percent, n);
    assert(0 <= percent * n) by (nonlinear_arith)
        requires
            0 <= percent,
            0 <= n,
    ;
    assert((100 * n + 99) / 100 == n);
    v.to_multiset_ensures();
    xs.to_multiset_ensures();
    assert(v.contains(v[i]));
    assert(xs.to_multiset().count(v[i]) > 0);
    assert(xs.contains(xs[k]));
    assert(v.to_multiset().count(xs[k]) > 0);
    let j = choose|j: int| 0 <= j < v.len() && v[j] == xs[k];
    assert(v[j] <= v[n - 1]);
}

/// A value with its spread: a numerator and a denominator for the middle, the
/// least and the largest, and what these two are counted in.
#[derive(Clone, Copy, PartialEq, Eq, Structural, Debug)]
pub struct Spread {
    pub num: i128,
    pub den: i128,
    pub lo: i128,
    pub hi: i128,
    pub unit: i128,
}

/// The median with its spread; zeros of nothing.
pub open spec fn median_spread(xs: Seq<i128>) -> Spread {
    Spread {
        num: percentile(xs, 50),
        den: UNIT,
        lo: percentile(xs, 0),
        hi: percentile(xs, 100),
        unit: UNIT,
    }
}

/// The sum of the first `n` measures.
pub open spec fn sum_of(xs: Seq<i128>, n: int) -> int
    decreases n,
{
    if n <= 0 {
        0
    } else {
        sum_of(xs, n - 1) + xs[n - 1]
    }
}

/// The mean with its spread; zeros of nothing.
pub open spec fn mean_spread(xs: Seq<i128>) -> Spread {
    if xs.len() == 0 {
        Spread { num: 0, den: UNIT, lo: 0, hi: 0, unit: UNIT }
    } else {
        Spread {
            num: sum_of(xs, xs.len() as int) as i128,
            den: (UNIT * xs.len()) as i128,
            lo: percentile(xs, 0),
            hi: percentile(xs, 100),
            unit: UNIT,
        }
    }
}

/// The median with its spread.
pub fn stat3(xs: &Vec<i128>) -> (s: Spread)
    requires
        all_in_range(xs@),
    ensures
        s == median_spread(xs@),
        spread_fits(s),
        in_range(s.num),
{
    if xs.len() == 0 {
        return Spread { num: 0, den: UNIT, lo: 0, hi: 0, unit: UNIT };
    }
    let v = sort_measures(xs);
    proof {
        sorted_in_range(xs@);
    }
    Spread { num: pick(&v, 50), den: UNIT, lo: pick(&v, 0), hi: pick(&v, 100), unit: UNIT }
}

proof fn sorted_in_range(xs: Seq<i128>)
    requires
        all_in_range(xs),
    ensures
        all_in_range(ascended(xs)),
{
    ascended_is_in_order(xs);
    let v = ascended(xs);
    v.to_multiset_ensures();
    xs.to_multiset_ensures();
    assert forall|k: int| 0 <= k < v.len() implies in_range(#[trigger] v[k]) by {
        assert(v.contains(v[k]));
        assert(xs.to_multiset().count(v[k]) > 0);
        let j = choose|j: int| 0 <= j < xs.len() && xs[j] == v[k];
        assert(in_range(xs[j]));
    }
}

/// A spread can be written.
pub open spec fn spread_fits(s: Spread) -> bool {
    &&& 0 < s.den <= 2 * UNIT * 1_000_000_000
    &&& -MEASURE_LIMIT * 1_000_000_000 <= s.num <= MEASURE_LIMIT * 1_000_000_000
    &&& 0 < s.unit <= UNIT * 1_000_000_000
    &&& in_range(s.lo)
    &&& in_range(s.hi)
}

/// The sum of measures.
pub fn total(xs: &Vec<i128>) -> (r: i128)
    requires
        xs@.len() <= 1_000_000_000,
        all_in_range(xs@),
    ensures
        r == sum_of(xs@, xs@.len() as int),
        -MEASURE_LIMIT * 1_000_000_000 <= r <= MEASURE_LIMIT * 1_000_000_000,
{
    let mut r: i128 = 0;
    let mut k: usize = 0;
    while k < xs.len()
        invariant
            k <= xs@.len(),
            xs@.len() <= 1_000_000_000,
            all_in_range(xs@),
            r == sum_of(xs@, k as int),
            -20_000_000_000_000_000_000_000_000 * k <= r <= 20_000_000_000_000_000_000_000_000 * k,
            MEASURE_LIMIT == 20_000_000_000_000_000_000_000_000,
        decreases xs@.len() - k,
    {
        assert(in_range(xs@[k as int]));
        r = r + xs[k];
        k += 1;
    }
    r
}

/// The mean with its spread.
pub fn mean3(xs: &Vec<i128>) -> (s: Spread)
    requires
        xs@.len() <= 1_000_000_000,
        all_in_range(xs@),
    ensures
        s == mean_spread(xs@),
        spread_fits(s),
{
    if xs.len() == 0 {
        return Spread { num: 0, den: UNIT, lo: 0, hi: 0, unit: UNIT };
    }
    let v = sort_measures(xs);
    proof {
        sorted_in_range(xs@);
    }
    Spread {
        num: total(xs),
        den: UNIT * (xs.len() as i128),
        lo: pick(&v, 0),
        hi: pick(&v, 100),
        unit: UNIT,
    }
}

/// Ten to the power of `d`.
pub open spec fn ten_to(d: nat) -> int
    decreases d,
{
    if d == 0 {
        1
    } else {
        10 * ten_to((d - 1) as nat)
    }
}

/// The whole number nearest to `a / b`, the even one of two.
pub open spec fn nearest_whole(a: int, b: int) -> int {
    let q = a / b;
    let r = a % b;
    if 2 * r > b || (2 * r == b && q % 2 == 1) {
        q + 1
    } else {
        q
    }
}

/// A number of `d` digits, led by zeros.
pub open spec fn padded(n: int, d: nat) -> Seq<char>
    decreases d,
{
    if d == 0 {
        Seq::empty()
    } else {
        padded(n / 10, (d - 1) as nat).push(crate::text::digit_of((n % 10) as nat))
    }
}

/// The sign that is written before a number.
pub open spec fn sign_of(negative: bool, plus: bool) -> Seq<char> {
    if negative {
        seq!['-']
    } else if plus {
        seq!['+']
    } else {
        Seq::empty()
    }
}

/// `n` counted in the last of `d` digits behind the point.
pub open spec fn written(negative: bool, n: int, d: nat, plus: bool) -> Seq<char> {
    let whole = sign_of(negative, plus) + crate::text::decimal_of((n / ten_to(d)) as nat);
    if d == 0 {
        whole
    } else {
        whole + seq!['.'] + padded(n % ten_to(d), d)
    }
}

/// `num / den`, with `d` digits behind the point.
pub open spec fn fixed(num: int, den: int, d: nat, plus: bool) -> Seq<char> {
    let a = if num < 0 {
        -num
    } else {
        num
    };
    written(num < 0, nearest_whole(a * ten_to(d), den), d, plus)
}


fn power(d: u8) -> (r: i128)
    requires
        d <= 3,
    ensures
        r == ten_to(d as nat),
        1 <= r <= 1_000,
        d <= 2 ==> r <= 100,
{
    proof {
        reveal_with_fuel(ten_to, 4);
    }
    if d == 0 {
        1
    } else if d == 1 {
        10
    } else if d == 2 {
        100
    } else {
        1_000
    }
}

fn pad(n: i128, d: u8) -> (s: String)
    requires
        n >= 0,
    ensures
        s@ == padded(n as int, d as nat),
    decreases d,
{
    if d == 0 {
        String::new()
    } else {
        let mut s = pad(n / 10, d - 1);
        push_char(&mut s, digit((n % 10) as u64));
        s
    }
}

/// Writes `num / den` with `d` digits behind the point, rounded to the nearest,
/// the even one of two; a plus sign is written where that is asked for.
pub fn write_fixed(num: i128, den: i128, d: u8, plus: bool) -> (s: String)
    requires
        d <= 3,
        den > 0,
        den <= MEASURE_LIMIT,
        -2 * MEASURE_LIMIT * 10_000_000_000 <= num <= 2 * MEASURE_LIMIT * 10_000_000_000,
        d == 3 ==> -MEASURE_LIMIT <= num <= MEASURE_LIMIT,
    ensures
        s@ == fixed(num as int, den as int, d as nat, plus),
{
    let a: i128 = if num < 0 {
        -num
    } else {
        num
    };
    let t: i128 = power(d);
    proof {
        assert(0 <= a * t <= a * 1_000) by (nonlinear_arith)
            requires
                0 <= a,
                1 <= t <= 1_000,
        ;
        if d <= 2 {
            assert(a * t <= a * 100) by (nonlinear_arith)
                requires
                    0 <= a,
                    1 <= t <= 100,
            ;
        }
        let x = a * t;
        let y = den as int;
        assert(0 <= x / y <= x) by (nonlinear_arith)
            requires
                0 <= x,
                y >= 1,
        ;
    }
    let q: i128 = a * t / den;
    let r: i128 = a * t % den;
    let n: i128 = if 2 * r > den || (2 * r == den && q % 2 == 1) {
        q + 1
    } else {
        q
    };
    write_digits(num < 0, n, d, plus)
}

/// Writes `n` counted in the last of `d` digits behind the point.
fn write_digits(negative: bool, n: i128, d: u8, plus: bool) -> (s: String)
    requires
        d <= 3,
        n >= 0,
    ensures
        s@ == written(negative, n as int, d as nat, plus),
{
    let t: i128 = power(d);
    proof {
        let y = t as int;
        assert(0 <= n / (t as i128) <= n) by (nonlinear_arith)
            requires
                0 <= n,
                y == t,
                y >= 1,
        ;
    }
    let mut s = String::new();
    if negative {
        push_char(&mut s, '-');
    } else if plus {
        push_char(&mut s, '+');
    }
    assert(s@ =~= sign_of(negative, plus));
    s.append(decimal_wide((n / t) as u128).as_str());
    if d > 0 {
        push_char(&mut s, '.');
        s.append(pad(n % t, d).as_str());
        proof {
            let whole = sign_of(negative, plus) + crate::text::decimal_of((n / t) as nat);
            assert(whole.push('.') =~= whole + seq!['.']);
        }
    }
    s
}

/// How often `m` goes into `x`, and what is left over.
fn divide(x: i128, m: i128) -> (r: (i128, i128))
    requires
        0 < m,
        -MEASURE_LIMIT * 1_000_000_000 <= x <= MEASURE_LIMIT * 1_000_000_000,
    ensures
        x == r.0 * m + r.1,
        0 <= r.1 < m,
        -MEASURE_LIMIT * 1_000_000_000 - 1 <= r.0 <= MEASURE_LIMIT * 1_000_000_000,
{
    let a: i128 = if x < 0 {
        -x
    } else {
        x
    };
    let (q, r): (i128, i128) = (a / m, a % m);
    proof {
        vstd::arithmetic::div_mod::lemma_fundamental_div_mod(a as int, m as int);
        assert(0 <= q <= a && a == q * m + r && 0 <= r < m) by (nonlinear_arith)
            requires
                0 <= a,
                0 < m,
                a == m * q + r,
                q == a / m,
                r == a % m,
        ;
        assert((-q) * m == -(q * m) && (-q - 1) * m == -(q * m) - m) by (nonlinear_arith);
    }
    if x >= 0 {
        (q, r)
    } else if r == 0 {
        (-q, 0)
    } else {
        (-q - 1, m - r)
    }
}

proof fn parts_add_up(x: int, m: int, y: int, n: int, qx: int, rx: int, qy: int, ry: int)
    requires
        0 < m,
        0 < n,
        x == qx * m + rx,
        y == qy * n + ry,
        0 <= rx < m,
        0 <= ry < n,
    ensures
        y * m - x * n == (qy - qx) * (m * n) + (ry * m - rx * n),
        -(m * n) < ry * m - rx * n < m * n,
{
    assert(y * m == qy * (m * n) + ry * m) by (nonlinear_arith)
        requires
            y == qy * n + ry,
    ;
    assert(x * n == qx * (m * n) + rx * n) by (nonlinear_arith)
        requires
            x == qx * m + rx,
    ;
    assert((qy - qx) * (m * n) == qy * (m * n) - qx * (m * n)) by (nonlinear_arith);
    assert(0 <= ry * m < m * n && 0 <= rx * n < m * n) by (nonlinear_arith)
        requires
            0 < m,
            0 < n,
            0 <= rx < m,
            0 <= ry < n,
    ;
}

proof fn hundredths_are_nearest(p: int, r: int, m: int, q: int, t: int, w: int)
    requires
        0 < m,
        100 * p == q * UNIT + t,
        w == t * m + 100 * r,
    ensures
        (p * m + r) * 100 / (UNIT * m) == q + w / (UNIT * m),
        (p * m + r) * 100 % (UNIT * m) == w % (UNIT * m),
{
    let den = UNIT * m;
    let x = (p * m + r) * 100;
    assert(den > 0) by (nonlinear_arith)
        requires
            den == 1_000_000 * m,
            m > 0,
    ;
    assert(x == q * den + w) by (nonlinear_arith)
        requires
            x == (p * m + r) * 100,
            den == 1_000_000 * m,
            100 * p == q * 1_000_000 + t,
            w == t * m + 100 * r,
    {
        assert((100 * p) * m == (q * 1_000_000 + t) * m);
        assert(x == (100 * p) * m + 100 * r);
        assert((q * 1_000_000 + t) * m == q * (1_000_000 * m) + t * m);
    }
    vstd::arithmetic::div_mod::lemma_fundamental_div_mod(w, den);
    vstd::arithmetic::div_mod::lemma_mod_bound(w, den);
    assert(x == (q + w / den) * den + w % den) by (nonlinear_arith)
        requires
            x == q * den + w,
            w == den * (w / den) + w % den,
    ;
    vstd::arithmetic::div_mod::lemma_fundamental_div_mod_converse_div(x, den, q + w / den, w % den);
    vstd::arithmetic::div_mod::lemma_fundamental_div_mod_converse_mod(x, den, q + w / den, w % den);
}

/// Writes by how much the mean of `n` measures with the sum `y` is more than that
/// of `m` measures with the sum `x`, with its sign and two digits behind the point.
pub fn write_delta(x: i128, m: i128, y: i128, n: i128) -> (s: String)
    requires
        0 < m <= 1_000_000_000,
        0 < n <= 1_000_000_000,
        -MEASURE_LIMIT * 1_000_000_000 <= x <= MEASURE_LIMIT * 1_000_000_000,
        -MEASURE_LIMIT * 1_000_000_000 <= y <= MEASURE_LIMIT * 1_000_000_000,
    ensures
        s@ == fixed(y * m - x * n, UNIT * (m * n), 2, true),
{
    let (qx, rx): (i128, i128) = divide(x, m);
    let (qy, ry): (i128, i128) = divide(y, n);
    proof {
        parts_add_up(
            x as int,
            m as int,
            y as int,
            n as int,
            qx as int,
            rx as int,
            qy as int,
            ry as int,
        );
        assert(0 < m * n <= 1_000_000_000 * 1_000_000_000) by (nonlinear_arith)
            requires
                0 < m <= 1_000_000_000,
                0 < n <= 1_000_000_000,
        ;
        assert(0 <= ry * m < m * n && 0 <= rx * n < m * n) by (nonlinear_arith)
            requires
                0 < m,
                0 < n,
                0 <= rx < m,
                0 <= ry < n,
        ;
    }
    let all: i128 = m * n;
    let rest: i128 = ry * m - rx * n;
    let (a, b): (i128, i128) = if rest < 0 {
        (qy - qx - 1, rest + all)
    } else {
        (qy - qx, rest)
    };
    let ghost num = y * m - x * n;
    let (p, r): (i128, i128) = if a >= 0 {
        (a, b)
    } else if b == 0 {
        (-a, 0)
    } else {
        (-a - 1, all - b)
    };
    proof {
        let (d, c) = (qy - qx, all as int);
        assert(num == a * c + b) by (nonlinear_arith)
            requires
                num == d * c + rest,
                (a == d && b == rest) || (a == d - 1 && b == rest + c),
        ;
        assert(num < 0 <==> a < 0) by (nonlinear_arith)
            requires
                num == a * c + b,
                0 <= b < c,
        ;
        assert((if num < 0 {
            -num
        } else {
            num
        }) == p * c + r) by (nonlinear_arith)
            requires
                num == a * c + b,
                num < 0 <==> a < 0,
                a >= 0 ==> p == a && r == b,
                a < 0 && b == 0 ==> p == -a && r == 0,
                a < 0 && b != 0 ==> p == -a - 1 && r == c - b,
        ;
    }
    let q: i128 = 100 * p / UNIT;
    let t: i128 = 100 * p % UNIT;
    proof {
        assert(0 <= t * all <= 1_000_000 * 1_000_000_000_000_000_000) by (nonlinear_arith)
            requires
                0 <= t <= 1_000_000,
                0 <= all <= 1_000_000_000_000_000_000,
        ;
    }
    let w: i128 = t * all + 100 * r;
    let den: i128 = UNIT * all;
    proof {
        hundredths_are_nearest(p as int, r as int, all as int, q as int, t as int, w as int);
        reveal_with_fuel(ten_to, 3);
        assert(0 <= w / den <= w) by (nonlinear_arith)
            requires
                0 <= w,
                den >= 1,
        ;
    }
    let whole: i128 = q + w / den;
    let left: i128 = w % den;
    let k: i128 = if 2 * left > den || (2 * left == den && whole % 2 == 1) {
        whole + 1
    } else {
        whole
    };
    write_digits(a < 0, k, 2, true)
}

/// The middle of some measures and, of more than one, their spread.
pub open spec fn spread_text(s: Spread, count: int, d: nat, unit: Seq<char>) -> Seq<char> {
    let m = fixed(s.num as int, s.den as int, d, false) + unit;
    if count <= 1 {
        m
    } else {
        m + " ("@ + fixed(s.lo as int, s.unit as int, d, false) + "\u{2013}"@ + fixed(
            s.hi as int,
            s.unit as int,
            d,
            false,
        ) + ")"@
    }
}

/// Writes the middle of some measures and, of more than one, their spread.
pub fn write_spread(s: &Spread, count: usize, d: u8, unit: &str) -> (t: String)
    requires
        d <= 2,
        spread_fits(*s),
    ensures
        t@ == spread_text(*s, count as int, d as nat, unit@),
{
    let mut t = write_fixed(s.num, s.den, d, false);
    t.append(unit);
    if count > 1 {
        t.append(" (");
        t.append(write_fixed(s.lo, s.unit, d, false).as_str());
        t.append("\u{2013}");
        t.append(write_fixed(s.hi, s.unit, d, false).as_str());
        t.append(")");
    }
    t
}

/// The median of some measures in whole units, with its spread.
pub open spec fn median_text(xs: Seq<i128>) -> Seq<char> {
    spread_text(median_spread(xs), xs.len() as int, 0, ""@)
}

/// Writes the median of some measures in whole units, with its spread.
pub fn fmt3(xs: &Vec<i128>) -> (t: String)
    requires
        all_in_range(xs@),
    ensures
        t@ == median_text(xs@),
{
    let s = stat3(xs);
    write_spread(&s, xs.len(), 0, "")
}

} // verus!
