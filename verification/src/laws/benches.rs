//! What a benchmark run does, counts and compares.

use vstd::prelude::*;

use crate::bench::{
    first_missing, first_of, frame_time, gain, held_by, nap, over_count, patience, setting_line,
    target_place, utilisation, verdicts, RigModel, MEDIA_WORKERS,
};
use crate::events::{gap_of, last_served, narrowed, RelEvent};
use crate::measure::{fixed, Spread, UNIT};
use crate::report::{
    joined, latency_delta, line_at, line_end, right_aligned, rss_peak, spread_delta, valid_runs,
    ProcPoint, Summary,
};
use crate::text::decimal_of;

verus! {

/// A frame lasts its part of a second.
pub proof fn frames_fill_the_second(hz: u64)
    requires
        hz >= 1_000_000,
    ensures
        frame_time(hz) * hz <= 1_000_000_000_000_000 < (frame_time(hz) + 1) * hz,
{
    let h = hz as int;
    let f = 1_000_000_000_000_000int / h;
    assert(f * h <= 1_000_000_000_000_000 < (f + 1) * h) by (nonlinear_arith)
        requires
            h > 0,
            f == 1_000_000_000_000_000int / h,
    ;
}

/// A nap lasts to the next frame while things move, else to what was asked for, and never
/// longer than a tenth of a second; with nothing to wait for there is none.
pub proof fn a_nap_lasts_to_what_is_next(last: u64, period: u64, asked: Option<u64>, now: u64)
    ensures
        last + period >= now && last + period - now <= 100_000_000 ==> now + nap(
            true,
            last,
            period,
            asked,
            now,
        ) == last + period,
        last + period <= now ==> nap(true, last, period, asked, now) == 0,
        (asked matches Some(t) && now <= t <= now + 100_000_000) ==> now + nap(
            false,
            last,
            period,
            asked,
            now,
        ) == asked->0,
        asked is None ==> nap(false, last, period, asked, now) == 0,
        0 <= nap(true, last, period, asked, now) <= 100_000_000,
        0 <= nap(false, last, period, asked, now) <= 100_000_000,
{
}

/// Frames over a limit are counted: each that lasts longer, and no other; over a greater
/// limit there are no more.
pub proof fn long_frames_are_counted(ticks: Seq<u64>, x: u64, ns: u64, more: u64)
    requires
        ns <= more,
    ensures
        ({
            let n = ticks.len() as int;
            &&& over_count(ticks.push(x), ns, n + 1) == over_count(ticks, ns, n) + (if x > ns {
                1int
            } else {
                0int
            })
            &&& 0 <= over_count(ticks, more, n) <= over_count(ticks, ns, n) <= n
        }),
{
    counts_agree(ticks.push(x), ticks, ns, ticks.len() as int);
    counts_compare(ticks, ns, more, ticks.len() as int);
}

proof fn counts_agree(a: Seq<u64>, b: Seq<u64>, ns: u64, n: int)
    requires
        0 <= n <= a.len(),
        n <= b.len(),
        forall|k: int| 0 <= k < n ==> a[k] == b[k],
    ensures
        over_count(a, ns, n) == over_count(b, ns, n),
    decreases n,
{
    if n > 0 {
        counts_agree(a, b, ns, n - 1);
    }
}

proof fn counts_compare(ticks: Seq<u64>, ns: u64, more: u64, n: int)
    requires
        0 <= n <= ticks.len(),
        ns <= more,
    ensures
        0 <= over_count(ticks, more, n) <= over_count(ticks, ns, n) <= n,
    decreases n,
{
    if n > 0 {
        counts_compare(ticks, ns, more, n - 1);
    }
}

/// Workers that are busy all the time are wholly in use, and twice the work is twice the
/// use.
pub proof fn busy_workers_are_in_use(us: u64, wall: u64)
    requires
        0 < us <= 1_000_000_000_000,
        wall == us * 1000,
    ensures
        us * MEDIA_WORKERS <= u64::MAX ==> utilisation((us * MEDIA_WORKERS) as u64, wall)
            == 1_000_000,
        utilisation(0, wall) == 0,
{
    let w = wall * MEDIA_WORKERS;
    let b = us * MEDIA_WORKERS;
    assert(w == 1000 * b && b > 0) by (nonlinear_arith)
        requires
            w == wall * MEDIA_WORKERS,
            b == us * MEDIA_WORKERS,
            wall == us * 1000,
            us > 0,
            MEDIA_WORKERS > 0,
    ;
    assert(b * 1_000_000_000 / w == 1_000_000) by (nonlinear_arith)
        requires
            w == 1000 * b,
            b > 0,
    ;
    vstd::arithmetic::div_mod::lemma_basic_div(0, w);
}

/// A target by its number is the clip of that number, where there is one; the last is the
/// last, and without clips there is no target.
pub proof fn targets_lead_to_their_clips(i: nat, clips: int, selected: int, word: Seq<char>)
    requires
        0 < clips,
        i <= usize::MAX,
    ensures
        i < clips ==> target_place("index:"@ + decimal_of(i), clips, selected) == Ok::<
            int,
            Seq<char>,
        >(i as int),
        i >= clips ==> target_place("index:"@ + decimal_of(i), clips, selected) is Err,
        target_place("last"@, clips, selected) == Ok::<int, Seq<char>>(clips - 1),
        target_place("first"@, clips, selected) == Ok::<int, Seq<char>>(0),
        target_place("selected"@, clips, selected) == Ok::<int, Seq<char>>(selected),
        target_place(word, 0, selected) is Err,
{
    super::numbers::figures_read_back(i);
    let t = "index:"@ + decimal_of(i);
    reveal_strlit("index:");
    reveal_strlit("first");
    reveal_strlit("last");
    reveal_strlit("selected");
    reveal_strlit("");
    assert(t.subrange(0, 6) =~= "index:"@);
    assert(t.subrange(6, t.len() as int) =~= decimal_of(i));
    assert(t[0] == 'i');
    assert("first"@[0] == 'f' && "last"@[0] == 'l' && "selected"@[0] == 's');
}

/// A wait lasts as long as it is told to, or else half a minute.
pub proof fn patience_ends(timeout: u64)
    ensures
        timeout > 0 ==> patience(timeout) == timeout,
        patience(0) == 30_000_000_000,
{
}

/// A setting is parted at its first sign of equality, and refused without one.
pub proof fn a_setting_is_parted_once(key: Seq<char>, value: Seq<char>)
    requires
        forall|k: int| 0 <= k < key.len() ==> #[trigger] key[k] != '=',
    ensures
        setting_line(key + seq!['='] + value) == Ok::<Seq<char>, Seq<char>>(
            key + " = "@ + crate::bench::setting_value(value) + "\n"@,
        ),
        setting_line(key) is Err,
{
    let s = key + seq!['='] + value;
    the_first_of_its_kind(s, key, '=', 0);
    none_of_its_kind(key, '=', 0);
    assert(s.subrange(0, key.len() as int) =~= key);
    assert(s.subrange(key.len() as int + 1, s.len() as int) =~= value);
}

proof fn the_first_of_its_kind(s: Seq<char>, key: Seq<char>, c: char, from: int)
    requires
        key.len() < s.len(),
        0 <= from <= key.len(),
        forall|k: int| 0 <= k < key.len() ==> #[trigger] s[k] != c,
        s[key.len() as int] == c,
    ensures
        first_of(s, c, from) == key.len(),
    decreases key.len() - from,
{
    if from < key.len() {
        the_first_of_its_kind(s, key, c, from + 1);
    }
}

proof fn none_of_its_kind(s: Seq<char>, c: char, from: int)
    requires
        0 <= from <= s.len(),
        forall|k: int| 0 <= k < s.len() ==> #[trigger] s[k] != c,
    ensures
        first_of(s, c, from) >= s.len(),
    decreases s.len() - from,
{
    if from < s.len() {
        none_of_its_kind(s, c, from + 1);
    }
}

/// The first file that is missing is found: all before it are there.
pub proof fn the_first_missing_file_is_found(there: Seq<bool>, from: int)
    requires
        0 <= from <= there.len(),
    ensures
        ({
            let k = first_missing(there, from);
            &&& from <= k <= there.len()
            &&& k < there.len() ==> !there[k]
            &&& forall|j: int| from <= j < k ==> #[trigger] there[j]
        }),
    decreases there.len() - from,
{
    if from < there.len() && there[from] {
        the_first_missing_file_is_found(there, from + 1);
    }
}

/// What a phase took in a frame is what its clock went on by.
pub proof fn a_phase_takes_what_its_clock_went_on(before: u64, took: u64)
    requires
        before + took <= u64::MAX,
    ensures
        gain((before + took) as u64, before) == took,
{
}

/// A condition is noted when it is first met, and every condition that is required has a
/// verdict.
pub proof fn conditions_are_noted_once(rig: RigModel, cond: Seq<char>, at: i64, later: i64)
    ensures
        ({
            let r = rig.recorded(cond, at);
            &&& r.has_met(cond)
            &&& r.recorded(cond, later) == r
            &&& !rig.has_met(cond) ==> r.conds == rig.conds.push((cond, at))
            &&& rig.has_met(cond) ==> r == rig
        }),
        verdicts(rig, Seq::empty(), 0).len() == rig.conds.len(),
{
    if !rig.has_met(cond) {
        let r = rig.recorded(cond, at);
        assert(r.conds[rig.conds.len() as int].0 == cond);
    }
}

/// What child processes hold adds up.
pub proof fn what_is_held_adds_up(children: Seq<Option<u64>>, kb: Option<u64>)
    ensures
        held_by(children.push(kb), children.len() as int + 1) == held_by(children, children.len() as int)
            + (match kb {
            Some(k) => k as int,
            None => 0,
        }),
        held_by(children, 0) == 0,
{
    holdings_agree(children.push(kb), children, children.len() as int);
}

proof fn holdings_agree(a: Seq<Option<u64>>, b: Seq<Option<u64>>, n: int)
    requires
        0 <= n <= a.len(),
        n <= b.len(),
        forall|k: int| 0 <= k < n ==> a[k] == b[k],
    ensures
        held_by(a, n) == held_by(b, n),
    decreases n,
{
    if n > 0 {
        holdings_agree(a, b, n - 1);
    }
}

/// A gap lasts from the frame before of the same stream to the frame.
pub proof fn a_gap_lasts_from_the_frame_before(events: Seq<RelEvent>, i: int, j: int)
    requires
        0 <= j < i < events.len(),
        events[i].kind@ == "frame_served"@,
        events[j].kind@ == "frame_served"@,
        events[i].lane_gen == events[j].lane_gen,
        forall|k: int|
            j < k < i ==> (#[trigger] events[k]).kind@ != "frame_served"@ || events[k].lane_gen
                != events[i].lane_gen,
    ensures
        gap_of(events, i).len() == 1,
        gap_of(events, i)[0].v0 == events[i].t - events[j].t,
        gap_of(events, i)[0].a == events[i].lane@,
{
    the_frame_before(events, events[i].lane_gen, i, j);
}

proof fn the_frame_before(events: Seq<RelEvent>, generation: u64, n: int, j: int)
    requires
        0 <= j < n <= events.len(),
        events[j].kind@ == "frame_served"@,
        events[j].lane_gen == generation,
        forall|k: int|
            j < k < n ==> (#[trigger] events[k]).kind@ != "frame_served"@ || events[k].lane_gen
                != generation,
    ensures
        last_served(events, generation, n) == Some(events[j].t),
    decreases n,
{
    if j < n - 1 {
        the_frame_before(events, generation, n - 1, j);
    }
}

/// A number that does not fit is kept at the end of the range it passed; one that fits
/// stays.
pub proof fn numbers_stay_in_range(x: int)
    ensures
        i64::MIN <= x <= i64::MAX ==> narrowed(x) == x,
        x > i64::MAX ==> narrowed(x) == i64::MAX,
        x < i64::MIN ==> narrowed(x) == i64::MIN,
{
}

/// A comparison shows how far the second side lies above the first, with its sign: what
/// both sides gain changes nothing, and where one side is missing there is no delta.
pub proof fn a_delta_leads_from_the_first_to_the_second(v: int, w: int, k: int)
    ensures
        latency_delta(Some(v), Some(w))[0] == (if w < v {
            '-'
        } else {
            '+'
        }),
        latency_delta(Some(v + k), Some(w + k)) == latency_delta(Some(v), Some(w)),
        latency_delta(None, Some(w)) == latency_delta(Some(v), None),
{
    assert((w + k) - (v + k) == w - v);
    let d = if w < v {
        v - w
    } else {
        w - v
    };
    signs_stand_first(w < v, crate::measure::nearest_whole(d * crate::measure::ten_to(0), UNIT as int));
}

proof fn signs_stand_first(negative: bool, n: int)
    ensures
        crate::measure::written(negative, n, 0, true)[0] == (if negative {
            '-'
        } else {
            '+'
        }),
{
}

/// The delta of two spreads is the difference of what each holds for one of its parts.
pub proof fn a_spread_delta_is_a_difference(a: Spread, b: Spread, more: i128)
    requires
        a.den == UNIT,
        a.unit == UNIT,
        b.den == UNIT,
        b.unit == UNIT,
        a.num + more == b.num,
    ensures
        spread_delta(a, b) == fixed(more as int, UNIT as int, 2, true),
{
    assert(UNIT as int / (UNIT as int) == 1);
    assert(crate::report::parts_of(a) == 1 && crate::report::parts_of(b) == 1);
    assert(b.num * 1 - a.num * 1 == b.num - a.num);
}

/// The peak is reached and never passed.
pub proof fn the_peak_is_the_greatest(curve: Seq<ProcPoint>, n: int, k: int)
    requires
        0 <= k < n <= curve.len(),
    ensures
        rss_peak(curve, n) >= curve[k].rss_mb,
        rss_peak(curve, n) == 0 || exists|j: int|
            0 <= j < n && rss_peak(curve, n) == (#[trigger] curve[j]).rss_mb,
    decreases n,
{
    if n > 1 {
        the_peak_is_the_greatest(curve, n - 1, if k < n - 1 {
            k
        } else {
            0
        });
    }
    let p = rss_peak(curve, n);
    if curve[n - 1].rss_mb as int == p {
        assert(p == curve[n - 1].rss_mb);
    } else if n == 1 {
        assert(rss_peak(curve, 0) == 0);
    }
}

/// Valid runs are counted, each once.
pub proof fn valid_runs_are_counted(runs: Seq<Summary>, n: int)
    requires
        0 < n <= runs.len(),
    ensures
        runs[n - 1].valid ==> valid_runs(runs, n) == valid_runs(runs, n - 1) + 1,
        !runs[n - 1].valid ==> valid_runs(runs, n) == valid_runs(runs, n - 1),
        valid_runs(runs, 0) == 0,
{
}

/// A text that is aligned to the right keeps its end and gains spaces in front.
pub proof fn a_text_is_aligned_to_the_right(s: Seq<char>, width: int, k: int)
    requires
        width >= s.len(),
    ensures
        right_aligned(s, width).len() == width,
        0 <= k < width - s.len() ==> right_aligned(s, width)[k] == ' ',
        width - s.len() <= k < width ==> right_aligned(s, width)[k] == s[k - (width - s.len())],
    decreases width - s.len(),
{
    if s.len() < width {
        a_text_is_aligned_to_the_right(seq![' '] + s, width, k);
    }
}

/// A line ends where the next one begins, without what ends it.
pub proof fn a_line_ends_before_its_end(s: Seq<char>, from: int)
    requires
        0 <= from <= s.len(),
    ensures
        ({
            let e = line_end(s, from);
            let l = line_at(s, from);
            &&& from <= e <= s.len()
            &&& e < s.len() ==> s[e] == '\n'
            &&& forall|k: int| from <= k < e ==> #[trigger] s[k] != '\n'
            &&& l.len() == e - from || (l.len() == e - from - 1 && s[e - 1] == '\r')
            &&& forall|k: int| 0 <= k < l.len() ==> #[trigger] l[k] == s[from + k]
        }),
    decreases s.len() - from,
{
    if from < s.len() && s[from] != '\n' {
        a_line_ends_before_its_end(s, from + 1);
    }
}

/// Texts are joined in order, with what parts them between two and nowhere else.
pub proof fn texts_are_joined_in_order(texts: Seq<String>, sep: Seq<char>, n: int)
    requires
        1 < n <= texts.len(),
    ensures
        joined(texts, sep, 0).len() == 0,
        joined(texts, sep, 1) == texts[0]@,
        joined(texts, sep, n).len() == joined(texts, sep, n - 1).len() + sep.len() + texts[n
            - 1]@.len(),
        joined(texts, sep, n).take(joined(texts, sep, n - 1).len() as int) == joined(
            texts,
            sep,
            n - 1,
        ),
{
    let v = joined(texts, sep, n - 1);
    assert((v + sep + texts[n - 1]@).take(v.len() as int) =~= v);
}

} // verus!
