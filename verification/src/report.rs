//! Reports on benchmark runs: what a run measured, and what several runs of one
//! scenario amount to.
//!
//! Measures are in millionths: `p50_ms` is in millionths of a millisecond,
//! `wall_s` in millionths of a second.

use vstd::prelude::*;

use crate::measure::{fmt3, mean3, stat3, write_delta, write_fixed, write_spread, UNIT};
use crate::table::{column, count_of, entry, name_rows, Entry};
use crate::text::{chars_of, decimal, part_of, push_char, string_of, trim_range};

verus! {

/// The counts of a run.
#[derive(Clone, Copy, PartialEq, Eq, Structural, Debug)]
pub struct Counters {
    pub late_frames: u64,
    pub reanchors: u64,
    pub evictions: u64,
    pub thumbs_cached: u64,
    pub drain_budget_hits: u64,
    pub jobs_started: u64,
    pub jobs_finished: u64,
    pub jobs_hit: u64,
    pub jobs_failed: u64,
    pub pending_bytes_peak: u64,
    pub ingest_seen: u64,
    pub ingest_rejected: u64,
    pub ingest_io_us: u64,
    pub worker_busy_us: u64,
    pub render_stalls: u64,
    pub render_stall_us: u64,
    pub render_stall_max_us: u64,
    pub render_stall_meta_count: u64,
    pub render_stall_meta_us: u64,
    pub render_stall_path_count: u64,
    pub render_stall_path_us: u64,
    pub meta_wait_expired: u64,
    pub decode_reads: u64,
    pub decode_read_us: u64,
    pub decode_read_max_us: u64,
    pub decode_read_over_100ms: u64,
    pub decode_read_over_1s: u64,
    pub queue_wait_thumb_count: u64,
    pub queue_wait_thumb_us: u64,
    pub queue_wait_thumb_max_us: u64,
    pub queue_wait_gen_count: u64,
    pub queue_wait_gen_us: u64,
    pub queue_wait_gen_max_us: u64,
    pub thumb_requests: u64,
    pub visible_tiles_max: u64,
    pub atlas_full_drops: u64,
}

impl Default for Counters {
    fn default() -> (c: Self)
        ensures
            c == Counters::none(),
    {
        Counters {
            late_frames: 0,
            reanchors: 0,
            evictions: 0,
            thumbs_cached: 0,
            drain_budget_hits: 0,
            jobs_started: 0,
            jobs_finished: 0,
            jobs_hit: 0,
            jobs_failed: 0,
            pending_bytes_peak: 0,
            ingest_seen: 0,
            ingest_rejected: 0,
            ingest_io_us: 0,
            worker_busy_us: 0,
            render_stalls: 0,
            render_stall_us: 0,
            render_stall_max_us: 0,
            render_stall_meta_count: 0,
            render_stall_meta_us: 0,
            render_stall_path_count: 0,
            render_stall_path_us: 0,
            meta_wait_expired: 0,
            decode_reads: 0,
            decode_read_us: 0,
            decode_read_max_us: 0,
            decode_read_over_100ms: 0,
            decode_read_over_1s: 0,
            queue_wait_thumb_count: 0,
            queue_wait_thumb_us: 0,
            queue_wait_thumb_max_us: 0,
            queue_wait_gen_count: 0,
            queue_wait_gen_us: 0,
            queue_wait_gen_max_us: 0,
            thumb_requests: 0,
            visible_tiles_max: 0,
            atlas_full_drops: 0,
        }
    }
}

impl Counters {
    /// Nothing was counted.
    pub open spec fn none() -> Counters {
        Counters {
            late_frames: 0,
            reanchors: 0,
            evictions: 0,
            thumbs_cached: 0,
            drain_budget_hits: 0,
            jobs_started: 0,
            jobs_finished: 0,
            jobs_hit: 0,
            jobs_failed: 0,
            pending_bytes_peak: 0,
            ingest_seen: 0,
            ingest_rejected: 0,
            ingest_io_us: 0,
            worker_busy_us: 0,
            render_stalls: 0,
            render_stall_us: 0,
            render_stall_max_us: 0,
            render_stall_meta_count: 0,
            render_stall_meta_us: 0,
            render_stall_path_count: 0,
            render_stall_path_us: 0,
            meta_wait_expired: 0,
            decode_reads: 0,
            decode_read_us: 0,
            decode_read_max_us: 0,
            decode_read_over_100ms: 0,
            decode_read_over_1s: 0,
            queue_wait_thumb_count: 0,
            queue_wait_thumb_us: 0,
            queue_wait_thumb_max_us: 0,
            queue_wait_gen_count: 0,
            queue_wait_gen_us: 0,
            queue_wait_gen_max_us: 0,
            thumb_requests: 0,
            visible_tiles_max: 0,
            atlas_full_drops: 0,
        }
    }
}

/// How long something took, by lane and by what was measured.
pub struct LatencyStat {
    pub lane: String,
    pub metric: String,
    pub count: usize,
    pub p50_ms: i64,
    pub p95_ms: i64,
    pub max_ms: i64,
}

/// What frames cost: the median, a high percentile and the most.
#[derive(Clone, Copy, PartialEq, Eq, Structural, Debug)]
pub struct TickStat {
    pub p50: i64,
    pub p95: i64,
    pub max: i64,
}

/// How many frames took longer than a threshold.
#[derive(Clone, Copy, PartialEq, Eq, Structural, Debug)]
pub struct TickOver {
    pub over_ms: i64,
    pub count: u64,
}

/// What a part of the frames cost.
pub struct PhaseStat {
    pub phase: String,
    pub p50_ms: i64,
    pub p95_ms: i64,
    pub max_ms: i64,
    pub share: i64,
}

/// What background jobs cost, by tier and by outcome.
pub struct JobStat {
    pub tier: String,
    pub outcome: String,
    pub count: usize,
    pub p50_ms: i64,
    pub p95_ms: i64,
    pub max_ms: i64,
    pub total_s: i64,
}

/// Whether a condition was met, and when.
pub struct CondResult {
    pub cond: String,
    pub met: bool,
    pub at_s: Option<i64>,
}

/// The process at a moment: its memory, its threads and its children.
#[derive(Clone, Copy, PartialEq, Eq, Structural, Debug)]
pub struct ProcPoint {
    pub at_s: i64,
    pub rss_mb: i64,
    pub threads: u64,
    pub children: u64,
}

/// The queues at a moment.
#[derive(Clone, Copy, PartialEq, Eq, Structural, Debug)]
pub struct QueuePoint {
    pub at_s: i64,
    pub thumbs: u64,
    pub gen: u64,
    pub anims: u64,
    pub inflight: u64,
    pub gen_running: u64,
    pub pending: u64,
}

/// What a run measured.
pub struct Summary {
    pub scenario: String,
    pub intent: String,
    /// The settings that were overridden for the run.
    pub tuning_sets: Vec<String>,
    pub valid: bool,
    pub invalid_reasons: Vec<String>,
    pub wall_s: i64,
    pub frames: u64,
    pub counters: Counters,
    pub latencies: Vec<LatencyStat>,
    /// How many thumbnails were cached when, one point for each change.
    pub thumbs_curve: Vec<(i64, u64)>,
    pub tick_ms: TickStat,
    pub events: usize,
    pub events_dropped: u64,
    pub conditions: Vec<CondResult>,
    pub tick_over: Vec<TickOver>,
    pub phase_ms: Vec<PhaseStat>,
    pub queue_curve: Vec<QueuePoint>,
    pub jobs: Vec<JobStat>,
    pub worker_utilisation: i64,
    pub proc_curve: Vec<ProcPoint>,
    pub frame_gap_ms: Vec<LatencyStat>,
    /// How many pictures the atlas holds.
    pub atlas_slots: u64,
}

/// The text of a table's rows.
pub open spec fn lat_row(l: LatencyStat) -> crate::table::Row {
    crate::table::Row {
        a: l.lane@,
        b: l.metric@,
        n: l.count,
        v0: l.p50_ms as i128,
        v1: l.p95_ms as i128,
        v2: l.max_ms as i128,
        v3: 0,
    }
}

/// The latencies of the first `n` runs, one run after the other.
pub open spec fn latency_rows(runs: Seq<Summary>, n: int) -> Seq<crate::table::Row>
    decreases n,
{
    if n <= 0 {
        Seq::empty()
    } else {
        latency_rows(runs, n - 1) + runs[n - 1].latencies@.map_values(|l: LatencyStat| lat_row(l))
    }
}

/// The frame gaps of the first `n` runs; they are brought together by lane.
pub open spec fn gap_rows(runs: Seq<Summary>, n: int) -> Seq<crate::table::Row>
    decreases n,
{
    if n <= 0 {
        Seq::empty()
    } else {
        gap_rows(runs, n - 1) + runs[n - 1].frame_gap_ms@.map_values(
            |l: LatencyStat| crate::table::Row { b: Seq::empty(), ..lat_row(l) },
        )
    }
}

pub open spec fn phase_row(p: PhaseStat) -> crate::table::Row {
    crate::table::Row {
        a: p.phase@,
        b: Seq::empty(),
        n: 0,
        v0: p.p50_ms as i128,
        v1: p.p95_ms as i128,
        v2: p.max_ms as i128,
        v3: p.share as i128,
    }
}

/// The phases of the first `n` runs.
pub open spec fn phase_rows(runs: Seq<Summary>, n: int) -> Seq<crate::table::Row>
    decreases n,
{
    if n <= 0 {
        Seq::empty()
    } else {
        phase_rows(runs, n - 1) + runs[n - 1].phase_ms@.map_values(|p: PhaseStat| phase_row(p))
    }
}

pub open spec fn job_row(j: JobStat) -> crate::table::Row {
    crate::table::Row {
        a: j.tier@,
        b: j.outcome@,
        n: j.count,
        v0: j.p50_ms as i128,
        v1: j.p95_ms as i128,
        v2: j.max_ms as i128,
        v3: j.total_s as i128,
    }
}

/// The jobs of the first `n` runs.
pub open spec fn job_rows(runs: Seq<Summary>, n: int) -> Seq<crate::table::Row>
    decreases n,
{
    if n <= 0 {
        Seq::empty()
    } else {
        job_rows(runs, n - 1) + runs[n - 1].jobs@.map_values(|j: JobStat| job_row(j))
    }
}

/// A text brought to a width by spaces before it.
pub open spec fn right_aligned(s: Seq<char>, width: int) -> Seq<char>
    decreases width - s.len(),
{
    if s.len() >= width {
        s
    } else {
        right_aligned(seq![' '] + s, width)
    }
}

pub open spec fn over_row(t: TickOver) -> crate::table::Row {
    crate::table::Row {
        a: right_aligned(crate::measure::fixed(t.over_ms as int, UNIT as int, 0, false), 6),
        b: Seq::empty(),
        n: 0,
        v0: (t.count * UNIT) as i128,
        v1: 0,
        v2: 0,
        v3: 0,
    }
}

/// The counts over thresholds of the first `n` runs.
pub open spec fn over_rows(runs: Seq<Summary>, n: int) -> Seq<crate::table::Row>
    decreases n,
{
    if n <= 0 {
        Seq::empty()
    } else {
        over_rows(runs, n - 1) + runs[n - 1].tick_over@.map_values(|t: TickOver| over_row(t))
    }
}

fn latency_entries(runs: &Vec<Summary>) -> (v: Vec<Entry>)
    ensures
        crate::table::rows_of(v@) == latency_rows(runs@, runs@.len() as int),
        forall|k: int| 0 <= k < v@.len() ==> (#[trigger] v@[k])@.in_range(),
{
    let mut v: Vec<Entry> = Vec::new();
    let mut r: usize = 0;
    assert(crate::table::rows_of(v@) =~= Seq::empty());
    while r < runs.len()
        invariant
            r <= runs@.len(),
            crate::table::rows_of(v@) == latency_rows(runs@, r as int),
            forall|k: int| 0 <= k < v@.len() ==> (#[trigger] v@[k])@.in_range(),
        decreases runs@.len() - r,
    {
        let ls = &runs[r].latencies;
        let ghost before = crate::table::rows_of(v@);
        let ghost all = ls@.map_values(|l: LatencyStat| lat_row(l));
        let mut k: usize = 0;
        assert(before =~= before + all.take(0));
        while k < ls.len()
            invariant
                k <= ls@.len(),
                all == ls@.map_values(|l: LatencyStat| lat_row(l)),
                crate::table::rows_of(v@) == before + all.take(k as int),
                forall|k: int| 0 <= k < v@.len() ==> (#[trigger] v@[k])@.in_range(),
            decreases ls@.len() - k,
        {
            let l = &ls[k];
            let e = entry(
                l.lane.as_str(),
                l.metric.as_str(),
                l.count,
                l.p50_ms as i128,
                l.p95_ms as i128,
                l.max_ms as i128,
                0,
            );
            let ghost rows = crate::table::rows_of(v@);
            v.push(e);
            k += 1;
            assert(crate::table::rows_of(v@) =~= rows.push(all[k - 1]));
            assert(all.take(k as int) =~= all.take(k - 1).push(all[k - 1]));
            assert(crate::table::rows_of(v@) =~= before + all.take(k as int));
        }
        assert(all.take(all.len() as int) =~= all);
        r += 1;
    }
    v
}

fn gap_entries(runs: &Vec<Summary>) -> (v: Vec<Entry>)
    ensures
        crate::table::rows_of(v@) == gap_rows(runs@, runs@.len() as int),
        forall|k: int| 0 <= k < v@.len() ==> (#[trigger] v@[k])@.in_range(),
{
    let mut v: Vec<Entry> = Vec::new();
    let mut r: usize = 0;
    proof {
        reveal_strlit("");
        assert(""@ =~= Seq::empty());
    }
    assert(crate::table::rows_of(v@) =~= Seq::empty());
    while r < runs.len()
        invariant
            r <= runs@.len(),
            ""@ == Seq::<char>::empty(),
            crate::table::rows_of(v@) == gap_rows(runs@, r as int),
            forall|k: int| 0 <= k < v@.len() ==> (#[trigger] v@[k])@.in_range(),
        decreases runs@.len() - r,
    {
        let ls = &runs[r].frame_gap_ms;
        let ghost before = crate::table::rows_of(v@);
        let ghost all = ls@.map_values(
            |l: LatencyStat| crate::table::Row { b: Seq::empty(), ..lat_row(l) },
        );
        let mut k: usize = 0;
        assert(before =~= before + all.take(0));
        while k < ls.len()
            invariant
                k <= ls@.len(),
                ""@ == Seq::<char>::empty(),
                all == ls@.map_values(
                    |l: LatencyStat| crate::table::Row { b: Seq::empty(), ..lat_row(l) },
                ),
                crate::table::rows_of(v@) == before + all.take(k as int),
                forall|k: int| 0 <= k < v@.len() ==> (#[trigger] v@[k])@.in_range(),
            decreases ls@.len() - k,
        {
            let l = &ls[k];
            let e = entry(
                l.lane.as_str(),
                "",
                l.count,
                l.p50_ms as i128,
                l.p95_ms as i128,
                l.max_ms as i128,
                0,
            );
            let ghost rows = crate::table::rows_of(v@);
            v.push(e);
            k += 1;
            assert(crate::table::rows_of(v@) =~= rows.push(all[k - 1]));
            assert(all.take(k as int) =~= all.take(k - 1).push(all[k - 1]));
            assert(crate::table::rows_of(v@) =~= before + all.take(k as int));
        }
        assert(all.take(all.len() as int) =~= all);
        r += 1;
    }
    v
}

fn phase_entries(runs: &Vec<Summary>) -> (v: Vec<Entry>)
    ensures
        crate::table::rows_of(v@) == phase_rows(runs@, runs@.len() as int),
        forall|k: int| 0 <= k < v@.len() ==> (#[trigger] v@[k])@.in_range(),
{
    let mut v: Vec<Entry> = Vec::new();
    let mut r: usize = 0;
    proof {
        reveal_strlit("");
        assert(""@ =~= Seq::empty());
    }
    assert(crate::table::rows_of(v@) =~= Seq::empty());
    while r < runs.len()
        invariant
            r <= runs@.len(),
            ""@ == Seq::<char>::empty(),
            crate::table::rows_of(v@) == phase_rows(runs@, r as int),
            forall|k: int| 0 <= k < v@.len() ==> (#[trigger] v@[k])@.in_range(),
        decreases runs@.len() - r,
    {
        let ps = &runs[r].phase_ms;
        let ghost before = crate::table::rows_of(v@);
        let ghost all = ps@.map_values(|p: PhaseStat| phase_row(p));
        let mut k: usize = 0;
        assert(before =~= before + all.take(0));
        while k < ps.len()
            invariant
                k <= ps@.len(),
                ""@ == Seq::<char>::empty(),
                all == ps@.map_values(|p: PhaseStat| phase_row(p)),
                crate::table::rows_of(v@) == before + all.take(k as int),
                forall|k: int| 0 <= k < v@.len() ==> (#[trigger] v@[k])@.in_range(),
            decreases ps@.len() - k,
        {
            let p = &ps[k];
            let e = entry(
                p.phase.as_str(),
                "",
                0,
                p.p50_ms as i128,
                p.p95_ms as i128,
                p.max_ms as i128,
                p.share as i128,
            );
            let ghost rows = crate::table::rows_of(v@);
            v.push(e);
            k += 1;
            assert(crate::table::rows_of(v@) =~= rows.push(all[k - 1]));
            assert(all.take(k as int) =~= all.take(k - 1).push(all[k - 1]));
            assert(crate::table::rows_of(v@) =~= before + all.take(k as int));
        }
        assert(all.take(all.len() as int) =~= all);
        r += 1;
    }
    v
}

fn job_entries(runs: &Vec<Summary>) -> (v: Vec<Entry>)
    ensures
        crate::table::rows_of(v@) == job_rows(runs@, runs@.len() as int),
        forall|k: int| 0 <= k < v@.len() ==> (#[trigger] v@[k])@.in_range(),
{
    let mut v: Vec<Entry> = Vec::new();
    let mut r: usize = 0;
    assert(crate::table::rows_of(v@) =~= Seq::empty());
    while r < runs.len()
        invariant
            r <= runs@.len(),
            crate::table::rows_of(v@) == job_rows(runs@, r as int),
            forall|k: int| 0 <= k < v@.len() ==> (#[trigger] v@[k])@.in_range(),
        decreases runs@.len() - r,
    {
        let js = &runs[r].jobs;
        let ghost before = crate::table::rows_of(v@);
        let ghost all = js@.map_values(|j: JobStat| job_row(j));
        let mut k: usize = 0;
        assert(before =~= before + all.take(0));
        while k < js.len()
            invariant
                k <= js@.len(),
                all == js@.map_values(|j: JobStat| job_row(j)),
                crate::table::rows_of(v@) == before + all.take(k as int),
                forall|k: int| 0 <= k < v@.len() ==> (#[trigger] v@[k])@.in_range(),
            decreases js@.len() - k,
        {
            let j = &js[k];
            let e = entry(
                j.tier.as_str(),
                j.outcome.as_str(),
                j.count,
                j.p50_ms as i128,
                j.p95_ms as i128,
                j.max_ms as i128,
                j.total_s as i128,
            );
            let ghost rows = crate::table::rows_of(v@);
            v.push(e);
            k += 1;
            assert(crate::table::rows_of(v@) =~= rows.push(all[k - 1]));
            assert(all.take(k as int) =~= all.take(k - 1).push(all[k - 1]));
            assert(crate::table::rows_of(v@) =~= before + all.take(k as int));
        }
        assert(all.take(all.len() as int) =~= all);
        r += 1;
    }
    v
}

/// Brings a text to a width by spaces before it.
pub fn align_right(s: String, width: usize) -> (r: String)
    requires
        width <= 100,
    ensures
        r@ == right_aligned(s@, width as int),
{
    let mut r = s;
    let ghost start = r@;
    let mut n: usize = chars_of(r.as_str()).len();
    while n < width
        invariant
            n == r@.len(),
            width <= 100,
            right_aligned(r@, width as int) == right_aligned(start, width as int),
        decreases width - n,
    {
        let mut t = String::new();
        push_char(&mut t, ' ');
        t.append(r.as_str());
        assert(t@ =~= seq![' '] + r@);
        r = t;
        n += 1;
    }
    r
}

fn over_entries(runs: &Vec<Summary>) -> (v: Vec<Entry>)
    ensures
        crate::table::rows_of(v@) == over_rows(runs@, runs@.len() as int),
        forall|k: int| 0 <= k < v@.len() ==> (#[trigger] v@[k])@.in_range(),
{
    let mut v: Vec<Entry> = Vec::new();
    let mut r: usize = 0;
    proof {
        reveal_strlit("");
        assert(""@ =~= Seq::empty());
    }
    assert(crate::table::rows_of(v@) =~= Seq::empty());
    while r < runs.len()
        invariant
            r <= runs@.len(),
            ""@ == Seq::<char>::empty(),
            crate::table::rows_of(v@) == over_rows(runs@, r as int),
            forall|k: int| 0 <= k < v@.len() ==> (#[trigger] v@[k])@.in_range(),
        decreases runs@.len() - r,
    {
        let ts = &runs[r].tick_over;
        let ghost before = crate::table::rows_of(v@);
        let ghost all = ts@.map_values(|t: TickOver| over_row(t));
        let mut k: usize = 0;
        assert(before =~= before + all.take(0));
        while k < ts.len()
            invariant
                k <= ts@.len(),
                ""@ == Seq::<char>::empty(),
                all == ts@.map_values(|t: TickOver| over_row(t)),
                crate::table::rows_of(v@) == before + all.take(k as int),
                forall|k: int| 0 <= k < v@.len() ==> (#[trigger] v@[k])@.in_range(),
            decreases ts@.len() - k,
        {
            let t = ts[k];
            let name = align_right(write_fixed(t.over_ms as i128, UNIT, 0, false), 6);
            let e = entry(name.as_str(), "", 0, (t.count as i128) * UNIT, 0, 0, 0);
            let ghost rows = crate::table::rows_of(v@);
            v.push(e);
            k += 1;
            assert(crate::table::rows_of(v@) =~= rows.push(all[k - 1]));
            assert(all.take(k as int) =~= all.take(k - 1).push(all[k - 1]));
            assert(crate::table::rows_of(v@) =~= before + all.take(k as int));
        }
        assert(all.take(all.len() as int) =~= all);
        r += 1;
    }
    v
}

/// The most runs that one report is made of.
pub const RUNS_LIMIT: usize = 1_000_000_000;

/// The most rows that one table is made of.
pub const ROWS_LIMIT: usize = 1_000_000_000;

/// A report can be made of the runs: there are not too many of them, nor of
/// their counts.
pub open spec fn runs_fit(runs: Seq<Summary>) -> bool {
    &&& runs.len() <= RUNS_LIMIT
    &&& over_rows(runs, runs.len() as int).len() <= ROWS_LIMIT
}

/// Whether a report can be made of the runs.
pub fn can_report(runs: &Vec<Summary>) -> (r: bool)
    ensures
        r == runs_fit(runs@),
{
    if runs.len() > RUNS_LIMIT {
        return false;
    }
    let over = over_entries(runs);
    assert(crate::table::rows_of(over@).len() == over@.len());
    over.len() <= ROWS_LIMIT
}

/// Which cells a line of a table has besides its first name and three medians.
#[derive(Clone, Copy, PartialEq, Eq, Structural, Debug)]
pub struct Shape {
    pub second: bool,
    pub count: bool,
    pub fourth: bool,
    pub share: bool,
}

/// A cell of a line.
pub open spec fn cell_text(s: Seq<char>) -> Seq<char> {
    " | "@ + s
}

/// The median of a measure over the rows of a name.
pub open spec fn median_cell(rows: Seq<crate::table::Row>, q: crate::table::Name, which: int) -> Seq<
    char,
> {
    cell_text(
        crate::measure::median_text(crate::table::column_of(rows, q, which, rows.len() as int)),
    )
}

/// The median of the fourth measure over the rows of a name, in percent.
pub open spec fn share_cell(rows: Seq<crate::table::Row>, q: crate::table::Name) -> Seq<char> {
    let m = crate::measure::median_spread(crate::table::column_of(rows, q, 3, rows.len() as int));
    cell_text(crate::measure::fixed(m.num * 100, m.den as int, 0, false)) + "%"@
}

/// The line of a name.
pub open spec fn line_text(
    rows: Seq<crate::table::Row>,
    q: crate::table::Name,
    shape: Shape,
) -> Seq<char> {
    let named = "| "@ + q.a + (if shape.second {
        cell_text(q.b)
    } else {
        Seq::empty()
    }) + (if shape.count {
        cell_text(
            crate::text::decimal_of(
                crate::table::last_count(rows, q, rows.len() as int) as nat,
            ),
        )
    } else {
        Seq::empty()
    });
    named + median_cell(rows, q, 0) + median_cell(rows, q, 1) + median_cell(rows, q, 2) + (
    if shape.fourth {
        median_cell(rows, q, 3)
    } else {
        Seq::empty()
    }) + (if shape.share {
        share_cell(rows, q)
    } else {
        Seq::empty()
    }) + " |\n"@
}

/// The lines of the first `n` names.
pub open spec fn lines_text(
    rows: Seq<crate::table::Row>,
    names: Seq<crate::table::Name>,
    shape: Shape,
    n: int,
) -> Seq<char>
    decreases n,
{
    if n <= 0 {
        Seq::empty()
    } else {
        lines_text(rows, names, shape, n - 1) + line_text(rows, names[n - 1], shape)
    }
}

/// The lines of all names of the rows, in the order of the names.
pub open spec fn body_text(rows: Seq<crate::table::Row>, shape: Shape) -> Seq<char> {
    let names = crate::table::names_of(rows, rows.len() as int);
    lines_text(rows, names, shape, names.len() as int)
}

fn write_cell(s: &str) -> (t: String)
    ensures
        t@ == cell_text(s@),
{
    let mut t = String::new();
    t.append(" | ");
    assert(t@ =~= " | "@);
    t.append(s);
    t
}

fn write_median_cell(v: &Vec<Entry>, e: &Entry, which: u8) -> (t: String)
    requires
        which < 4,
        forall|k: int| 0 <= k < v@.len() ==> (#[trigger] v@[k])@.in_range(),
    ensures
        t@ == median_cell(
            crate::table::rows_of(v@),
            e@.name(),
            which as int,
        ),
{
    let xs = column(v, e, which);
    write_cell(fmt3(&xs).as_str())
}

fn write_share_cell(v: &Vec<Entry>, e: &Entry) -> (t: String)
    requires
        forall|k: int| 0 <= k < v@.len() ==> (#[trigger] v@[k])@.in_range(),
    ensures
        t@ == share_cell(
            crate::table::rows_of(v@),
            e@.name(),
        ),
{
    let xs = column(v, e, 3);
    let m = stat3(&xs);
    let mut t = write_cell(write_fixed(m.num * 100, m.den, 0, false).as_str());
    t.append("%");
    t
}

fn write_line(v: &Vec<Entry>, e: &Entry, shape: Shape) -> (t: String)
    requires
        forall|k: int| 0 <= k < v@.len() ==> (#[trigger] v@[k])@.in_range(),
    ensures
        t@ == line_text(
            crate::table::rows_of(v@),
            e@.name(),
            shape,
        ),
{
    let ghost rows = crate::table::rows_of(v@);
    let ghost q = e@.name();
    let mut t = String::new();
    t.append("| ");
    assert(t@ =~= "| "@);
    t.append(string_of(&e.a).as_str());
    let second = if shape.second {
        write_cell(string_of(&e.b).as_str())
    } else {
        String::new()
    };
    t.append(second.as_str());
    let count = if shape.count {
        write_cell(decimal(count_of(v, e) as u64).as_str())
    } else {
        String::new()
    };
    t.append(count.as_str());
    t.append(write_median_cell(v, e, 0).as_str());
    t.append(write_median_cell(v, e, 1).as_str());
    t.append(write_median_cell(v, e, 2).as_str());
    let fourth = if shape.fourth {
        write_median_cell(v, e, 3)
    } else {
        String::new()
    };
    t.append(fourth.as_str());
    let share = if shape.share {
        write_share_cell(v, e)
    } else {
        String::new()
    };
    t.append(share.as_str());
    t.append(" |\n");
    t
}

fn write_body(v: &Vec<Entry>, shape: Shape) -> (t: String)
    requires
        forall|k: int| 0 <= k < v@.len() ==> (#[trigger] v@[k])@.in_range(),
    ensures
        t@ == body_text(crate::table::rows_of(v@), shape),
{
    let ghost rows = crate::table::rows_of(v@);
    let ghost names = crate::table::names_of(rows, rows.len() as int);
    let reps = name_rows(v);
    let mut t = String::new();
    let mut j: usize = 0;
    assert(t@ =~= Seq::empty());
    while j < reps.len()
        invariant
            j <= reps@.len(),
                forall|k: int| 0 <= k < v@.len() ==> (#[trigger] v@[k])@.in_range(),
            forall|k: int| 0 <= k < reps@.len() ==> (#[trigger] reps@[k]) < v@.len(),
            rows == crate::table::rows_of(v@),
            names == crate::table::named(rows, reps@),
            t@ == lines_text(rows, names, shape, j as int),
        decreases reps@.len() - j,
    {
        assert(names[j as int] == rows[reps@[j as int] as int].name());
        t.append(write_line(v, &v[reps[j]], shape).as_str());
        j += 1;
    }
    t
}

/// Where the line that begins at `from` ends.
pub open spec fn line_end(s: Seq<char>, from: int) -> int
    decreases s.len() - from,
{
    if from >= s.len() || s[from] == '\n' {
        from
    } else {
        line_end(s, from + 1)
    }
}

/// The line that begins at `from`, without what ends it: a line feed, and a
/// carriage return before one.
pub open spec fn line_at(s: Seq<char>, from: int) -> Seq<char> {
    let e = line_end(s, from);
    if e < s.len() && from < e && s[e - 1] == '\r' {
        s.subrange(from, e - 1)
    } else {
        s.subrange(from, e)
    }
}

/// A line ends where it begins or after that, and within the text.
pub proof fn line_ends_within(s: Seq<char>, from: int)
    requires
        0 <= from <= s.len(),
    ensures
        from <= line_end(s, from) <= s.len(),
    decreases s.len() - from,
{
    if from < s.len() && s[from] != '\n' {
        line_ends_within(s, from + 1);
    }
}

/// The lines from `from` on, each quoted.
pub open spec fn quoted(s: Seq<char>, from: int) -> Seq<char>
    decreases s.len() - from,
{
    if from < 0 || from >= s.len() {
        Seq::empty()
    } else {
        proof {
            line_ends_within(s, from);
        }
        let e = line_end(s, from);
        "> "@ + line_at(s, from) + "\n"@ + (if e < s.len() {
            quoted(s, e + 1)
        } else {
            Seq::empty()
        })
    }
}

fn write_quoted(s: &str) -> (t: String)
    ensures
        t@ == quoted(s@, 0),
{
    let v = chars_of(s);
    let mut t = String::new();
    let mut from: usize = 0;
    assert(t@ + quoted(s@, 0) =~= quoted(s@, 0));
    while from < v.len()
        invariant
            v@ == s@,
            t@ + quoted(s@, from as int) == quoted(s@, 0),
        decreases v@.len() - from,
    {
        let mut e: usize = from;
        while e < v.len() && v[e] != '\n'
            invariant
                v@ == s@,
                from <= e <= v@.len(),
                line_end(s@, e as int) == line_end(s@, from as int),
            decreases v@.len() - e,
        {
            e += 1;
        }
        let stop: usize = if e < v.len() && from < e && v[e - 1] == '\r' {
            e - 1
        } else {
            e
        };
        let ghost before = t@;
        t.append("> ");
        t.append(part_of(&v, from, stop).as_str());
        t.append("\n");
        proof {
            let line = line_at(s@, from as int);
            let rest = if e < s@.len() {
                quoted(s@, e + 1)
            } else {
                Seq::empty()
            };
            assert(v@.subrange(from as int, stop as int) == line);
            assert(before + "> "@ + line + "\n"@ + rest =~= before + ("> "@ + line + "\n"@ + rest));
        }
        if e >= v.len() {
            from = v.len();
        } else {
            from = e + 1;
        }
    }
    assert(t@ + quoted(s@, from as int) =~= t@);
    t
}

/// The first `n` texts, with a separator between them.
pub open spec fn joined(texts: Seq<String>, sep: Seq<char>, n: int) -> Seq<char>
    decreases n,
{
    if n <= 0 {
        Seq::empty()
    } else if n == 1 {
        texts[0]@
    } else {
        joined(texts, sep, n - 1) + sep + texts[n - 1]@
    }
}

/// Joins texts, with a separator between them.
pub fn join(texts: &Vec<String>, sep: &str) -> (t: String)
    ensures
        t@ == joined(texts@, sep@, texts@.len() as int),
{
    let mut t = String::new();
    let mut k: usize = 0;
    assert(t@ =~= Seq::empty());
    while k < texts.len()
        invariant
            k <= texts@.len(),
            t@ == joined(texts@, sep@, k as int),
        decreases texts@.len() - k,
    {
        if k > 0 {
            t.append(sep);
        }
        let ghost before = t@;
        t.append(texts[k].as_str());
        k += 1;
        proof {
            if k == 1 {
                assert(before =~= Seq::empty());
                assert(t@ =~= texts@[0]@);
            }
        }
    }
    t
}

/// How many counters and totals a report lists.
pub const COUNTERS: usize = 20;

/// The most memory that was seen.
pub open spec fn rss_peak(curve: Seq<ProcPoint>, n: int) -> int
    decreases n,
{
    if n <= 0 {
        0
    } else {
        let rest = rss_peak(curve, n - 1);
        if curve[n - 1].rss_mb > rest {
            curve[n - 1].rss_mb as int
        } else {
            rest
        }
    }
}

/// What counter `k` is called.
pub open spec fn counter_name(k: int) -> Seq<char> {
    if k == 0 {
        "wall_s"@
    } else if k == 1 {
        "frames"@
    } else if k == 2 {
        "late_frames"@
    } else if k == 3 {
        "reanchors"@
    } else if k == 4 {
        "evictions"@
    } else if k == 5 {
        "thumbs_cached"@
    } else if k == 6 {
        "drain_budget_hits"@
    } else if k == 7 {
        "tick_ms p50"@
    } else if k == 8 {
        "tick_ms p95"@
    } else if k == 9 {
        "tick_ms max"@
    } else if k == 10 {
        "jobs_started"@
    } else if k == 11 {
        "jobs_finished"@
    } else if k == 12 {
        "jobs_hit"@
    } else if k == 13 {
        "jobs_failed"@
    } else if k == 14 {
        "worker_utilisation"@
    } else if k == 15 {
        "pending_bytes_peak_mb"@
    } else if k == 16 {
        "ingest_seen"@
    } else if k == 17 {
        "ingest_rejected"@
    } else if k == 18 {
        "ingest_io_s"@
    } else {
        "rss_peak_mb"@
    }
}

/// Counter `k` of a run, counted in `counter_unit(k)`.
pub open spec fn counter(s: Summary, k: int) -> int {
    let c = s.counters;
    if k == 0 {
        s.wall_s as int
    } else if k == 1 {
        s.frames * UNIT
    } else if k == 2 {
        c.late_frames * UNIT
    } else if k == 3 {
        c.reanchors * UNIT
    } else if k == 4 {
        c.evictions * UNIT
    } else if k == 5 {
        c.thumbs_cached * UNIT
    } else if k == 6 {
        c.drain_budget_hits * UNIT
    } else if k == 7 {
        s.tick_ms.p50 as int
    } else if k == 8 {
        s.tick_ms.p95 as int
    } else if k == 9 {
        s.tick_ms.max as int
    } else if k == 10 {
        c.jobs_started * UNIT
    } else if k == 11 {
        c.jobs_finished * UNIT
    } else if k == 12 {
        c.jobs_hit * UNIT
    } else if k == 13 {
        c.jobs_failed * UNIT
    } else if k == 14 {
        s.worker_utilisation as int
    } else if k == 15 {
        c.pending_bytes_peak as int
    } else if k == 16 {
        c.ingest_seen * UNIT
    } else if k == 17 {
        c.ingest_rejected * UNIT
    } else if k == 18 {
        c.ingest_io_us as int
    } else {
        rss_peak(s.proc_curve@, s.proc_curve@.len() as int)
    }
}

/// What counter `k` is counted in: bytes are shown in mebibytes.
pub open spec fn counter_unit(k: int) -> int {
    if k == 15 {
        1_048_576
    } else {
        UNIT as int
    }
}

/// Counters that are mostly zero, with spikes that matter: these are brought
/// together by their mean, where a median would hide the spikes.
pub open spec fn is_burst(k: int) -> bool {
    k == 2 || k == 3 || k == 4 || k == 9 || k == 13 || k == 15 || k == 19
}

fn counter_label(k: usize) -> (t: &'static str)
    ensures
        t@ == counter_name(k as int),
{
    if k == 0 {
        "wall_s"
    } else if k == 1 {
        "frames"
    } else if k == 2 {
        "late_frames"
    } else if k == 3 {
        "reanchors"
    } else if k == 4 {
        "evictions"
    } else if k == 5 {
        "thumbs_cached"
    } else if k == 6 {
        "drain_budget_hits"
    } else if k == 7 {
        "tick_ms p50"
    } else if k == 8 {
        "tick_ms p95"
    } else if k == 9 {
        "tick_ms max"
    } else if k == 10 {
        "jobs_started"
    } else if k == 11 {
        "jobs_finished"
    } else if k == 12 {
        "jobs_hit"
    } else if k == 13 {
        "jobs_failed"
    } else if k == 14 {
        "worker_utilisation"
    } else if k == 15 {
        "pending_bytes_peak_mb"
    } else if k == 16 {
        "ingest_seen"
    } else if k == 17 {
        "ingest_rejected"
    } else if k == 18 {
        "ingest_io_s"
    } else {
        "rss_peak_mb"
    }
}

fn most_rss(curve: &Vec<ProcPoint>) -> (r: i64)
    ensures
        r == rss_peak(curve@, curve@.len() as int),
{
    let mut r: i64 = 0;
    let mut k: usize = 0;
    while k < curve.len()
        invariant
            k <= curve@.len(),
            r == rss_peak(curve@, k as int),
        decreases curve@.len() - k,
    {
        if curve[k].rss_mb > r {
            r = curve[k].rss_mb;
        }
        k += 1;
    }
    r
}

fn counted(n: u64) -> (r: i128)
    ensures
        r == n * UNIT,
        crate::measure::in_range(r),
{
    (n as i128) * UNIT
}

fn counter_of(s: &Summary, k: usize) -> (r: i128)
    ensures
        r == counter(*s, k as int),
        crate::measure::in_range(r),
{
    if k == 0 {
        s.wall_s as i128
    } else if k == 1 {
        counted(s.frames)
    } else if k == 2 {
        counted(s.counters.late_frames)
    } else if k == 3 {
        counted(s.counters.reanchors)
    } else if k == 4 {
        counted(s.counters.evictions)
    } else if k == 5 {
        counted(s.counters.thumbs_cached)
    } else if k == 6 {
        counted(s.counters.drain_budget_hits)
    } else if k == 7 {
        s.tick_ms.p50 as i128
    } else if k == 8 {
        s.tick_ms.p95 as i128
    } else if k == 9 {
        s.tick_ms.max as i128
    } else if k == 10 {
        counted(s.counters.jobs_started)
    } else if k == 11 {
        counted(s.counters.jobs_finished)
    } else if k == 12 {
        counted(s.counters.jobs_hit)
    } else if k == 13 {
        counted(s.counters.jobs_failed)
    } else if k == 14 {
        s.worker_utilisation as i128
    } else if k == 15 {
        s.counters.pending_bytes_peak as i128
    } else if k == 16 {
        counted(s.counters.ingest_seen)
    } else if k == 17 {
        counted(s.counters.ingest_rejected)
    } else if k == 18 {
        s.counters.ingest_io_us as i128
    } else {
        most_rss(&s.proc_curve) as i128
    }
}

/// Counter `k` of each run.
pub open spec fn counter_column(runs: Seq<Summary>, k: int) -> Seq<i128> {
    runs.map_values(|s: Summary| counter(s, k) as i128)
}

/// A spread whose values are counted in another unit.
pub open spec fn recounted(s: crate::measure::Spread, unit: int) -> crate::measure::Spread {
    crate::measure::Spread { den: (s.den / UNIT * unit) as i128, unit: unit as i128, ..s }
}

/// Counter `k` over the runs, by its mean or by its median.
pub open spec fn counter_spread(runs: Seq<Summary>, k: int) -> crate::measure::Spread {
    let xs = counter_column(runs, k);
    recounted(
        if is_burst(k) {
            crate::measure::mean_spread(xs)
        } else {
            crate::measure::median_spread(xs)
        },
        counter_unit(k),
    )
}

/// How a counter is brought together.
pub open spec fn counter_how(k: int) -> Seq<char> {
    if is_burst(k) {
        "mean"@
    } else {
        "median"@
    }
}

/// The line of a counter.
pub open spec fn counter_text(runs: Seq<Summary>, k: int) -> Seq<char> {
    "| "@ + counter_name(k) + cell_text(
        crate::measure::spread_text(counter_spread(runs, k), runs.len() as int, 2, ""@),
    ) + cell_text(counter_how(k)) + " |\n"@
}

/// The lines of the first `n` counters.
pub open spec fn counters_text(runs: Seq<Summary>, n: int) -> Seq<char>
    decreases n,
{
    if n <= 0 {
        Seq::empty()
    } else {
        counters_text(runs, n - 1) + counter_text(runs, n - 1)
    }
}

fn counter_measures(runs: &Vec<Summary>, k: usize) -> (xs: Vec<i128>)
    ensures
        xs@ == counter_column(runs@, k as int),
        crate::measure::all_in_range(xs@),
{
    let mut xs: Vec<i128> = Vec::new();
    let mut r: usize = 0;
    while r < runs.len()
        invariant
            r <= runs@.len(),
            xs@ =~= counter_column(runs@, k as int).take(r as int),
            crate::measure::all_in_range(xs@),
        decreases runs@.len() - r,
    {
        xs.push(counter_of(&runs[r], k));
        r += 1;
    }
    assert(counter_column(runs@, k as int).take(r as int) =~= counter_column(runs@, k as int));
    xs
}

fn burst(k: usize) -> (r: bool)
    ensures
        r == is_burst(k as int),
{
    k == 2 || k == 3 || k == 4 || k == 9 || k == 13 || k == 15 || k == 19
}

/// The spread of some runs can be written, and set against that of others.
pub open spec fn spread_is_small(s: crate::measure::Spread) -> bool {
    &&& crate::measure::spread_fits(s)
    &&& s.unit == UNIT || s.unit == 1_048_576
    &&& 0 < s.den / s.unit <= RUNS_LIMIT
    &&& s.den == s.den / s.unit * s.unit
}

fn spread_of(runs: &Vec<Summary>, k: usize) -> (s: crate::measure::Spread)
    requires
        runs@.len() <= RUNS_LIMIT,
    ensures
        s == counter_spread(runs@, k as int),
        spread_is_small(s),
{
    let xs = counter_measures(runs, k);
    let s = if burst(k) {
        mean3(&xs)
    } else {
        stat3(&xs)
    };
    let unit: i128 = if k == 15 {
        1_048_576
    } else {
        UNIT
    };
    proof {
        let n: int = if xs@.len() == 0 || !is_burst(k as int) {
            1
        } else {
            xs@.len() as int
        };
        assert(s.den == UNIT * n);
        assert((UNIT * n) / (UNIT as int) == n) by (nonlinear_arith)
            requires
                UNIT == 1_000_000,
        ;
    }
    crate::measure::Spread { den: s.den / UNIT * unit, unit, ..s }
}

fn how_of(k: usize) -> (t: &'static str)
    ensures
        t@ == counter_how(k as int),
{
    if burst(k) {
        "mean"
    } else {
        "median"
    }
}

fn write_counter(runs: &Vec<Summary>, k: usize) -> (t: String)
    requires
        runs@.len() <= RUNS_LIMIT,
    ensures
        t@ == counter_text(runs@, k as int),
{
    let s = spread_of(runs, k);
    let mut t = String::new();
    t.append("| ");
    assert(t@ =~= "| "@);
    t.append(counter_label(k));
    t.append(write_cell(write_spread(&s, runs.len(), 2, "").as_str()).as_str());
    t.append(write_cell(how_of(k)).as_str());
    t.append(" |\n");
    t
}

fn write_counters(runs: &Vec<Summary>) -> (t: String)
    requires
        runs@.len() <= RUNS_LIMIT,
    ensures
        t@ == counters_text(runs@, COUNTERS as int),
{
    let mut t = String::new();
    let mut k: usize = 0;
    assert(t@ =~= Seq::empty());
    while k < COUNTERS
        invariant
            k <= COUNTERS,
            runs@.len() <= RUNS_LIMIT,
            t@ == counters_text(runs@, k as int),
        decreases COUNTERS - k,
    {
        t.append(write_counter(runs, k).as_str());
        k += 1;
    }
    t
}

/// The line of a threshold: how often it was passed, on average.
pub open spec fn stall_text(rows: Seq<crate::table::Row>, q: crate::table::Name) -> Seq<char> {
    let m = crate::measure::mean_spread(crate::table::column_of(rows, q, 0, rows.len() as int));
    "| "@ + crate::text::trimmed(q.a) + cell_text(
        crate::measure::fixed(m.num as int, m.den as int, 1, false),
    ) + " |\n"@
}

/// The lines of the first `n` thresholds.
pub open spec fn stalls_text(
    rows: Seq<crate::table::Row>,
    names: Seq<crate::table::Name>,
    n: int,
) -> Seq<char>
    decreases n,
{
    if n <= 0 {
        Seq::empty()
    } else {
        stalls_text(rows, names, n - 1) + stall_text(rows, names[n - 1])
    }
}

fn write_stall(v: &Vec<Entry>, e: &Entry) -> (t: String)
    requires
        v@.len() <= ROWS_LIMIT,
        forall|k: int| 0 <= k < v@.len() ==> (#[trigger] v@[k])@.in_range(),
    ensures
        t@ == stall_text(crate::table::rows_of(v@), e@.name()),
{
    let xs = column(v, e, 0);
    let m = mean3(&xs);
    let (from, to) = trim_range(&e.a, 0, e.a.len());
    let mut t = String::new();
    t.append("| ");
    assert(t@ =~= "| "@);
    t.append(part_of(&e.a, from, to).as_str());
    t.append(write_cell(write_fixed(m.num, m.den, 1, false).as_str()).as_str());
    t.append(" |\n");
    t
}

fn write_stalls(v: &Vec<Entry>) -> (t: String)
    requires
        v@.len() <= ROWS_LIMIT,
        forall|k: int| 0 <= k < v@.len() ==> (#[trigger] v@[k])@.in_range(),
    ensures
        ({
            let rows = crate::table::rows_of(v@);
            let names = crate::table::names_of(rows, rows.len() as int);
            t@ == stalls_text(rows, names, names.len() as int)
        }),
{
    let ghost rows = crate::table::rows_of(v@);
    let ghost names = crate::table::names_of(rows, rows.len() as int);
    let reps = name_rows(v);
    let mut t = String::new();
    let mut j: usize = 0;
    assert(t@ =~= Seq::empty());
    while j < reps.len()
        invariant
            j <= reps@.len(),
            v@.len() <= ROWS_LIMIT,
            forall|k: int| 0 <= k < v@.len() ==> (#[trigger] v@[k])@.in_range(),
            forall|k: int| 0 <= k < reps@.len() ==> (#[trigger] reps@[k]) < v@.len(),
            rows == crate::table::rows_of(v@),
            names == crate::table::named(rows, reps@),
            t@ == stalls_text(rows, names, j as int),
        decreases reps@.len() - j,
    {
        assert(names[j as int] == rows[reps@[j as int] as int].name());
        t.append(write_stall(v, &v[reps[j]]).as_str());
        j += 1;
    }
    t
}

/// How many of the first `n` runs count.
pub open spec fn valid_runs(runs: Seq<Summary>, n: int) -> int
    decreases n,
{
    if n <= 0 {
        0
    } else {
        valid_runs(runs, n - 1) + (if runs[n - 1].valid {
            1int
        } else {
            0
        })
    }
}

fn count_valid(runs: &Vec<Summary>) -> (n: usize)
    ensures
        n == valid_runs(runs@, runs@.len() as int),
{
    let mut n: usize = 0;
    let mut k: usize = 0;
    while k < runs.len()
        invariant
            k <= runs@.len(),
            n <= k,
            n == valid_runs(runs@, k as int),
        decreases runs@.len() - k,
    {
        if runs[k].valid {
            n += 1;
        }
        k += 1;
    }
    n
}

/// What the scenario of the runs is called.
pub open spec fn scenario_name(runs: Seq<Summary>) -> Seq<char> {
    if runs.len() == 0 {
        "?"@
    } else {
        runs[0].scenario@
    }
}

/// What the runs are for.
pub open spec fn intent_of(runs: Seq<Summary>) -> Seq<char> {
    if runs.len() == 0 {
        ""@
    } else {
        runs[0].intent@
    }
}

fn name_of(runs: &Vec<Summary>) -> (t: &str)
    ensures
        t@ == scenario_name(runs@),
{
    if runs.len() == 0 {
        "?"
    } else {
        runs[0].scenario.as_str()
    }
}

fn purpose_of(runs: &Vec<Summary>) -> (t: &str)
    ensures
        t@ == intent_of(runs@),
{
    if runs.len() == 0 {
        ""
    } else {
        runs[0].intent.as_str()
    }
}

/// The settings that were overridden, where there are any.
pub open spec fn overrides_text(runs: Seq<Summary>) -> Seq<char> {
    if runs.len() == 0 || runs[0].tuning_sets@.len() == 0 {
        Seq::empty()
    } else {
        let sets = runs[0].tuning_sets@;
        "**Tuning overrides:** `"@ + joined(sets, "`, `"@, sets.len() as int) + "`\n\n"@
    }
}

/// How a report begins.
pub open spec fn head_text(
    runs: Seq<Summary>,
    reps: int,
    label: Seq<char>,
    env: Seq<char>,
) -> Seq<char> {
    let title = "# Benchmark report \u{2014} `"@ + scenario_name(runs) + "` ["@ + label + "]\n\n"@;
    let valid = "**"@ + crate::text::decimal_of(valid_runs(runs, runs.len() as int) as nat) + "/"@
        + crate::text::decimal_of(reps as nat)
        + " runs valid.** Median (min\u{2013}max) across runs; numbers are comparative \u{2014} Tier A has no vsync present, so \"served on time\" is a proxy for \"would have presented\". No verdicts here \u{2014} judge against the intent.\n\n"@;
    title + valid + overrides_text(runs) + "## Intent\n\n"@ + quoted(intent_of(runs), 0)
        + "\n## Environment\n\n"@ + env + "\n"@
}

fn write_overrides(runs: &Vec<Summary>) -> (t: String)
    ensures
        t@ == overrides_text(runs@),
{
    let mut t = String::new();
    assert(t@ =~= Seq::empty());
    if runs.len() > 0 && runs[0].tuning_sets.len() > 0 {
        t.append("**Tuning overrides:** `");
        assert(t@ =~= "**Tuning overrides:** `"@);
        t.append(join(&runs[0].tuning_sets, "`, `").as_str());
        t.append("`\n\n");
    }
    t
}

fn write_head(runs: &Vec<Summary>, reps: usize, label: &str, env: &str) -> (t: String)
    ensures
        t@ == head_text(runs@, reps as int, label@, env@),
{
    let mut t = String::new();
    t.append("# Benchmark report \u{2014} `");
    assert(t@ =~= "# Benchmark report \u{2014} `"@);
    t.append(name_of(runs));
    t.append("` [");
    t.append(label);
    t.append("]\n\n");
    let mut v = String::new();
    v.append("**");
    assert(v@ =~= "**"@);
    v.append(decimal(count_valid(runs) as u64).as_str());
    v.append("/");
    v.append(decimal(reps as u64).as_str());
    v.append(
        " runs valid.** Median (min\u{2013}max) across runs; numbers are comparative \u{2014} Tier A has no vsync present, so \"served on time\" is a proxy for \"would have presented\". No verdicts here \u{2014} judge against the intent.\n\n",
    );
    t.append(v.as_str());
    t.append(write_overrides(runs).as_str());
    t.append("## Intent\n\n");
    t.append(write_quoted(purpose_of(runs)).as_str());
    t.append("\n## Environment\n\n");
    t.append(env);
    t.append("\n");
    t
}

/// A section: its head and its lines.
pub open spec fn section(head: Seq<char>, lines: Seq<char>) -> Seq<char> {
    head + lines
}

fn write_section(head: &str, lines: String) -> (t: String)
    ensures
        t@ == section(head@, lines@),
{
    let mut t = String::new();
    t.append(head);
    assert(t@ =~= head@);
    t.append(lines.as_str());
    t
}

/// What frames took longer than they should.
pub open spec fn stall_section(runs: Seq<Summary>) -> Seq<char> {
    let rows = over_rows(runs, runs.len() as int);
    let names = crate::table::names_of(rows, rows.len() as int);
    section(
        "\n## Render-thread stalls (frames over threshold)\n\n| > ms | count (mean across runs) |\n|--:|--:|\n"@,
        stalls_text(rows, names, names.len() as int),
    )
}

/// How long the lanes took.
pub open spec fn latency_section(runs: Seq<Summary>) -> Seq<char> {
    section(
        "\n## Latency (per lane / class)\n\n| lane | metric | n (last run) | p50 ms | p95 ms | max ms |\n|---|---|--:|--:|--:|--:|\n"@,
        body_text(
            latency_rows(runs, runs.len() as int),
            (Shape { second: true, count: true, fourth: false, share: false }),
        ),
    )
}

/// The counters and totals.
pub open spec fn counter_section(runs: Seq<Summary>) -> Seq<char> {
    section(
        "\n## Counters & totals\n\n| metric | agg (min\u{2013}max) | agg |\n|---|--:|:--|\n"@,
        counters_text(runs, COUNTERS as int),
    )
}

/// What the parts of a frame cost.
pub open spec fn phase_section(runs: Seq<Summary>) -> Seq<char> {
    section(
        "\n## Render-thread phase attribution\n\n| phase | p50 ms | p95 ms | max ms | share |\n|---|--:|--:|--:|--:|\n"@,
        body_text(
            phase_rows(runs, runs.len() as int),
            (Shape { second: false, count: false, fourth: false, share: true }),
        ),
    )
}

/// What the jobs cost.
pub open spec fn job_section(runs: Seq<Summary>) -> Seq<char> {
    section(
        "\n## Worker jobs (per tier / outcome)\n\n| tier | outcome | n | p50 ms | p95 ms | max ms | worker-s |\n|---|---|--:|--:|--:|--:|--:|\n"@,
        body_text(
            job_rows(runs, runs.len() as int),
            (Shape { second: true, count: true, fourth: true, share: false }),
        ),
    )
}

/// How long the streams stood still; left out where no run has any.
pub open spec fn gap_section(runs: Seq<Summary>) -> Seq<char> {
    let rows = gap_rows(runs, runs.len() as int);
    if rows.len() == 0 {
        Seq::empty()
    } else {
        section(
            "\n## Served-frame gaps (video-thread stalls)\n\n| lane | n | p50 ms | p95 ms | max ms |\n|---|--:|--:|--:|--:|\n"@,
            body_text(rows, (Shape { second: false, count: true, fourth: false, share: false })),
        )
    }
}

/// The report on some runs of a scenario.
pub open spec fn report_text(
    runs: Seq<Summary>,
    reps: int,
    label: Seq<char>,
    env: Seq<char>,
) -> Seq<char> {
    head_text(runs, reps, label, env) + latency_section(runs) + counter_section(runs)
        + stall_section(runs) + phase_section(runs) + job_section(runs) + gap_section(runs)
        + "\nRaw per-run `summary.json` + `events.jsonl` are under `repN/` beside this report.\n"@
}

fn write_gaps(runs: &Vec<Summary>) -> (t: String)
    ensures
        t@ == gap_section(runs@),
{
    let v = gap_entries(runs);
    assert(crate::table::rows_of(v@).len() == v@.len());
    if v.len() == 0 {
        let t = String::new();
        assert(t@ =~= Seq::empty());
        t
    } else {
        write_section(
            "\n## Served-frame gaps (video-thread stalls)\n\n| lane | n | p50 ms | p95 ms | max ms |\n|---|--:|--:|--:|--:|\n",
            write_body(&v, Shape { second: false, count: true, fourth: false, share: false }),
        )
    }
}

/// The report on some runs of a scenario: the middle of each measure and its
/// spread, without a verdict; what the runs are for is quoted at the top.
pub fn markdown(summaries: &Vec<Summary>, reps: usize, label: &str, env: &str) -> (t: String)
    requires
        runs_fit(summaries@),
    ensures
        t@ == report_text(summaries@, reps as int, label@, env@),
{
    let mut t = write_head(summaries, reps, label, env);
    let lat = latency_entries(summaries);
    let over = over_entries(summaries);
    let phase = phase_entries(summaries);
    let job = job_entries(summaries);
    proof {
        assert(crate::table::rows_of(over@).len() == over@.len());
    }
    t.append(
        write_section(
            "\n## Latency (per lane / class)\n\n| lane | metric | n (last run) | p50 ms | p95 ms | max ms |\n|---|---|--:|--:|--:|--:|\n",
            write_body(&lat, Shape { second: true, count: true, fourth: false, share: false }),
        ).as_str(),
    );
    t.append(
        write_section(
            "\n## Counters & totals\n\n| metric | agg (min\u{2013}max) | agg |\n|---|--:|:--|\n",
            write_counters(summaries),
        ).as_str(),
    );
    t.append(
        write_section(
            "\n## Render-thread stalls (frames over threshold)\n\n| > ms | count (mean across runs) |\n|--:|--:|\n",
            write_stalls(&over),
        ).as_str(),
    );
    t.append(
        write_section(
            "\n## Render-thread phase attribution\n\n| phase | p50 ms | p95 ms | max ms | share |\n|---|--:|--:|--:|--:|\n",
            write_body(&phase, Shape { second: false, count: false, fourth: false, share: true }),
        ).as_str(),
    );
    t.append(
        write_section(
            "\n## Worker jobs (per tier / outcome)\n\n| tier | outcome | n | p50 ms | p95 ms | max ms | worker-s |\n|---|---|--:|--:|--:|--:|--:|\n",
            write_body(&job, Shape { second: true, count: true, fourth: true, share: false }),
        ).as_str(),
    );
    t.append(write_gaps(summaries).as_str());
    t.append(
        "\nRaw per-run `summary.json` + `events.jsonl` are under `repN/` beside this report.\n",
    );
    t
}

/// The settings that were overridden for one side of a comparison.
pub open spec fn side_tuning(runs: Seq<Summary>) -> Seq<char> {
    let sets = if runs.len() == 0 {
        Seq::empty()
    } else {
        joined(runs[0].tuning_sets@, "`, `"@, runs[0].tuning_sets@.len() as int)
    };
    if sets.len() == 0 {
        "(none)"@
    } else {
        "`"@ + sets + "`"@
    }
}

fn write_side_tuning(runs: &Vec<Summary>) -> (t: String)
    ensures
        t@ == side_tuning(runs@),
{
    let sets = if runs.len() == 0 {
        let e = String::new();
        assert(e@ =~= Seq::empty());
        e
    } else {
        join(&runs[0].tuning_sets, "`, `")
    };
    let mut t = String::new();
    if chars_of(sets.as_str()).len() == 0 {
        t.append("(none)");
        assert(t@ =~= "(none)"@);
    } else {
        t.append("`");
        assert(t@ =~= "`"@);
        t.append(sets.as_str());
        t.append("`");
    }
    t
}

/// How a comparison begins.
pub open spec fn compare_head(
    a: Seq<Summary>,
    b: Seq<Summary>,
    la: Seq<char>,
    lb: Seq<char>,
) -> Seq<char> {
    let title = "# Benchmark compare \u{2014} `"@ + scenario_name(a) + "`: "@ + la + " vs "@ + lb
        + "\n\n"@;
    let note = "Median across runs; **delta = "@ + lb + " \u{2212} "@ + la + "** (negative = "@ + lb
        + " lower). Comparative, no verdict \u{2014} judge against the intent. A and B should be run interleaved to dodge thermal drift.\n\n"@;
    let sets = "- "@ + la + " tuning: "@ + side_tuning(a) + "\n- "@ + lb + " tuning: "@
        + side_tuning(b) + "\n\n"@;
    title + note + sets + "## Intent\n\n"@ + quoted(intent_of(a), 0)
}

fn write_compare_head(a: &Vec<Summary>, b: &Vec<Summary>, la: &str, lb: &str) -> (t: String)
    ensures
        t@ == compare_head(a@, b@, la@, lb@),
{
    let mut t = String::new();
    t.append("# Benchmark compare \u{2014} `");
    assert(t@ =~= "# Benchmark compare \u{2014} `"@);
    t.append(name_of(a));
    t.append("`: ");
    t.append(la);
    t.append(" vs ");
    t.append(lb);
    t.append("\n\n");
    let mut note = String::new();
    note.append("Median across runs; **delta = ");
    assert(note@ =~= "Median across runs; **delta = "@);
    note.append(lb);
    note.append(" \u{2212} ");
    note.append(la);
    note.append("** (negative = ");
    note.append(lb);
    note.append(
        " lower). Comparative, no verdict \u{2014} judge against the intent. A and B should be run interleaved to dodge thermal drift.\n\n",
    );
    t.append(note.as_str());
    let mut sets = String::new();
    sets.append("- ");
    assert(sets@ =~= "- "@);
    sets.append(la);
    sets.append(" tuning: ");
    sets.append(write_side_tuning(a).as_str());
    sets.append("\n- ");
    sets.append(lb);
    sets.append(" tuning: ");
    sets.append(write_side_tuning(b).as_str());
    sets.append("\n\n");
    t.append(sets.as_str());
    t.append("## Intent\n\n");
    t.append(write_quoted(purpose_of(a)).as_str());
    t
}

/// The median latency of a name on one side, where that side has it.
pub open spec fn side_median(rows: Seq<crate::table::Row>, q: crate::table::Name) -> Option<int> {
    let xs = crate::table::column_of(rows, q, 0, rows.len() as int);
    if xs.len() == 0 {
        None
    } else {
        Some(crate::measure::percentile(xs, 50) as int)
    }
}

/// A latency, or a dash where there is none.
pub open spec fn latency_text(x: Option<int>) -> Seq<char> {
    match x {
        Some(v) => crate::measure::fixed(v, UNIT as int, 0, false),
        None => "\u{2014}"@,
    }
}

/// By how much the second latency is more than the first.
pub open spec fn latency_delta(x: Option<int>, y: Option<int>) -> Seq<char> {
    match (x, y) {
        (Some(v), Some(w)) => crate::measure::fixed(w - v, UNIT as int, 0, true),
        _ => "\u{2014}"@,
    }
}

/// The line of a latency in a comparison.
pub open spec fn delta_line(
    ra: Seq<crate::table::Row>,
    rb: Seq<crate::table::Row>,
    q: crate::table::Name,
) -> Seq<char> {
    let x = side_median(ra, q);
    let y = side_median(rb, q);
    "| "@ + q.a + " / "@ + q.b + cell_text(latency_text(x)) + cell_text(latency_text(y))
        + cell_text(latency_delta(x, y)) + " |\n"@
}

/// The lines of the first `n` names in a comparison.
pub open spec fn delta_lines(
    ra: Seq<crate::table::Row>,
    rb: Seq<crate::table::Row>,
    names: Seq<crate::table::Name>,
    n: int,
) -> Seq<char>
    decreases n,
{
    if n <= 0 {
        Seq::empty()
    } else {
        delta_lines(ra, rb, names, n - 1) + delta_line(ra, rb, names[n - 1])
    }
}

fn median_of_side(v: &Vec<Entry>, e: &Entry) -> (r: Option<i128>)
    requires
        forall|k: int| 0 <= k < v@.len() ==> (#[trigger] v@[k])@.in_range(),
    ensures
        r.is_some() == side_median(crate::table::rows_of(v@), e@.name()).is_some(),
        r matches Some(x) ==> {
            &&& side_median(crate::table::rows_of(v@), e@.name()) == Some(x as int)
            &&& crate::measure::in_range(x)
        },
{
    let xs = column(v, e, 0);
    if xs.len() == 0 {
        None
    } else {
        Some(stat3(&xs).num)
    }
}

fn write_latency(x: &Option<i128>) -> (t: String)
    requires
        x matches Some(v) ==> crate::measure::in_range(*v),
    ensures
        t@ == latency_text(
            match *x {
                Some(v) => Some(v as int),
                None => None,
            },
        ),
{
    match x {
        Some(v) => write_fixed(*v, UNIT, 0, false),
        None => {
            let mut t = String::new();
            t.append("\u{2014}");
            assert(t@ =~= "\u{2014}"@);
            t
        },
    }
}

fn write_latency_delta(x: &Option<i128>, y: &Option<i128>) -> (t: String)
    requires
        x matches Some(v) ==> crate::measure::in_range(*v),
        y matches Some(v) ==> crate::measure::in_range(*v),
    ensures
        t@ == latency_delta(
            match *x {
                Some(v) => Some(v as int),
                None => None,
            },
            match *y {
                Some(v) => Some(v as int),
                None => None,
            },
        ),
{
    if let Some(v) = x {
        if let Some(w) = y {
            return write_fixed(*w - *v, UNIT, 0, true);
        }
    }
    let mut t = String::new();
    t.append("\u{2014}");
    assert(t@ =~= "\u{2014}"@);
    t
}

fn write_delta_line(va: &Vec<Entry>, vb: &Vec<Entry>, e: &Entry) -> (t: String)
    requires
        forall|k: int| 0 <= k < va@.len() ==> (#[trigger] va@[k])@.in_range(),
        forall|k: int| 0 <= k < vb@.len() ==> (#[trigger] vb@[k])@.in_range(),
    ensures
        t@ == delta_line(crate::table::rows_of(va@), crate::table::rows_of(vb@), e@.name()),
{
    let x = median_of_side(va, e);
    let y = median_of_side(vb, e);
    let mut t = String::new();
    t.append("| ");
    assert(t@ =~= "| "@);
    t.append(string_of(&e.a).as_str());
    t.append(" / ");
    t.append(string_of(&e.b).as_str());
    t.append(write_cell(write_latency(&x).as_str()).as_str());
    t.append(write_cell(write_latency(&y).as_str()).as_str());
    t.append(write_cell(write_latency_delta(&x, &y).as_str()).as_str());
    t.append(" |\n");
    t
}

/// The latencies of two sides, under all their names.
pub open spec fn delta_body(a: Seq<Summary>, b: Seq<Summary>) -> Seq<char> {
    let ra = latency_rows(a, a.len() as int);
    let rb = latency_rows(b, b.len() as int);
    let all = ra + rb;
    let names = crate::table::names_of(all, all.len() as int);
    delta_lines(ra, rb, names, names.len() as int)
}

fn append_entries(v: &mut Vec<Entry>, more: Vec<Entry>)
    ensures
        crate::table::rows_of(final(v)@) == crate::table::rows_of(old(v)@)
            + crate::table::rows_of(more@),
{
    let ghost before = v@;
    let ghost rest = more@;
    let mut more = more;
    v.append(&mut more);
    assert(crate::table::rows_of(v@) =~= crate::table::rows_of(before) + crate::table::rows_of(
        rest,
    ));
}

fn write_deltas(a: &Vec<Summary>, b: &Vec<Summary>) -> (t: String)
    ensures
        t@ == delta_body(a@, b@),
{
    let va = latency_entries(a);
    let vb = latency_entries(b);
    let mut all = latency_entries(a);
    append_entries(&mut all, latency_entries(b));
    let ghost ra = latency_rows(a@, a@.len() as int);
    let ghost rb = latency_rows(b@, b@.len() as int);
    let ghost rows = ra + rb;
    let ghost names = crate::table::names_of(rows, rows.len() as int);
    assert(crate::table::rows_of(all@).len() == all@.len());
    let reps = name_rows(&all);
    let mut t = String::new();
    let mut j: usize = 0;
    assert(t@ =~= Seq::empty());
    while j < reps.len()
        invariant
            j <= reps@.len(),
            forall|k: int| 0 <= k < va@.len() ==> (#[trigger] va@[k])@.in_range(),
            forall|k: int| 0 <= k < vb@.len() ==> (#[trigger] vb@[k])@.in_range(),
            forall|k: int| 0 <= k < reps@.len() ==> (#[trigger] reps@[k]) < all@.len(),
            rows == crate::table::rows_of(all@),
            ra == crate::table::rows_of(va@),
            rb == crate::table::rows_of(vb@),
            names == crate::table::named(rows, reps@),
            t@ == delta_lines(ra, rb, names, j as int),
        decreases reps@.len() - j,
    {
        assert(names[j as int] == rows[reps@[j as int] as int].name());
        t.append(write_delta_line(&va, &vb, &all[reps[j]]).as_str());
        j += 1;
    }
    t
}

/// How many counters a comparison lists.
pub const COMPARED: usize = 6;

/// Which counter the comparison lists at place `j`.
pub open spec fn compared(j: int) -> int {
    if j == 0 {
        0
    } else if j <= 4 {
        j + 1
    } else {
        8
    }
}

/// How many runs a spread's middle was made of, where it is a mean.
pub open spec fn parts_of(s: crate::measure::Spread) -> int {
    s.den / s.unit
}

/// By how much the second middle is more than the first.
pub open spec fn spread_delta(a: crate::measure::Spread, b: crate::measure::Spread) -> Seq<char> {
    crate::measure::fixed(
        b.num * parts_of(a) - a.num * parts_of(b),
        UNIT * (parts_of(a) * parts_of(b)),
        2,
        true,
    )
}

/// The line of a counter in a comparison.
pub open spec fn counter_delta(a: Seq<Summary>, b: Seq<Summary>, k: int) -> Seq<char> {
    let x = counter_spread(a, k);
    let y = counter_spread(b, k);
    "| "@ + counter_name(k) + cell_text(
        crate::measure::fixed(x.num as int, x.den as int, 2, false),
    ) + cell_text(crate::measure::fixed(y.num as int, y.den as int, 2, false)) + cell_text(
        spread_delta(x, y),
    ) + cell_text(counter_how(k)) + " |\n"@
}

/// The lines of the first `n` counters in a comparison.
pub open spec fn counter_deltas(a: Seq<Summary>, b: Seq<Summary>, n: int) -> Seq<char>
    decreases n,
{
    if n <= 0 {
        Seq::empty()
    } else {
        counter_deltas(a, b, n - 1) + counter_delta(a, b, compared(n - 1))
    }
}

fn write_spread_delta(a: &crate::measure::Spread, b: &crate::measure::Spread) -> (t: String)
    requires
        spread_is_small(*a),
        spread_is_small(*b),
        a.unit == UNIT,
        b.unit == UNIT,
    ensures
        t@ == spread_delta(*a, *b),
{
    write_delta(a.num, a.den / a.unit, b.num, b.den / b.unit)
}

fn write_counter_delta(a: &Vec<Summary>, b: &Vec<Summary>, k: usize) -> (t: String)
    requires
        a@.len() <= RUNS_LIMIT,
        b@.len() <= RUNS_LIMIT,
        k != 15,
    ensures
        t@ == counter_delta(a@, b@, k as int),
{
    let x = spread_of(a, k);
    let y = spread_of(b, k);
    let mut t = String::new();
    t.append("| ");
    assert(t@ =~= "| "@);
    t.append(counter_label(k));
    t.append(write_cell(write_fixed(x.num, x.den, 2, false).as_str()).as_str());
    t.append(write_cell(write_fixed(y.num, y.den, 2, false).as_str()).as_str());
    t.append(write_cell(write_spread_delta(&x, &y).as_str()).as_str());
    t.append(write_cell(how_of(k)).as_str());
    t.append(" |\n");
    t
}

fn write_counter_deltas(a: &Vec<Summary>, b: &Vec<Summary>) -> (t: String)
    requires
        a@.len() <= RUNS_LIMIT,
        b@.len() <= RUNS_LIMIT,
    ensures
        t@ == counter_deltas(a@, b@, COMPARED as int),
{
    let mut t = String::new();
    let mut j: usize = 0;
    assert(t@ =~= Seq::empty());
    while j < COMPARED
        invariant
            j <= COMPARED,
            a@.len() <= RUNS_LIMIT,
            b@.len() <= RUNS_LIMIT,
            t@ == counter_deltas(a@, b@, j as int),
        decreases COMPARED - j,
    {
        let k: usize = if j == 0 {
            0
        } else if j <= 4 {
            j + 1
        } else {
            8
        };
        t.append(write_counter_delta(a, b, k).as_str());
        j += 1;
    }
    t
}

/// The comparison of two sets of runs.
pub open spec fn comparison_text(
    a: Seq<Summary>,
    b: Seq<Summary>,
    la: Seq<char>,
    lb: Seq<char>,
) -> Seq<char> {
    compare_head(a, b, la, lb) + "\n## Latency p50 (ms)\n\n"@ + "| lane / metric | "@ + la + " | "@
        + lb + " | \u{394} |\n|---|--:|--:|--:|\n"@ + delta_body(a, b)
        + "\n## Counters & totals\n\n"@ + "| metric | "@ + la + " | "@ + lb
        + " | \u{394} | agg |\n|---|--:|--:|--:|:--|\n"@ + counter_deltas(a, b, COMPARED as int)
}

/// Two sets of runs side by side: the middle of each measure, and by how much the
/// second is more than the first, without a verdict.
pub fn compare_markdown(a: &Vec<Summary>, b: &Vec<Summary>, la: &str, lb: &str) -> (t: String)
    requires
        a@.len() <= RUNS_LIMIT,
        b@.len() <= RUNS_LIMIT,
    ensures
        t@ == comparison_text(a@, b@, la@, lb@),
{
    let mut t = write_compare_head(a, b, la, lb);
    t.append("\n## Latency p50 (ms)\n\n");
    t.append("| lane / metric | ");
    t.append(la);
    t.append(" | ");
    t.append(lb);
    t.append(" | \u{394} |\n|---|--:|--:|--:|\n");
    t.append(write_deltas(a, b).as_str());
    t.append("\n## Counters & totals\n\n");
    t.append("| metric | ");
    t.append(la);
    t.append(" | ");
    t.append(lb);
    t.append(" | \u{394} | agg |\n|---|--:|--:|--:|:--|\n");
    t.append(write_counter_deltas(a, b).as_str());
    t
}

} // verus!
