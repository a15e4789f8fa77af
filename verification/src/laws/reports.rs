//! What reports say of runs: rows, counters and how they are brought together.

use vstd::prelude::*;

use crate::events::{job_sample, job_sums_up, sample_rows, weight, LaneModel, RelEvent};
use crate::measure::{percentile, UNIT};
use crate::report::{
    counter, counter_column, counter_name, counter_spread, counter_unit, is_burst, job_row, lat_row,
    over_row, phase_row, quoted, side_median, JobStat, LatencyStat, PhaseStat, Summary, TickOver,
};
use crate::table::{Name, Row};

verus! {

/// A row holds the measures of what it stands for, each in its column.
pub proof fn rows_hold_their_measures(l: LatencyStat, p: PhaseStat, j: JobStat, t: TickOver)
    ensures
        ({
            let r = lat_row(l);
            &&& r.a == l.lane@ && r.b == l.metric@ && r.n == l.count
            &&& r.measure(0) == l.p50_ms && r.measure(1) == l.p95_ms && r.measure(2) == l.max_ms
        }),
        ({
            let r = phase_row(p);
            &&& r.a == p.phase@ && r.b.len() == 0
            &&& r.measure(0) == p.p50_ms && r.measure(1) == p.p95_ms && r.measure(2) == p.max_ms
                && r.measure(3) == p.share
        }),
        ({
            let r = job_row(j);
            &&& r.a == j.tier@ && r.b == j.outcome@ && r.n == j.count
            &&& r.measure(0) == j.p50_ms && r.measure(1) == j.p95_ms && r.measure(2) == j.max_ms
                && r.measure(3) == j.total_s
        }),
        over_row(t).measure(0) == t.count * UNIT,
{
}

/// A counter is what its name says.
pub proof fn counters_are_what_their_names_say(s: Summary)
    ensures
        counter_name(0) == "wall_s"@ && counter(s, 0) == s.wall_s,
        counter_name(1) == "frames"@ && counter(s, 1) == s.frames * UNIT,
        counter_name(2) == "late_frames"@ && counter(s, 2) == s.counters.late_frames * UNIT,
        counter_name(3) == "reanchors"@ && counter(s, 3) == s.counters.reanchors * UNIT,
        counter_name(4) == "evictions"@ && counter(s, 4) == s.counters.evictions * UNIT,
        counter_name(5) == "thumbs_cached"@ && counter(s, 5) == s.counters.thumbs_cached * UNIT,
        counter_name(6) == "drain_budget_hits"@ && counter(s, 6) == s.counters.drain_budget_hits
            * UNIT,
        counter_name(7) == "tick_ms p50"@ && counter(s, 7) == s.tick_ms.p50,
        counter_name(8) == "tick_ms p95"@ && counter(s, 8) == s.tick_ms.p95,
        counter_name(9) == "tick_ms max"@ && counter(s, 9) == s.tick_ms.max,
        counter_name(10) == "jobs_started"@ && counter(s, 10) == s.counters.jobs_started * UNIT,
        counter_name(11) == "jobs_finished"@ && counter(s, 11) == s.counters.jobs_finished * UNIT,
        counter_name(12) == "jobs_hit"@ && counter(s, 12) == s.counters.jobs_hit * UNIT,
        counter_name(13) == "jobs_failed"@ && counter(s, 13) == s.counters.jobs_failed * UNIT,
        counter_name(14) == "worker_utilisation"@ && counter(s, 14) == s.worker_utilisation,
        counter_name(15) == "pending_bytes_peak_mb"@ && counter(s, 15)
            == s.counters.pending_bytes_peak && counter_unit(15) == 1024 * 1024,
        counter_name(16) == "ingest_seen"@ && counter(s, 16) == s.counters.ingest_seen * UNIT,
        counter_name(17) == "ingest_rejected"@ && counter(s, 17) == s.counters.ingest_rejected
            * UNIT,
        counter_name(18) == "ingest_io_s"@ && counter(s, 18) == s.counters.ingest_io_us,
        counter_name(19) == "rss_peak_mb"@,
{
}

/// What comes in bursts is averaged over the runs; of all else the middle run counts.
pub proof fn bursts_are_averaged(runs: Seq<Summary>, k: int)
    requires
        0 < runs.len(),
        counter_unit(k) == UNIT,
    ensures
        ({
            let xs = counter_column(runs, k);
            let v = counter_spread(runs, k);
            &&& !is_burst(k) ==> v.num == percentile(xs, 50)
            &&& is_burst(k) ==> v.num == crate::measure::mean_spread(xs).num
            &&& v.lo == percentile(xs, 0)
            &&& v.hi == percentile(xs, 100)
            &&& xs.len() == runs.len()
        }),
        is_burst(2) && is_burst(4) && is_burst(9) && is_burst(13) && is_burst(19),
        !is_burst(0) && !is_burst(1) && !is_burst(7) && !is_burst(8) && !is_burst(14),
{
}

/// The latencies of a stream last from its start to its first picture, from there to the
/// first shown, and from being taken over to being shown.
pub proof fn latencies_last_from_start_to_end(
    lanes: Seq<LaneModel>,
    n: int,
    spawn: i64,
    ready: i64,
    served: i64,
    promo: i64,
)
    requires
        0 < n <= lanes.len(),
        lanes[n - 1].spawn == Some(spawn),
        lanes[n - 1].ready == Some(ready),
        lanes[n - 1].served == Some(served),
        lanes[n - 1].promo == Some(promo),
    ensures
        ({
            let before = sample_rows(lanes, n - 1).len() as int;
            let v = sample_rows(lanes, n);
            let lane = lanes[n - 1].lane;
            &&& v.len() == before + 3
            &&& v[before].v0 == ready - spawn && v[before].b == "spawn_to_ready"@
            &&& v[before + 1].v0 == served - spawn && v[before + 1].b == "spawn_to_served"@
            &&& v[before + 2].v0 == served - promo && v[before + 2].b == "promotion_to_served"@
            &&& v[before].a == lane && v[before + 1].a == lane && v[before + 2].a == lane
        }),
{
}

/// A job counts when it ended, under its tier and its outcome.
pub proof fn a_job_counts_when_it_ended(e: RelEvent)
    ensures
        e.kind@ != "job_end"@ || e.tier is None || e.ms is None ==> job_sample(e).len() == 0,
        e.kind@ == "job_end"@ && e.tier is Some && e.ms is Some ==> {
            let v = job_sample(e);
            v.len() == 1 && v[0].v0 == e.ms->0 && v[0].a == e.tier->0@ && (e.outcome is Some ==> v[0].b
                == e.outcome->0@)
        },
{
}

/// The time of jobs is summed in seconds, and they are counted.
pub proof fn the_time_of_jobs_is_summed(s: JobStat, rows: Seq<Row>, q: Name)
    requires
        job_sums_up(s, rows, q),
        0 <= weight(rows, q) <= i64::MAX,
    ensures
        s.total_s * 1000 <= weight(rows, q) < (s.total_s + 1) * 1000,
        s.tier@ == q.a,
        s.outcome@ == q.b,
        s.count == crate::table::column_of(rows, q, 0, rows.len() as int).len(),
{
}

/// A side has a median where it has a measure, and none where it has not.
pub proof fn a_side_has_a_median_where_it_has_a_measure(rows: Seq<Row>, q: Name)
    ensures
        ({
            let xs = crate::table::column_of(rows, q, 0, rows.len() as int);
            &&& xs.len() == 0 ==> side_median(rows, q) is None
            &&& xs.len() > 0 ==> side_median(rows, q) == Some(percentile(xs, 50) as int)
                && xs.contains(side_median(rows, q)->0 as i128)
        }),
{
    let xs = crate::table::column_of(rows, q, 0, rows.len() as int);
    if xs.len() > 0 {
        crate::measure::percentiles_are_measures(xs, 50, 0);
    }
}

/// A quotation sets every line apart, and an empty text has none.
pub proof fn a_quotation_sets_lines_apart(line: Seq<char>)
    requires
        line.len() > 0,
        forall|k: int| 0 <= k < line.len() ==> #[trigger] line[k] != '\n',
    ensures
        quoted(line, 0) == "> "@ + line + "\n"@,
        quoted(Seq::empty(), 0).len() == 0,
{
    super::benches::a_line_ends_before_its_end(line, 0);
    let e = crate::report::line_end(line, 0);
    if e < line.len() {
        assert(line[e] == '\n');
    }
    assert(crate::report::line_at(line, 0) =~= line);
    assert("> "@ + line + "\n"@ + Seq::<char>::empty() =~= "> "@ + line + "\n"@);
}

} // verus!
