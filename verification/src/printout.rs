//! What the benchmark runner prints: the summary of a run, and the machine it ran
//! on.

use vstd::prelude::*;

use crate::measure::{write_fixed, UNIT};
use crate::report::{CondResult, Counters, LatencyStat, Summary};
use crate::text::{chars_of, decimal, part_of, push_char};

verus! {

/// A text brought to a width by spaces behind it.
pub open spec fn left_aligned(s: Seq<char>, width: int) -> Seq<char>
    decreases width - s.len(),
{
    if s.len() >= width {
        s
    } else {
        left_aligned(s.push(' '), width)
    }
}

/// Brings a text to a width by spaces behind it.
pub fn align_left(s: String, width: usize) -> (r: String)
    requires
        width <= 100,
    ensures
        r@ == left_aligned(s@, width as int),
{
    let ghost start = s@;
    let mut r = s;
    let mut n: usize = chars_of(r.as_str()).len();
    while n < width
        invariant
            n == r@.len(),
            width <= 100,
            left_aligned(r@, width as int) == left_aligned(start, width as int),
        decreases width - n,
    {
        push_char(&mut r, ' ');
        n += 1;
    }
    r
}

/// A count of millionths of a second, in milliseconds.
pub open spec fn ms_text(us: u64) -> Seq<char> {
    crate::measure::fixed(us as int, 1000, 1, false) + "ms"@
}

/// The mean of `us` millionths of a second over `count`, in milliseconds.
pub open spec fn mean_ms(us: u64, count: u64, d: nat) -> Seq<char> {
    if count > 0 {
        crate::measure::fixed(us as int, count * 1000, d, false)
    } else {
        crate::measure::fixed(0, 1000, d, false)
    }
}

fn write_ms(us: u64) -> (t: String)
    ensures
        t@ == ms_text(us),
{
    let mut t = write_fixed(us as i128, 1000, 1, false);
    t.append("ms");
    t
}

fn write_mean_ms(us: u64, count: u64, d: u8) -> (t: String)
    requires
        d <= 2,
    ensures
        t@ == mean_ms(us, count, d as nat),
{
    if count > 0 {
        write_fixed(us as i128, (count as i128) * 1000, d, false)
    } else {
        write_fixed(0, 1000, d, false)
    }
}

/// A truth value as text.
pub open spec fn bool_text(b: bool) -> Seq<char> {
    if b {
        "true"@
    } else {
        "false"@
    }
}

/// A count as text.
pub open spec fn num(n: u64) -> Seq<char> {
    crate::text::decimal_of(n as nat)
}

/// The first lines: what ran, and how long it took.
pub open spec fn title_lines(s: Summary) -> Seq<char> {
    let dropped = if s.events_dropped > 0 {
        " (+"@ + num(s.events_dropped) + " dropped)"@
    } else {
        Seq::empty()
    };
    "=== "@ + s.scenario@ + " ===\nvalid="@ + bool_text(s.valid) + " wall="@ + crate::measure::fixed(
        s.wall_s as int,
        UNIT as int,
        2,
        false,
    ) + "s frames="@ + num(s.frames) + " events="@ + crate::text::decimal_of(s.events as nat)
        + dropped + "\n"@
}

fn write_title(s: &Summary) -> (t: String)
    ensures
        t@ == title_lines(*s),
{
    let mut t = "=== ".to_owned();
    t.append(s.scenario.as_str());
    t.append(" ===\nvalid=");
    if s.valid {
        t.append("true");
    } else {
        t.append("false");
    }
    t.append(" wall=");
    t.append(write_fixed(s.wall_s as i128, UNIT, 2, false).as_str());
    t.append("s frames=");
    t.append(decimal(s.frames).as_str());
    t.append(" events=");
    t.append(decimal(s.events as u64).as_str());
    let mut dropped = String::new();
    if s.events_dropped > 0 {
        dropped = " (+".to_owned();
        dropped.append(decimal(s.events_dropped).as_str());
        dropped.append(" dropped)");
    } else {
        assert(dropped@ =~= Seq::empty());
    }
    t.append(dropped.as_str());
    t.append("\n");
    t
}

/// The line of the counters.
pub open spec fn counters_line(c: Counters) -> Seq<char> {
    "counters: late="@ + num(c.late_frames) + " reanchors="@ + num(c.reanchors) + " evictions="@
        + num(c.evictions) + " thumbs_cached="@ + num(c.thumbs_cached) + " drain_budget_hits="@
        + num(c.drain_budget_hits) + "\n"@
}

fn write_counters_line(c: &Counters) -> (t: String)
    ensures
        t@ == counters_line(*c),
{
    let mut t = "counters: late=".to_owned();
    t.append(decimal(c.late_frames).as_str());
    t.append(" reanchors=");
    t.append(decimal(c.reanchors).as_str());
    t.append(" evictions=");
    t.append(decimal(c.evictions).as_str());
    t.append(" thumbs_cached=");
    t.append(decimal(c.thumbs_cached).as_str());
    t.append(" drain_budget_hits=");
    t.append(decimal(c.drain_budget_hits).as_str());
    t.append("\n");
    t
}

/// The line on what frames cost.
pub open spec fn tick_line(s: Summary) -> Seq<char> {
    "tick_ms: p50="@ + crate::measure::fixed(s.tick_ms.p50 as int, UNIT as int, 2, false) + " p95="@
        + crate::measure::fixed(s.tick_ms.p95 as int, UNIT as int, 2, false) + " max="@
        + crate::measure::fixed(s.tick_ms.max as int, UNIT as int, 2, false) + "\n"@
}

fn write_tick_line(s: &Summary) -> (t: String)
    ensures
        t@ == tick_line(*s),
{
    let mut t = "tick_ms: p50=".to_owned();
    t.append(write_fixed(s.tick_ms.p50 as i128, UNIT, 2, false).as_str());
    t.append(" p95=");
    t.append(write_fixed(s.tick_ms.p95 as i128, UNIT, 2, false).as_str());
    t.append(" max=");
    t.append(write_fixed(s.tick_ms.max as i128, UNIT, 2, false).as_str());
    t.append("\n");
    t
}

/// The line on the jobs and what they held up.
pub open spec fn sched_line(s: Summary) -> Seq<char> {
    let c = s.counters;
    "sched: jobs "@ + num(c.jobs_finished) + "/"@ + num(c.jobs_started) + " started (hit "@ + num(
        c.jobs_hit,
    ) + ", failed "@ + num(c.jobs_failed) + ") busy="@ + crate::measure::fixed(
        c.worker_busy_us as int,
        1_000_000,
        1,
        false,
    ) + "s util="@ + crate::measure::fixed(s.worker_utilisation as int, UNIT as int, 2, false)
        + " | backlog peak "@ + crate::measure::fixed(
        c.pending_bytes_peak as int,
        1_048_576,
        1,
        false,
    ) + " MB | render_stalls="@ + num(c.render_stalls) + " total="@ + ms_text(c.render_stall_us)
        + " max="@ + ms_text(c.render_stall_max_us) + "\n"@
}

fn write_sched_line(s: &Summary) -> (t: String)
    ensures
        t@ == sched_line(*s),
{
    let c = s.counters;
    let mut t = "sched: jobs ".to_owned();
    t.append(decimal(c.jobs_finished).as_str());
    t.append("/");
    t.append(decimal(c.jobs_started).as_str());
    t.append(" started (hit ");
    t.append(decimal(c.jobs_hit).as_str());
    t.append(", failed ");
    t.append(decimal(c.jobs_failed).as_str());
    t.append(") busy=");
    t.append(write_fixed(c.worker_busy_us as i128, 1_000_000, 1, false).as_str());
    t.append("s util=");
    t.append(write_fixed(s.worker_utilisation as i128, UNIT, 2, false).as_str());
    t.append(" | backlog peak ");
    t.append(write_fixed(c.pending_bytes_peak as i128, 1_048_576, 1, false).as_str());
    t.append(" MB | render_stalls=");
    t.append(decimal(c.render_stalls).as_str());
    t.append(" total=");
    t.append(write_ms(c.render_stall_us).as_str());
    t.append(" max=");
    t.append(write_ms(c.render_stall_max_us).as_str());
    t.append("\n");
    t
}

/// The line on where frames waited.
pub open spec fn stall_line(c: Counters) -> Seq<char> {
    "render stalls: meta "@ + num(c.render_stall_meta_count) + "\u{d7} "@ + ms_text(
        c.render_stall_meta_us,
    ) + " (clip_meta) | thumb_path "@ + num(c.render_stall_path_count) + "\u{d7} "@ + ms_text(
        c.render_stall_path_us,
    ) + " (cached_thumb_path) | meta_wait_expired="@ + num(c.meta_wait_expired) + "\n"@
}

fn write_stall_line(c: &Counters) -> (t: String)
    ensures
        t@ == stall_line(*c),
{
    let mut t = "render stalls: meta ".to_owned();
    t.append(decimal(c.render_stall_meta_count).as_str());
    t.append("\u{d7} ");
    t.append(write_ms(c.render_stall_meta_us).as_str());
    t.append(" (clip_meta) | thumb_path ");
    t.append(decimal(c.render_stall_path_count).as_str());
    t.append("\u{d7} ");
    t.append(write_ms(c.render_stall_path_us).as_str());
    t.append(" (cached_thumb_path) | meta_wait_expired=");
    t.append(decimal(c.meta_wait_expired).as_str());
    t.append("\n");
    t
}

/// The line on reads by the decoders.
pub open spec fn read_line(c: Counters) -> Seq<char> {
    "decode reads: n="@ + num(c.decode_reads) + " mean="@ + mean_ms(
        c.decode_read_us,
        c.decode_reads,
        2,
    ) + "ms max="@ + ms_text(c.decode_read_max_us) + " | >100ms="@ + num(c.decode_read_over_100ms)
        + " >1s="@ + num(c.decode_read_over_1s) + "\n"@
}

fn write_read_line(c: &Counters) -> (t: String)
    ensures
        t@ == read_line(*c),
{
    let mut t = "decode reads: n=".to_owned();
    t.append(decimal(c.decode_reads).as_str());
    t.append(" mean=");
    t.append(write_mean_ms(c.decode_read_us, c.decode_reads, 2).as_str());
    t.append("ms max=");
    t.append(write_ms(c.decode_read_max_us).as_str());
    t.append(" | >100ms=");
    t.append(decimal(c.decode_read_over_100ms).as_str());
    t.append(" >1s=");
    t.append(decimal(c.decode_read_over_1s).as_str());
    t.append("\n");
    t
}

/// The line on how long jobs waited.
pub open spec fn queue_line(c: Counters) -> Seq<char> {
    "queue wait: thumb n="@ + num(c.queue_wait_thumb_count) + " mean="@ + mean_ms(
        c.queue_wait_thumb_us,
        c.queue_wait_thumb_count,
        0,
    ) + "ms max="@ + crate::measure::fixed(c.queue_wait_thumb_max_us as int, 1000, 0, false)
        + "ms | gen n="@ + num(c.queue_wait_gen_count) + " mean="@ + mean_ms(
        c.queue_wait_gen_us,
        c.queue_wait_gen_count,
        0,
    ) + "ms max="@ + crate::measure::fixed(c.queue_wait_gen_max_us as int, 1000, 0, false)
        + "ms | thumb_requests="@ + num(c.thumb_requests) + "\n"@
}

fn write_queue_line(c: &Counters) -> (t: String)
    ensures
        t@ == queue_line(*c),
{
    let mut t = "queue wait: thumb n=".to_owned();
    t.append(decimal(c.queue_wait_thumb_count).as_str());
    t.append(" mean=");
    t.append(write_mean_ms(c.queue_wait_thumb_us, c.queue_wait_thumb_count, 0).as_str());
    t.append("ms max=");
    t.append(write_fixed(c.queue_wait_thumb_max_us as i128, 1000, 0, false).as_str());
    t.append("ms | gen n=");
    t.append(decimal(c.queue_wait_gen_count).as_str());
    t.append(" mean=");
    t.append(write_mean_ms(c.queue_wait_gen_us, c.queue_wait_gen_count, 0).as_str());
    t.append("ms max=");
    t.append(write_fixed(c.queue_wait_gen_max_us as i128, 1000, 0, false).as_str());
    t.append("ms | thumb_requests=");
    t.append(decimal(c.thumb_requests).as_str());
    t.append("\n");
    t
}

/// The line on the atlas.
pub open spec fn atlas_line(s: Summary) -> Seq<char> {
    let c = s.counters;
    "atlas: visible_tiles_max="@ + num(c.visible_tiles_max) + " vs "@ + num(s.atlas_slots)
        + " slots"@ + (if c.visible_tiles_max > s.atlas_slots {
        "  <-- OVER CAPACITY"@
    } else {
        ""@
    }) + " | full_drops="@ + num(c.atlas_full_drops) + " | evictions="@ + num(c.evictions)
        + " | thumbs_cached="@ + num(c.thumbs_cached) + "\n"@
}

fn write_atlas_line(s: &Summary) -> (t: String)
    ensures
        t@ == atlas_line(*s),
{
    let c = s.counters;
    let mut t = "atlas: visible_tiles_max=".to_owned();
    t.append(decimal(c.visible_tiles_max).as_str());
    t.append(" vs ");
    t.append(decimal(s.atlas_slots).as_str());
    t.append(" slots");
    if c.visible_tiles_max > s.atlas_slots {
        t.append("  <-- OVER CAPACITY");
    } else {
        t.append("");
    }
    t.append(" | full_drops=");
    t.append(decimal(c.atlas_full_drops).as_str());
    t.append(" | evictions=");
    t.append(decimal(c.evictions).as_str());
    t.append(" | thumbs_cached=");
    t.append(decimal(c.thumbs_cached).as_str());
    t.append("\n");
    t
}

/// The line of a latency.
pub open spec fn latency_line(l: LatencyStat) -> Seq<char> {
    "latency "@ + crate::report::right_aligned(l.lane@, 8) + "/"@ + left_aligned(l.metric@, 20)
        + " n="@ + left_aligned(crate::text::decimal_of(l.count as nat), 3) + " p50="@
        + crate::measure::fixed(l.p50_ms as int, UNIT as int, 0, false) + "ms p95="@
        + crate::measure::fixed(l.p95_ms as int, UNIT as int, 0, false) + "ms max="@
        + crate::measure::fixed(l.max_ms as int, UNIT as int, 0, false) + "ms\n"@
}

/// The lines of the first `n` latencies.
pub open spec fn latency_lines(v: Seq<LatencyStat>, n: int) -> Seq<char>
    decreases n,
{
    if n <= 0 {
        Seq::empty()
    } else {
        latency_lines(v, n - 1) + latency_line(v[n - 1])
    }
}

fn write_latency_line(l: &LatencyStat) -> (t: String)
    ensures
        t@ == latency_line(*l),
{
    let mut t = "latency ".to_owned();
    t.append(crate::report::align_right(l.lane.as_str().to_owned(), 8).as_str());
    t.append("/");
    t.append(align_left(l.metric.as_str().to_owned(), 20).as_str());
    t.append(" n=");
    t.append(align_left(decimal(l.count as u64), 3).as_str());
    t.append(" p50=");
    t.append(write_fixed(l.p50_ms as i128, UNIT, 0, false).as_str());
    t.append("ms p95=");
    t.append(write_fixed(l.p95_ms as i128, UNIT, 0, false).as_str());
    t.append("ms max=");
    t.append(write_fixed(l.max_ms as i128, UNIT, 0, false).as_str());
    t.append("ms\n");
    t
}

fn write_latency_lines(v: &Vec<LatencyStat>) -> (t: String)
    ensures
        t@ == latency_lines(v@, v@.len() as int),
{
    let mut t = String::new();
    let mut k: usize = 0;
    assert(t@ =~= Seq::empty());
    while k < v.len()
        invariant
            k <= v@.len(),
            t@ == latency_lines(v@, k as int),
        decreases v@.len() - k,
    {
        t.append(write_latency_line(&v[k]).as_str());
        k += 1;
    }
    t
}

/// The line of a condition.
pub open spec fn cond_line(c: CondResult) -> Seq<char> {
    let head = "cond "@ + left_aligned(c.cond@, 18);
    match c.at_s {
        Some(t) => head + " met @ "@ + crate::measure::fixed(t as int, UNIT as int, 2, false)
            + "s\n"@,
        None => head + " NOT met\n"@,
    }
}

/// The lines of the first `n` conditions.
pub open spec fn cond_lines(v: Seq<CondResult>, n: int) -> Seq<char>
    decreases n,
{
    if n <= 0 {
        Seq::empty()
    } else {
        cond_lines(v, n - 1) + cond_line(v[n - 1])
    }
}

fn write_cond_line(c: &CondResult) -> (t: String)
    ensures
        t@ == cond_line(*c),
{
    let mut t = "cond ".to_owned();
    t.append(align_left(c.cond.as_str().to_owned(), 18).as_str());
    match c.at_s {
        Some(at) => {
            t.append(" met @ ");
            t.append(write_fixed(at as i128, UNIT, 2, false).as_str());
            t.append("s\n");
        },
        None => {
            t.append(" NOT met\n");
        },
    }
    t
}

fn write_cond_lines(v: &Vec<CondResult>) -> (t: String)
    ensures
        t@ == cond_lines(v@, v@.len() as int),
{
    let mut t = String::new();
    let mut k: usize = 0;
    assert(t@ =~= Seq::empty());
    while k < v.len()
        invariant
            k <= v@.len(),
            t@ == cond_lines(v@, k as int),
        decreases v@.len() - k,
    {
        t.append(write_cond_line(&v[k]).as_str());
        k += 1;
    }
    t
}

/// What is printed about a run.
pub open spec fn summary_lines(s: Summary) -> Seq<char> {
    title_lines(s) + counters_line(s.counters) + tick_line(s) + sched_line(s) + stall_line(
        s.counters,
    ) + read_line(s.counters) + queue_line(s.counters) + atlas_line(s) + latency_lines(
        s.latencies@,
        s.latencies@.len() as int,
    ) + cond_lines(s.conditions@, s.conditions@.len() as int)
}

/// What is printed about a run.
pub fn print_summary(s: &Summary) -> (t: String)
    ensures
        t@ == summary_lines(*s),
{
    let mut t = write_title(s);
    t.append(write_counters_line(&s.counters).as_str());
    t.append(write_tick_line(s).as_str());
    t.append(write_sched_line(s).as_str());
    t.append(write_stall_line(&s.counters).as_str());
    t.append(write_read_line(&s.counters).as_str());
    t.append(write_queue_line(&s.counters).as_str());
    t.append(write_atlas_line(s).as_str());
    t.append(write_latency_lines(&s.latencies).as_str());
    t.append(write_cond_lines(&s.conditions).as_str());
    t
}

/// The first line of a text, where it has one.
pub open spec fn first_line(s: Seq<char>) -> Option<Seq<char>> {
    if s.len() == 0 {
        None
    } else {
        Some(crate::report::line_at(s, 0))
    }
}

/// What the tools said about the machine.
pub struct Machine<'a> {
    pub sha: Option<&'a str>,
    /// What differs from what is committed.
    pub changes: Option<&'a str>,
    pub ffmpeg: Option<&'a str>,
    pub host: Option<&'a str>,
    pub os: &'a str,
    pub arch: &'a str,
}

/// A text, or that it is not known.
pub open spec fn known(s: Option<&str>) -> Seq<char> {
    match s {
        Some(t) => t@,
        None => "unknown"@,
    }
}

/// The first line of a text, or that it is not known.
pub open spec fn known_line(s: Option<&str>) -> Seq<char> {
    match s {
        Some(t) => match first_line(t@) {
            Some(l) => l,
            None => "unknown"@,
        },
        None => "unknown"@,
    }
}

/// The machine a benchmark ran on.
pub open spec fn machine_text(m: Machine) -> Seq<char> {
    let dirty = m.changes matches Some(c) && c@.len() > 0;
    "- git: `"@ + known(m.sha) + "`"@ + (if dirty {
        " (dirty tree)"@
    } else {
        ""@
    }) + "\n- ffmpeg: `"@ + known_line(m.ffmpeg) + "`\n- platform: `"@ + m.os@ + " "@ + m.arch@
        + "`\n- host: `"@ + known(m.host) + "`\n"@
}

fn write_known(s: Option<&str>) -> (t: String)
    ensures
        t@ == known(s),
{
    match s {
        Some(t) => t.to_owned(),
        None => "unknown".to_owned(),
    }
}

fn write_known_line(s: Option<&str>) -> (t: String)
    ensures
        t@ == known_line(s),
{
    match s {
        Some(t) => {
            let v = chars_of(t);
            if v.len() == 0 {
                return "unknown".to_owned();
            }
            let mut e: usize = 0;
            while e < v.len() && v[e] != '\n'
                invariant
                    v@ == t@,
                    e <= v@.len(),
                    crate::report::line_end(t@, e as int) == crate::report::line_end(t@, 0),
                decreases v@.len() - e,
            {
                e += 1;
            }
            let stop: usize = if e < v.len() && 0 < e && v[e - 1] == '\r' {
                e - 1
            } else {
                e
            };
            part_of(&v, 0, stop)
        },
        None => "unknown".to_owned(),
    }
}

/// The machine a benchmark ran on; what no tool could say is not known.
pub fn fingerprint(m: &Machine) -> (t: String)
    ensures
        t@ == machine_text(*m),
{
    let mut t = "- git: `".to_owned();
    t.append(write_known(m.sha).as_str());
    t.append("`");
    let dirty = match m.changes {
        Some(c) => chars_of(c).len() > 0,
        None => false,
    };
    if dirty {
        t.append(" (dirty tree)");
    } else {
        t.append("");
    }
    t.append("\n- ffmpeg: `");
    t.append(write_known_line(m.ffmpeg).as_str());
    t.append("`\n- platform: `");
    t.append(m.os);
    t.append(" ");
    t.append(m.arch);
    t.append("`\n- host: `");
    t.append(write_known(m.host).as_str());
    t.append("`\n");
    t
}

} // verus!
