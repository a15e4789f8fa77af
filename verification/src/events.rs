//! What the events of a run amount to: latencies, jobs, phases, and gaps between
//! frames.
//!
//! Times are in nanoseconds from the start of the run, so that a difference of two
//! is a number of millionths of a millisecond.

use vstd::prelude::*;

use crate::measure::{pctl_stat, total};
use crate::report::{JobStat, LatencyStat, PhaseStat};
use crate::table::{column, entry, name_rows, Entry};
use crate::text::{same, string_of};

verus! {

/// The most events that are looked at together.
pub const EVENTS_LIMIT: usize = 300_000_000;

/// Something that happened in a run.
pub struct RelEvent {
    pub t: i64,
    pub kind: String,
    pub lane: String,
    /// The incarnation of the lane.
    pub lane_gen: u64,
    pub tier: Option<String>,
    pub outcome: Option<String>,
    /// How long it took, in millionths of a millisecond.
    pub ms: Option<i64>,
}

/// A number, held within what 64 bits hold.
pub open spec fn narrowed(x: int) -> i64 {
    if x > i64::MAX {
        i64::MAX
    } else if x < i64::MIN {
        i64::MIN
    } else {
        x as i64
    }
}

/// Holds a number within what 64 bits hold.
pub fn narrow(x: i128) -> (r: i64)
    ensures
        r == narrowed(x as int),
{
    if x > i64::MAX as i128 {
        i64::MAX
    } else if x < i64::MIN as i128 {
        i64::MIN
    } else {
        x as i64
    }
}

/// What one incarnation of a lane went through.
pub struct Lane {
    pub generation: u64,
    pub lane: String,
    pub spawn: Option<i64>,
    pub ready: Option<i64>,
    pub served: Option<i64>,
    pub promo: Option<i64>,
}

/// What one incarnation of a lane went through, its name as characters.
pub struct LaneModel {
    pub generation: u64,
    pub lane: Seq<char>,
    pub spawn: Option<i64>,
    pub ready: Option<i64>,
    pub served: Option<i64>,
    pub promo: Option<i64>,
}

impl View for Lane {
    type V = LaneModel;

    open spec fn view(&self) -> LaneModel {
        LaneModel {
            generation: self.generation,
            lane: self.lane@,
            spawn: self.spawn,
            ready: self.ready,
            served: self.served,
            promo: self.promo,
        }
    }
}

/// The models of some lanes.
pub open spec fn lanes_of(v: Seq<Lane>) -> Seq<LaneModel> {
    v.map_values(|l: Lane| l@)
}

/// The lane after an event: of spawns and promotions the last counts, of frames
/// that were ready or served the first.
pub open spec fn after_event(l: LaneModel, e: RelEvent) -> LaneModel {
    let l = LaneModel { lane: e.lane@, ..l };
    if e.kind@ == "decode_spawn"@ {
        LaneModel { spawn: Some(e.t), ..l }
    } else if e.kind@ == "decode_ready"@ {
        LaneModel {
            ready: if l.ready.is_some() {
                l.ready
            } else {
                Some(e.t)
            },
            ..l
        }
    } else if e.kind@ == "frame_served"@ {
        LaneModel {
            served: if l.served.is_some() {
                l.served
            } else {
                Some(e.t)
            },
            ..l
        }
    } else if e.kind@ == "promotion"@ {
        LaneModel { promo: Some(e.t), ..l }
    } else {
        l
    }
}

/// Where an incarnation is among the lanes from `from` on; past them where it is
/// not.
pub open spec fn lane_place(lanes: Seq<LaneModel>, generation: u64, from: int) -> int
    decreases lanes.len() - from,
{
    if from >= lanes.len() {
        from
    } else if lanes[from].generation == generation {
        from
    } else {
        lane_place(lanes, generation, from + 1)
    }
}

/// The lanes after an event.
pub open spec fn lanes_after(lanes: Seq<LaneModel>, e: RelEvent) -> Seq<LaneModel> {
    let i = lane_place(lanes, e.lane_gen, 0);
    if i < lanes.len() {
        lanes.update(i, after_event(lanes[i], e))
    } else {
        lanes.push(
            after_event(
                LaneModel {
                    generation: e.lane_gen,
                    lane: Seq::empty(),
                    spawn: None,
                    ready: None,
                    served: None,
                    promo: None,
                },
                e,
            ),
        )
    }
}

/// The lanes after the first `n` events.
pub open spec fn lanes_by(events: Seq<RelEvent>, n: int) -> Seq<LaneModel>
    decreases n,
{
    if n <= 0 {
        Seq::empty()
    } else {
        lanes_after(lanes_by(events, n - 1), events[n - 1])
    }
}

fn copy_of(s: &String) -> (t: String)
    ensures
        t@ == s@,
{
    let mut t = String::new();
    t.append(s.as_str());
    assert(t@ =~= s@);
    t
}

fn note(l: Lane, e: &RelEvent) -> (r: Lane)
    ensures
        r@ == after_event(l@, *e),
{
    let mut r = l;
    r.lane = copy_of(&e.lane);
    let kind = e.kind.as_str();
    if same(kind, "decode_spawn") {
        r.spawn = Some(e.t);
    } else if same(kind, "decode_ready") {
        if r.ready.is_none() {
            r.ready = Some(e.t);
        }
    } else if same(kind, "frame_served") {
        if r.served.is_none() {
            r.served = Some(e.t);
        }
    } else if same(kind, "promotion") {
        r.promo = Some(e.t);
    }
    r
}

fn blank() -> (l: Lane)
    ensures
        l.generation == 0,
        l.lane@ == Seq::<char>::empty(),
        l.spawn is None,
        l.ready is None,
        l.served is None,
        l.promo is None,
{
    let lane = String::new();
    assert(lane@ =~= Seq::empty());
    Lane { generation: 0, lane, spawn: None, ready: None, served: None, promo: None }
}

fn note_event(lanes: &mut Vec<Lane>, e: &RelEvent)
    ensures
        lanes_of(final(lanes)@) == lanes_after(lanes_of(old(lanes)@), *e),
        final(lanes)@.len() <= old(lanes)@.len() + 1,
{
    let ghost before = lanes_of(lanes@);
    let mut i: usize = 0;
    while i < lanes.len() && lanes[i].generation != e.lane_gen
        invariant
            i <= lanes@.len(),
            before == lanes_of(lanes@),
            lanes@ == old(lanes)@,
            lane_place(before, e.lane_gen, i as int) == lane_place(before, e.lane_gen, 0),
        decreases lanes@.len() - i,
    {
        i += 1;
    }
    let mut l = blank();
    l.generation = e.lane_gen;
    if i < lanes.len() {
        lanes.set_and_swap(i, &mut l);
        let r = note(l, e);
        lanes.set(i, r);
        assert(lanes_of(lanes@) =~= lanes_after(before, *e));
    } else {
        let r = note(l, e);
        lanes.push(r);
        assert(lanes_of(lanes@) =~= lanes_after(before, *e));
    }
}

/// A sample of how long something took, where both ends of it are known.
pub open spec fn span_rows(
    lane: Seq<char>,
    metric: Seq<char>,
    from: Option<i64>,
    to: Option<i64>,
) -> Seq<crate::table::Row> {
    match (from, to) {
        (Some(a), Some(b)) => seq![
            crate::table::Row {
                a: lane,
                b: metric,
                n: 0,
                v0: (b - a) as i128,
                v1: 0,
                v2: 0,
                v3: 0,
            },
        ],
        _ => Seq::empty(),
    }
}

/// The samples of the first `n` lanes.
pub open spec fn sample_rows(lanes: Seq<LaneModel>, n: int) -> Seq<crate::table::Row>
    decreases n,
{
    if n <= 0 {
        Seq::empty()
    } else {
        let l = lanes[n - 1];
        sample_rows(lanes, n - 1) + span_rows(l.lane, "spawn_to_ready"@, l.spawn, l.ready)
            + span_rows(l.lane, "spawn_to_served"@, l.spawn, l.served) + span_rows(
            l.lane,
            "promotion_to_served"@,
            l.promo,
            l.served,
        )
    }
}

fn push_span(v: &mut Vec<Entry>, lane: &str, metric: &str, from: Option<i64>, to: Option<i64>)
    requires
        forall|k: int| 0 <= k < old(v)@.len() ==> (#[trigger] old(v)@[k])@.in_range(),
    ensures
        crate::table::rows_of(final(v)@) == crate::table::rows_of(old(v)@) + span_rows(
            lane@,
            metric@,
            from,
            to,
        ),
        forall|k: int| 0 <= k < final(v)@.len() ==> (#[trigger] final(v)@[k])@.in_range(),
{
    let ghost before = crate::table::rows_of(v@);
    if let (Some(a), Some(b)) = (from, to) {
        v.push(entry(lane, metric, 0, (b as i128) - (a as i128), 0, 0, 0));
    }
    assert(crate::table::rows_of(v@) =~= before + span_rows(lane@, metric@, from, to));
}

fn sample_entries(lanes: &Vec<Lane>) -> (v: Vec<Entry>)
    ensures
        crate::table::rows_of(v@) == sample_rows(lanes_of(lanes@), lanes@.len() as int),
        forall|k: int| 0 <= k < v@.len() ==> (#[trigger] v@[k])@.in_range(),
{
    let ghost models = lanes_of(lanes@);
    let mut v: Vec<Entry> = Vec::new();
    let mut i: usize = 0;
    assert(crate::table::rows_of(v@) =~= Seq::empty());
    while i < lanes.len()
        invariant
            i <= lanes@.len(),
            models == lanes_of(lanes@),
            crate::table::rows_of(v@) == sample_rows(models, i as int),
            forall|k: int| 0 <= k < v@.len() ==> (#[trigger] v@[k])@.in_range(),
        decreases lanes@.len() - i,
    {
        let l = &lanes[i];
        let name = l.lane.as_str();
        push_span(&mut v, name, "spawn_to_ready", l.spawn, l.ready);
        push_span(&mut v, name, "spawn_to_served", l.spawn, l.served);
        push_span(&mut v, name, "promotion_to_served", l.promo, l.served);
        i += 1;
    }
    v
}

/// A statistic on the samples of a name.
pub open spec fn sums_up(
    l: LatencyStat,
    rows: Seq<crate::table::Row>,
    q: crate::table::Name,
    metric: Seq<char>,
) -> bool {
    let xs = crate::table::column_of(rows, q, 0, rows.len() as int);
    let s = crate::measure::stat_of(xs);
    &&& l.lane@ == q.a
    &&& l.metric@ == metric
    &&& l.count == xs.len()
    &&& l.p50_ms == narrowed(s.p50 as int)
    &&& l.p95_ms == narrowed(s.p95 as int)
    &&& l.max_ms == narrowed(s.max as int)
}

fn sum_up(v: &Vec<Entry>, e: &Entry, metric: String) -> (l: LatencyStat)
    requires
        forall|k: int| 0 <= k < v@.len() ==> (#[trigger] v@[k])@.in_range(),
    ensures
        sums_up(l, crate::table::rows_of(v@), e@.name(), metric@),
{
    let xs = column(v, e, 0);
    let s = pctl_stat(&xs);
    LatencyStat {
        lane: string_of(&e.a),
        metric,
        count: xs.len(),
        p50_ms: narrow(s.p50),
        p95_ms: narrow(s.p95),
        max_ms: narrow(s.max),
    }
}

/// The lanes of a run's events.
pub open spec fn lanes_in(events: Seq<RelEvent>) -> Seq<LaneModel> {
    lanes_by(events, events.len() as int)
}

/// What a run's lanes took, by lane and by what was measured.
pub open spec fn latency_samples(events: Seq<RelEvent>) -> Seq<crate::table::Row> {
    sample_rows(lanes_in(events), lanes_in(events).len() as int)
}

/// How long the lanes took from spawn to ready, from spawn to served and from
/// promotion to served, each for itself, in the order of their names.
pub fn compute_latencies(events: &Vec<RelEvent>) -> (out: Vec<LatencyStat>)
    ensures
        ({
            let rows = latency_samples(events@);
            let names = crate::table::names_of(rows, rows.len() as int);
            &&& out@.len() == names.len()
            &&& forall|j: int|
                0 <= j < names.len() ==> sums_up(#[trigger] out@[j], rows, names[j], names[j].b)
        }),
{
    let mut lanes: Vec<Lane> = Vec::new();
    let mut i: usize = 0;
    assert(lanes_of(lanes@) =~= Seq::empty());
    while i < events.len()
        invariant
            i <= events@.len(),
            lanes_of(lanes@) == lanes_by(events@, i as int),
        decreases events@.len() - i,
    {
        note_event(&mut lanes, &events[i]);
        i += 1;
    }
    assert(lanes_of(lanes@).len() == lanes@.len());
    let v = sample_entries(&lanes);
    let ghost rows = latency_samples(events@);
    let ghost names = crate::table::names_of(rows, rows.len() as int);
    assert(crate::table::rows_of(v@).len() == v@.len());
    let reps = name_rows(&v);
    let mut out: Vec<LatencyStat> = Vec::new();
    let mut j: usize = 0;
    while j < reps.len()
        invariant
            j <= reps@.len(),
            out@.len() == j,
            rows == crate::table::rows_of(v@),
            names == crate::table::named(rows, reps@),
            forall|k: int| 0 <= k < v@.len() ==> (#[trigger] v@[k])@.in_range(),
            forall|k: int| 0 <= k < reps@.len() ==> (#[trigger] reps@[k]) < v@.len(),
            forall|k: int|
                0 <= k < j ==> sums_up(#[trigger] out@[k], rows, names[k], names[k].b),
        decreases reps@.len() - j,
    {
        assert(names[j as int] == rows[reps@[j as int] as int].name());
        let e = &v[reps[j]];
        out.push(sum_up(&v, e, string_of(&e.b)));
        j += 1;
    }
    assert(names.len() == reps@.len());
    out
}

/// When an incarnation last served a frame, by the first `n` events.
pub open spec fn last_served(events: Seq<RelEvent>, generation: u64, n: int) -> Option<i64>
    decreases n,
{
    if n <= 0 {
        None
    } else if events[n - 1].kind@ == "frame_served"@ && events[n - 1].lane_gen == generation {
        Some(events[n - 1].t)
    } else {
        last_served(events, generation, n - 1)
    }
}

/// The gap that event `i` closes: from the frame before it to this one, within an
/// incarnation of a lane.
pub open spec fn gap_of(events: Seq<RelEvent>, i: int) -> Seq<crate::table::Row> {
    if events[i].kind@ == "frame_served"@ {
        span_rows(
            events[i].lane@,
            Seq::empty(),
            last_served(events, events[i].lane_gen, i),
            Some(events[i].t),
        )
    } else {
        Seq::empty()
    }
}

/// The gaps that the first `n` events close.
pub open spec fn gaps_by(events: Seq<RelEvent>, n: int) -> Seq<crate::table::Row>
    decreases n,
{
    if n <= 0 {
        Seq::empty()
    } else {
        gaps_by(events, n - 1) + gap_of(events, n - 1)
    }
}

/// When each incarnation last served a frame.
pub struct Served {
    pub generation: u64,
    pub t: i64,
}

/// What is remembered of the frames that the first `n` events served.
pub open spec fn remembers(seen: Seq<Served>, events: Seq<RelEvent>, n: int) -> bool {
    &&& forall|k: int|
        0 <= k < seen.len() ==> last_served(events, (#[trigger] seen[k]).generation, n) == Some(
            seen[k].t,
        )
    &&& forall|g: u64|
        (#[trigger] last_served(events, g, n)).is_some() ==> exists|k: int|
            0 <= k < seen.len() && (#[trigger] seen[k]).generation == g
    &&& forall|k: int, j: int|
        0 <= k < j < seen.len() ==> (#[trigger] seen[k]).generation != (
        #[trigger] seen[j]).generation
}

fn remember(seen: &mut Vec<Served>, events: &Vec<RelEvent>, i: usize) -> (before: Option<i64>)
    requires
        i < events@.len(),
        events@[i as int].kind@ == "frame_served"@,
        remembers(old(seen)@, events@, i as int),
    ensures
        before == last_served(events@, events@[i as int].lane_gen, i as int),
        remembers(final(seen)@, events@, i + 1),
{
    let g: u64 = events[i].lane_gen;
    let t: i64 = events[i].t;
    let ghost was = seen@;
    let mut k: usize = 0;
    while k < seen.len() && seen[k].generation != g
        invariant
            k <= seen@.len(),
            seen@ == was,
            forall|j: int| 0 <= j < k ==> (#[trigger] seen@[j]).generation != g,
        decreases seen@.len() - k,
    {
        k += 1;
    }
    if k < seen.len() {
        let before: i64 = seen[k].t;
        seen.set(k, Served { generation: g, t });
        proof {
            assert(was[k as int].generation == g);
            assert forall|j: int| 0 <= j < seen@.len() implies last_served(
                events@,
                (#[trigger] seen@[j]).generation,
                i + 1,
            ) == Some(seen@[j].t) by {
                assert(was[j].generation == seen@[j].generation);
            }
            assert forall|h: u64| (#[trigger] last_served(events@, h, i + 1)).is_some() implies exists|
                j: int,
            |
                0 <= j < seen@.len() && (#[trigger] seen@[j]).generation == h by {
                if h == g {
                    assert(seen@[k as int].generation == h);
                } else {
                    assert(last_served(events@, h, i as int).is_some());
                    let j = choose|j: int| 0 <= j < was.len() && (#[trigger] was[j]).generation == h;
                    assert(seen@[j].generation == h);
                }
            }
            assert forall|a: int, b: int| 0 <= a < b < seen@.len() implies (
            #[trigger] seen@[a]).generation != (#[trigger] seen@[b]).generation by {
                assert(was[a].generation == seen@[a].generation);
                assert(was[b].generation == seen@[b].generation);
            }
        }
        Some(before)
    } else {
        proof {
            if last_served(events@, g, i as int).is_some() {
                let j = choose|j: int| 0 <= j < was.len() && (#[trigger] was[j]).generation == g;
                assert(seen@[j].generation != g);
            }
        }
        seen.push(Served { generation: g, t });
        proof {
            assert forall|j: int| 0 <= j < seen@.len() implies last_served(
                events@,
                (#[trigger] seen@[j]).generation,
                i + 1,
            ) == Some(seen@[j].t) by {
                if j < was.len() {
                    assert(was[j] == seen@[j]);
                }
            }
            assert forall|h: u64| (#[trigger] last_served(events@, h, i + 1)).is_some() implies exists|
                j: int,
            |
                0 <= j < seen@.len() && (#[trigger] seen@[j]).generation == h by {
                if h == g {
                    assert(seen@[was.len() as int].generation == h);
                } else {
                    assert(last_served(events@, h, i as int).is_some());
                    let j = choose|j: int| 0 <= j < was.len() && (#[trigger] was[j]).generation == h;
                    assert(seen@[j].generation == h);
                }
            }
            assert forall|a: int, b: int| 0 <= a < b < seen@.len() implies (
            #[trigger] seen@[a]).generation != (#[trigger] seen@[b]).generation by {
                assert(was[a].generation == seen@[a].generation);
                if b < was.len() {
                    assert(was[b].generation == seen@[b].generation);
                }
            }
        }
        None
    }
}

fn gap_samples(events: &Vec<RelEvent>) -> (v: Vec<Entry>)
    ensures
        crate::table::rows_of(v@) == gaps_by(events@, events@.len() as int),
        forall|k: int| 0 <= k < v@.len() ==> (#[trigger] v@[k])@.in_range(),
{
    let mut v: Vec<Entry> = Vec::new();
    let mut seen: Vec<Served> = Vec::new();
    let mut i: usize = 0;
    proof {
        reveal_strlit("");
        assert(""@ =~= Seq::empty());
    }
    assert(crate::table::rows_of(v@) =~= Seq::empty());
    while i < events.len()
        invariant
            i <= events@.len(),
            ""@ == Seq::<char>::empty(),
            crate::table::rows_of(v@) == gaps_by(events@, i as int),
            remembers(seen@, events@, i as int),
            forall|k: int| 0 <= k < v@.len() ==> (#[trigger] v@[k])@.in_range(),
        decreases events@.len() - i,
    {
        let e = &events[i];
        if same(e.kind.as_str(), "frame_served") {
            let before = remember(&mut seen, events, i);
            push_span(&mut v, e.lane.as_str(), "", before, Some(e.t));
        } else {
            proof {
                assert forall|g: u64| #[trigger]
                    last_served(events@, g, i + 1) == last_served(events@, g, i as int) by {}
                assert(gaps_by(events@, i + 1) =~= gaps_by(events@, i as int));
            }
        }
        i += 1;
    }
    v
}

/// How long the lanes stood still between two frames, in the order of their
/// names; a lane that is spawned anew does not stand still.
pub fn compute_frame_gaps(events: &Vec<RelEvent>) -> (out: Vec<LatencyStat>)
    ensures
        ({
            let rows = gaps_by(events@, events@.len() as int);
            let names = crate::table::names_of(rows, rows.len() as int);
            &&& out@.len() == names.len()
            &&& forall|j: int|
                0 <= j < names.len() ==> sums_up(#[trigger] out@[j], rows, names[j], "frame_gap"@)
        }),
{
    let v = gap_samples(events);
    let ghost rows = gaps_by(events@, events@.len() as int);
    let ghost names = crate::table::names_of(rows, rows.len() as int);
    assert(crate::table::rows_of(v@).len() == v@.len());
    let reps = name_rows(&v);
    let mut out: Vec<LatencyStat> = Vec::new();
    let mut j: usize = 0;
    while j < reps.len()
        invariant
            j <= reps@.len(),
            out@.len() == j,
            rows == crate::table::rows_of(v@),
            names == crate::table::named(rows, reps@),
            forall|k: int| 0 <= k < v@.len() ==> (#[trigger] v@[k])@.in_range(),
            forall|k: int| 0 <= k < reps@.len() ==> (#[trigger] reps@[k]) < v@.len(),
            forall|k: int|
                0 <= k < j ==> sums_up(#[trigger] out@[k], rows, names[k], "frame_gap"@),
        decreases reps@.len() - j,
    {
        assert(names[j as int] == rows[reps@[j as int] as int].name());
        let mut metric = String::new();
        metric.append("frame_gap");
        assert(metric@ =~= "frame_gap"@);
        out.push(sum_up(&v, &v[reps[j]], metric));
        j += 1;
    }
    assert(names.len() == reps@.len());
    out
}

/// How a job ended, where that is known.
pub open spec fn outcome_of(e: RelEvent) -> Seq<char> {
    match e.outcome {
        Some(o) => o@,
        None => "?"@,
    }
}

/// What a job took, where an event is the end of one and says so.
pub open spec fn job_sample(e: RelEvent) -> Seq<crate::table::Row> {
    if e.kind@ == "job_end"@ && e.tier.is_some() && e.ms.is_some() {
        seq![
            crate::table::Row {
                a: e.tier->0@,
                b: outcome_of(e),
                n: 0,
                v0: e.ms->0 as i128,
                v1: 0,
                v2: 0,
                v3: 0,
            },
        ]
    } else {
        Seq::empty()
    }
}

/// What the jobs took that the first `n` events end.
pub open spec fn jobs_by(events: Seq<RelEvent>, n: int) -> Seq<crate::table::Row>
    decreases n,
{
    if n <= 0 {
        Seq::empty()
    } else {
        jobs_by(events, n - 1) + job_sample(events[n - 1])
    }
}

fn job_samples(events: &Vec<RelEvent>) -> (v: Vec<Entry>)
    ensures
        crate::table::rows_of(v@) == jobs_by(events@, events@.len() as int),
        v@.len() <= events@.len(),
        forall|k: int| 0 <= k < v@.len() ==> (#[trigger] v@[k])@.in_range(),
{
    let mut v: Vec<Entry> = Vec::new();
    let mut i: usize = 0;
    assert(crate::table::rows_of(v@) =~= Seq::empty());
    while i < events.len()
        invariant
            i <= events@.len(),
            v@.len() <= i,
            crate::table::rows_of(v@) == jobs_by(events@, i as int),
            forall|k: int| 0 <= k < v@.len() ==> (#[trigger] v@[k])@.in_range(),
        decreases events@.len() - i,
    {
        let e = &events[i];
        let ghost before = crate::table::rows_of(v@);
        if same(e.kind.as_str(), "job_end") {
            if let Some(tier) = &e.tier {
                if let Some(ms) = e.ms {
                    let outcome = match &e.outcome {
                        Some(o) => o.as_str(),
                        None => "?",
                    };
                    v.push(entry(tier.as_str(), outcome, 0, ms as i128, 0, 0, 0));
                }
            }
        }
        assert(crate::table::rows_of(v@) =~= before + job_sample(events@[i as int]));
        i += 1;
    }
    v
}

/// What the jobs of a name took together.
pub open spec fn weight(rows: Seq<crate::table::Row>, q: crate::table::Name) -> int {
    let xs = crate::table::column_of(rows, q, 0, rows.len() as int);
    crate::measure::sum_of(xs, xs.len() as int)
}

/// Where a weight belongs among the first `n` names, which descend by weight:
/// behind those that weigh as much or more.
pub open spec fn weight_rank(
    rows: Seq<crate::table::Row>,
    names: Seq<crate::table::Name>,
    w: int,
    n: int,
) -> int
    decreases n,
{
    if n <= 0 {
        0
    } else if weight(rows, names[n - 1]) < w {
        weight_rank(rows, names, w, n - 1)
    } else {
        n
    }
}

/// The first `n` names, the heaviest first; of two that weigh the same, the one
/// that was first stays first.
pub open spec fn by_weight(
    rows: Seq<crate::table::Row>,
    names: Seq<crate::table::Name>,
    n: int,
) -> Seq<crate::table::Name>
    decreases n,
{
    if n <= 0 {
        Seq::empty()
    } else {
        let rest = by_weight(rows, names, n - 1);
        rest.insert(
            weight_rank(rows, rest, weight(rows, names[n - 1]), rest.len() as int),
            names[n - 1],
        )
    }
}

/// A statistic on the jobs of a name.
pub open spec fn job_sums_up(
    s: JobStat,
    rows: Seq<crate::table::Row>,
    q: crate::table::Name,
) -> bool {
    let xs = crate::table::column_of(rows, q, 0, rows.len() as int);
    let st = crate::measure::stat_of(xs);
    &&& s.tier@ == q.a
    &&& s.outcome@ == q.b
    &&& s.count == xs.len()
    &&& s.p50_ms == narrowed(st.p50 as int)
    &&& s.p95_ms == narrowed(st.p95 as int)
    &&& s.max_ms == narrowed(st.max as int)
    &&& s.total_s == narrowed(weight(rows, q) / 1000)
}

fn floor_thousandth(x: i128) -> (r: i128)
    requires
        -1_000_000_000_000_000_000_000_000_000_000_000_000 <= x,
        x <= 1_000_000_000_000_000_000_000_000_000_000_000_000,
    ensures
        r == (x as int) / 1000,
{
    if x >= 0 {
        x / 1000
    } else {
        let y: i128 = -x;
        -((y + 999) / 1000)
    }
}

fn job_stat(v: &Vec<Entry>, e: &Entry) -> (r: (JobStat, i128))
    requires
        v@.len() <= EVENTS_LIMIT,
        forall|k: int| 0 <= k < v@.len() ==> (#[trigger] v@[k])@.in_range(),
    ensures
        job_sums_up(r.0, crate::table::rows_of(v@), e@.name()),
        r.1 == weight(crate::table::rows_of(v@), e@.name()),
{
    let xs = column(v, e, 0);
    let w: i128 = total(&xs);
    let s = pctl_stat(&xs);
    (
        JobStat {
            tier: string_of(&e.a),
            outcome: string_of(&e.b),
            count: xs.len(),
            p50_ms: narrow(s.p50),
            p95_ms: narrow(s.p95),
            max_ms: narrow(s.max),
            total_s: narrow(floor_thousandth(w)),
        },
        w,
    )
}

/// What the jobs took, by tier and by outcome, the heaviest first: that one holds
/// the workers.
pub fn compute_jobs(events: &Vec<RelEvent>) -> (out: Vec<JobStat>)
    requires
        events@.len() <= EVENTS_LIMIT,
    ensures
        ({
            let rows = jobs_by(events@, events@.len() as int);
            let names = crate::table::names_of(rows, rows.len() as int);
            let order = by_weight(rows, names, names.len() as int);
            &&& out@.len() == order.len()
            &&& forall|j: int|
                0 <= j < order.len() ==> job_sums_up(#[trigger] out@[j], rows, order[j])
        }),
{
    let v = job_samples(events);
    let ghost rows = jobs_by(events@, events@.len() as int);
    let ghost names = crate::table::names_of(rows, rows.len() as int);
    assert(crate::table::rows_of(v@).len() == v@.len());
    let reps = name_rows(&v);
    let mut out: Vec<JobStat> = Vec::new();
    let mut weights: Vec<i128> = Vec::new();
    let ghost mut order: Seq<crate::table::Name> = Seq::empty();
    let mut j: usize = 0;
    while j < reps.len()
        invariant
            j <= reps@.len(),
            v@.len() <= EVENTS_LIMIT,
            rows == crate::table::rows_of(v@),
            names == crate::table::named(rows, reps@),
            order == by_weight(rows, names, j as int),
            out@.len() == order.len(),
            weights@.len() == order.len(),
            forall|k: int| 0 <= k < v@.len() ==> (#[trigger] v@[k])@.in_range(),
            forall|k: int| 0 <= k < reps@.len() ==> (#[trigger] reps@[k]) < v@.len(),
            forall|k: int| 0 <= k < order.len() ==> job_sums_up(#[trigger] out@[k], rows, order[k]),
            forall|k: int|
                0 <= k < order.len() ==> (#[trigger] weights@[k]) == weight(rows, order[k]),
        decreases reps@.len() - j,
    {
        assert(names[j as int] == rows[reps@[j as int] as int].name());
        let (s, w) = job_stat(&v, &v[reps[j]]);
        let mut n: usize = out.len();
        while n > 0 && weights[n - 1] < w
            invariant
                n <= out@.len(),
                out@.len() == order.len(),
                weights@.len() == order.len(),
                forall|k: int|
                    0 <= k < order.len() ==> (#[trigger] weights@[k]) == weight(rows, order[k]),
                weight_rank(rows, order, w as int, n as int) == weight_rank(
                    rows,
                    order,
                    w as int,
                    order.len() as int,
                ),
            decreases n,
        {
            n -= 1;
        }
        let ghost (outs, ws) = (out@, weights@);
        out.insert(n, s);
        weights.insert(n, w);
        proof {
            let next = order.insert(n as int, names[j as int]);
            assert forall|k: int| 0 <= k < next.len() implies job_sums_up(
                #[trigger] out@[k],
                rows,
                next[k],
            ) by {
                if k < n {
                    assert(out@[k] == outs[k]);
                } else if k > n {
                    assert(out@[k] == outs[k - 1]);
                }
            }
            assert forall|k: int| 0 <= k < next.len() implies (#[trigger] weights@[k]) == weight(
                rows,
                next[k],
            ) by {
                if k < n {
                    assert(weights@[k] == ws[k]);
                } else if k > n {
                    assert(weights@[k] == ws[k - 1]);
                }
            }
            order = next;
        }
        j += 1;
    }
    assert(names.len() == reps@.len());
    out
}

proof fn weight_rank_bounds(
    rows: Seq<crate::table::Row>,
    names: Seq<crate::table::Name>,
    w: int,
    n: int,
)
    requires
        0 <= n <= names.len(),
        forall|i: int, j: int|
            0 <= i < j < names.len() ==> weight(rows, #[trigger] names[i]) >= weight(
                rows,
                #[trigger] names[j],
            ),
    ensures
        0 <= weight_rank(rows, names, w, n) <= n,
        forall|i: int|
            0 <= i < weight_rank(rows, names, w, n) ==> weight(rows, #[trigger] names[i]) >= w,
        forall|i: int|
            weight_rank(rows, names, w, n) <= i < n ==> weight(rows, #[trigger] names[i]) < w,
    decreases n,
{
    if n > 0 {
        if weight(rows, names[n - 1]) < w {
            weight_rank_bounds(rows, names, w, n - 1);
        } else {
            assert forall|i: int| 0 <= i < n implies weight(rows, #[trigger] names[i]) >= w by {
                if i < n - 1 {
                    assert(weight(rows, names[i]) >= weight(rows, names[n - 1]));
                }
            }
        }
    }
}

/// The jobs are listed by what they took together, the heaviest first.
pub proof fn heaviest_come_first(
    rows: Seq<crate::table::Row>,
    names: Seq<crate::table::Name>,
    n: int,
)
    requires
        0 <= n <= names.len(),
    ensures
        by_weight(rows, names, n).len() == n,
        forall|i: int, j: int|
            0 <= i < j < n ==> weight(rows, #[trigger] by_weight(rows, names, n)[i]) >= weight(
                rows,
                #[trigger] by_weight(rows, names, n)[j],
            ),
    decreases n,
{
    if n > 0 {
        heaviest_come_first(rows, names, n - 1);
        let rest = by_weight(rows, names, n - 1);
        let w = weight(rows, names[n - 1]);
        weight_rank_bounds(rows, rest, w, rest.len() as int);
        let r = weight_rank(rows, rest, w, rest.len() as int);
        let all = by_weight(rows, names, n);
        assert forall|i: int, j: int| 0 <= i < j < n implies weight(rows, #[trigger] all[i])
            >= weight(rows, #[trigger] all[j]) by {
            let a = if i < r {
                rest[i]
            } else if i == r {
                names[n - 1]
            } else {
                rest[i - 1]
            };
            let b = if j < r {
                rest[j]
            } else if j == r {
                names[n - 1]
            } else {
                rest[j - 1]
            };
            assert(all[i] == a && all[j] == b);
        }
    }
}

/// What a part of each frame cost, in nanoseconds.
pub struct PhaseSamples {
    pub phase: String,
    pub ns: Vec<u64>,
}

/// The samples as measures: nanoseconds are millionths of a millisecond.
pub open spec fn as_measures(ns: Seq<u64>) -> Seq<i128> {
    ns.map_values(|x: u64| x as i128)
}

/// What a part of the frames cost together.
pub open spec fn phase_sum(p: PhaseSamples) -> int {
    crate::measure::sum_of(as_measures(p.ns@), p.ns@.len() as int)
}

/// What the first `n` parts cost together.
pub open spec fn phases_sum(phases: Seq<PhaseSamples>, n: int) -> int
    decreases n,
{
    if n <= 0 {
        0
    } else {
        phases_sum(phases, n - 1) + phase_sum(phases[n - 1])
    }
}

/// A statistic on a part of the frames; `all` is what all parts cost.
pub open spec fn phase_sums_up(s: PhaseStat, p: PhaseSamples, all: int) -> bool {
    let st = crate::measure::stat_of(as_measures(p.ns@));
    &&& s.phase@ == p.phase@
    &&& s.p50_ms == narrowed(st.p50 as int)
    &&& s.p95_ms == narrowed(st.p95 as int)
    &&& s.max_ms == narrowed(st.max as int)
    &&& s.share == if all > 0 {
        narrowed(phase_sum(p) * crate::measure::UNIT / all)
    } else {
        0
    }
}

/// The parts of the frames can be summed up.
pub open spec fn phases_fit(phases: Seq<PhaseSamples>) -> bool {
    &&& phases.len() <= 1000
    &&& forall|k: int| 0 <= k < phases.len() ==> (#[trigger] phases[k]).ns@.len() <= 1_000_000_000
}

/// More than a part of the frames can cost.
pub const PHASE_LIMIT: i128 = 18_446_744_073_709_551_616_000_000_000;

fn measures_of(p: &PhaseSamples) -> (xs: Vec<i128>)
    ensures
        xs@ == as_measures(p.ns@),
{
    let mut xs: Vec<i128> = Vec::new();
    let mut k: usize = 0;
    while k < p.ns.len()
        invariant
            k <= p.ns@.len(),
            xs@ =~= as_measures(p.ns@).take(k as int),
        decreases p.ns@.len() - k,
    {
        xs.push(p.ns[k] as i128);
        k += 1;
    }
    assert(as_measures(p.ns@).take(k as int) =~= as_measures(p.ns@));
    xs
}

fn sum_phase(p: &PhaseSamples) -> (r: i128)
    requires
        p.ns@.len() <= 1_000_000_000,
    ensures
        r == phase_sum(*p),
        0 <= r <= PHASE_LIMIT,
{
    let ghost xs = as_measures(p.ns@);
    let mut r: i128 = 0;
    let mut k: usize = 0;
    while k < p.ns.len()
        invariant
            k <= p.ns@.len(),
            p.ns@.len() <= 1_000_000_000,
            xs == as_measures(p.ns@),
            r == crate::measure::sum_of(xs, k as int),
            0 <= r <= 18_446_744_073_709_551_616 * k,
        decreases p.ns@.len() - k,
    {
        let x: u64 = p.ns[k];
        assert(xs[k as int] == x as i128);
        r = r + (x as i128);
        k += 1;
    }
    r
}

fn sum_phases(phases: &Vec<PhaseSamples>) -> (r: i128)
    requires
        phases_fit(phases@),
    ensures
        r == phases_sum(phases@, phases@.len() as int),
        0 <= r <= PHASE_LIMIT * 1000,
{
    let mut r: i128 = 0;
    let mut k: usize = 0;
    while k < phases.len()
        invariant
            k <= phases@.len(),
            phases_fit(phases@),
            r == phases_sum(phases@, k as int),
            0 <= r <= 18_446_744_073_709_551_616_000_000_000 * k,
        decreases phases@.len() - k,
    {
        assert(phases@[k as int].ns@.len() <= 1_000_000_000);
        r = r + sum_phase(&phases[k]);
        k += 1;
    }
    r
}

fn phase_stat(p: &PhaseSamples, all: i128) -> (s: PhaseStat)
    requires
        p.ns@.len() <= 1_000_000_000,
        0 <= all,
    ensures
        phase_sums_up(s, *p, all as int),
{
    let xs = measures_of(p);
    let st = pctl_stat(&xs);
    let sum: i128 = sum_phase(p);
    let share: i64 = if all > 0 {
        narrow(sum * crate::measure::UNIT / all)
    } else {
        0
    };
    PhaseStat {
        phase: copy_of(&p.phase),
        p50_ms: narrow(st.p50),
        p95_ms: narrow(st.p95),
        max_ms: narrow(st.max),
        share,
    }
}

/// What the parts of the frames cost, and the share of each in what all of them
/// cost.
pub fn compute_phases(phases: &Vec<PhaseSamples>) -> (out: Vec<PhaseStat>)
    requires
        phases_fit(phases@),
    ensures
        out@.len() == phases@.len(),
        forall|k: int|
            0 <= k < phases@.len() ==> phase_sums_up(
                #[trigger] out@[k],
                phases@[k],
                phases_sum(phases@, phases@.len() as int),
            ),
{
    let all: i128 = sum_phases(phases);
    let mut out: Vec<PhaseStat> = Vec::new();
    let mut k: usize = 0;
    while k < phases.len()
        invariant
            k <= phases@.len(),
            out@.len() == k,
            phases_fit(phases@),
            all == phases_sum(phases@, phases@.len() as int),
            0 <= all,
            forall|j: int|
                0 <= j < k ==> phase_sums_up(#[trigger] out@[j], phases@[j], all as int),
        decreases phases@.len() - k,
    {
        assert(phases@[k as int].ns@.len() <= 1_000_000_000);
        out.push(phase_stat(&phases[k], all));
        k += 1;
    }
    out
}

} // verus!
