//! Benchmark scenarios: what one asks for, how its steps are carried out, and when
//! a run counts. Nothing here judges a number; a run is valid where it completed
//! and met the conditions that it requires.

use vstd::prelude::*;

use crate::commands::Key;
use crate::events::{
    compute_frame_gaps, compute_jobs, compute_latencies, compute_phases, narrow, PhaseSamples,
    RelEvent,
};
use crate::measure::{pctl_stat, write_fixed};
use crate::model::Thumb;
use crate::report::{CondResult, Counters, ProcPoint, QueuePoint, Summary, TickOver, TickStat};
use crate::start::Options;
use crate::state::Switchblade;
use crate::text::{
    begins_with, chars_of, in_quotes, join_path, part_of, read_count, reads_as_number, same,
};
use crate::tuning::{AnimLevel, Tuning};

verus! {

/// A scenario: a set-up, steps, and what must have happened for a run to count.
pub struct Scenario {
    pub name: String,
    pub intent: String,
    pub setup: Setup,
    pub step: Vec<Step>,
    pub validity: Validity,
    pub tuning: Tuning,
}

/// What a scenario runs on.
pub struct Setup {
    /// Files below the directory of fixtures.
    pub fixtures: Vec<String>,
    /// Paths; where there are any, the fixtures do not matter.
    pub inputs: Vec<String>,
    pub animation: String,
    /// The window's width and height, in millionths of a pixel.
    pub viewport: (i128, i128),
    pub demo: bool,
    /// How many frames a second are shown while something moves, in millionths.
    pub refresh_hz: u64,
    /// How long a run may take, in nanoseconds.
    pub max_wall: u64,
}

/// One step. Times are in nanoseconds, distances in millionths of a pixel, and the
/// pinch in billionths.
pub struct Step {
    pub action: String,
    pub secs: u64,
    pub cond: String,
    pub n: usize,
    pub timeout: u64,
    pub key: String,
    pub target: String,
    pub dy: i128,
    pub delta: i64,
}

/// What must have happened for a run to count.
pub struct Validity {
    pub require: Vec<String>,
}

impl Default for Validity {
    fn default() -> (v: Self)
        ensures
            v.require@.len() == 0,
    {
        Validity { require: Vec::new() }
    }
}

/// The animation of a scenario that names none.
pub fn default_animation() -> (s: String)
    ensures
        s@ == "normal"@,
{
    "normal".to_owned()
}

/// The window of a scenario that names none.
pub fn default_viewport() -> (v: (i128, i128))
    ensures
        v == (1_280_000_000i128, 800_000_000i128),
{
    (1_280_000_000, 800_000_000)
}

/// The refresh rate of a scenario that names none: sixty a second.
pub fn default_refresh() -> (hz: u64)
    ensures
        hz == 60_000_000,
{
    60_000_000
}

/// How long a run may take where the scenario does not say: two minutes.
pub fn default_max_wall() -> (ns: u64)
    ensures
        ns == 120_000_000_000,
{
    120_000_000_000
}

/// How long a frame is shown at a refresh rate; a rate below one counts as one.
pub open spec fn frame_time(hz: u64) -> int {
    if hz < 1_000_000 {
        1_000_000_000
    } else {
        1_000_000_000_000_000int / (hz as int)
    }
}

/// How long a frame is shown at a refresh rate.
pub fn frame_period(hz: u64) -> (ns: u64)
    ensures
        ns == frame_time(hz),
{
    if hz < 1_000_000 {
        1_000_000_000
    } else {
        1_000_000_000_000_000 / hz
    }
}

/// The longest that a run may take: at least a second.
pub fn wall_limit(max_wall: u64) -> (ns: u64)
    ensures
        ns == if max_wall < 1_000_000_000 {
            1_000_000_000
        } else {
            max_wall
        },
{
    if max_wall < 1_000_000_000 {
        1_000_000_000
    } else {
        max_wall
    }
}

/// What the application is started with for a scenario: no configuration is read,
/// so that none can steer the run.
pub fn bench_options(setup: &Setup, inputs: Vec<String>, tuning: Tuning) -> (o: Options)
    ensures
        o.animation == Some(
            match crate::tuning::anim_level_named(setup.animation@) {
                Some(a) => a,
                None => AnimLevel::Normal,
            },
        ),
        o.inputs == inputs,
        o.demo == setup.demo,
        o.no_config,
        o.tuning == Some(tuning),
        o.fullscreen is None,
        o.sort is None,
        !o.no_storyboards,
{
    let animation = match AnimLevel::parse(setup.animation.as_str()) {
        Some(a) => a,
        None => AnimLevel::Normal,
    };
    Options {
        animation: Some(animation),
        inputs,
        demo: setup.demo,
        fullscreen: None,
        no_config: true,
        tuning: Some(tuning),
        no_storyboards: false,
        sort: None,
    }
}

/// The key that a step names.
pub open spec fn key_named(k: Seq<char>) -> Option<Key> {
    if k == "space"@ {
        Some(Key::Space)
    } else if k == "escape"@ || k == "esc"@ {
        Some(Key::Escape)
    } else if k == "enter"@ || k == "return"@ {
        Some(Key::Enter)
    } else if k == "tab"@ {
        Some(Key::Tab)
    } else if k == "left"@ {
        Some(Key::Left)
    } else if k == "right"@ {
        Some(Key::Right)
    } else if k == "up"@ {
        Some(Key::Up)
    } else if k == "down"@ {
        Some(Key::Down)
    } else if k.len() == 1 {
        Some(Key::Char(k[0]))
    } else {
        None
    }
}

/// The key that a step names; a single character names itself.
pub fn parse_key(k: &str) -> (r: Option<Key>)
    ensures
        r == key_named(k@),
{
    if same(k, "space") {
        Some(Key::Space)
    } else if same(k, "escape") || same(k, "esc") {
        Some(Key::Escape)
    } else if same(k, "enter") || same(k, "return") {
        Some(Key::Enter)
    } else if same(k, "tab") {
        Some(Key::Tab)
    } else if same(k, "left") {
        Some(Key::Left)
    } else if same(k, "right") {
        Some(Key::Right)
    } else if same(k, "up") {
        Some(Key::Up)
    } else if same(k, "down") {
        Some(Key::Down)
    } else {
        let v = chars_of(k);
        if v.len() == 1 {
            Some(Key::Char(v[0]))
        } else {
            None
        }
    }
}

/// Where a character first is, from `from` on; past the text where it is not.
pub open spec fn first_of(s: Seq<char>, c: char, from: int) -> int
    decreases s.len() - from,
{
    if from >= s.len() || s[from] == c {
        from
    } else {
        first_of(s, c, from + 1)
    }
}

fn find_char(v: &Vec<char>, c: char) -> (i: usize)
    ensures
        i == first_of(v@, c, 0),
        i <= v@.len(),
{
    let mut i: usize = 0;
    while i < v.len() && v[i] != c
        invariant
            i <= v@.len(),
            first_of(v@, c, i as int) == first_of(v@, c, 0),
        decreases v@.len() - i,
    {
        i += 1;
    }
    i
}

/// A value as it is written into a table of settings: truth values and numbers as
/// they are, the rest in quotes.
pub open spec fn setting_value(v: Seq<char>) -> Seq<char> {
    if v == "true"@ || v == "false"@ || crate::text::is_number(v) {
        v
    } else {
        crate::text::debug_text(v)
    }
}

/// The line of a table of settings that an override is.
pub open spec fn setting_line(kv: Seq<char>) -> Result<Seq<char>, Seq<char>> {
    let i = first_of(kv, '=', 0);
    if i >= kv.len() {
        Err("--set expects key=value, got "@ + crate::text::debug_text(kv))
    } else {
        Ok(
            kv.subrange(0, i) + " = "@ + setting_value(kv.subrange(i + 1, kv.len() as int))
                + "\n"@,
        )
    }
}

/// The table that the first `n` overrides are; the first that is none fails it.
pub open spec fn settings_table(sets: Seq<String>, n: int) -> Result<Seq<char>, Seq<char>>
    decreases n,
{
    if n <= 0 {
        Ok(Seq::empty())
    } else {
        match settings_table(sets, n - 1) {
            Err(e) => Err(e),
            Ok(t) => match setting_line(sets[n - 1]@) {
                Err(e) => Err(e),
                Ok(l) => Ok(t + l),
            },
        }
    }
}

/// The text of a result that holds strings.
pub open spec fn texts_of(r: Result<String, String>) -> Result<Seq<char>, Seq<char>> {
    match r {
        Ok(t) => Ok(t@),
        Err(e) => Err(e@),
    }
}

fn write_value(v: String) -> (t: String)
    ensures
        t@ == setting_value(v@),
{
    if same(v.as_str(), "true") || same(v.as_str(), "false") || reads_as_number(v.as_str()) {
        v
    } else {
        in_quotes(v.as_str())
    }
}

fn write_setting(kv: &str) -> (r: Result<String, String>)
    ensures
        texts_of(r) == setting_line(kv@),
{
    let v = chars_of(kv);
    let i: usize = find_char(&v, '=');
    if i >= v.len() {
        let mut e = "--set expects key=value, got ".to_owned();
        e.append(in_quotes(kv).as_str());
        Err(e)
    } else {
        let mut t = part_of(&v, 0, i);
        t.append(" = ");
        t.append(write_value(part_of(&v, i + 1, v.len())).as_str());
        t.append("\n");
        Ok(t)
    }
}

/// The table of settings that overrides of the form `key=value` are.
pub fn set_patch(sets: &Vec<String>) -> (r: Result<String, String>)
    ensures
        texts_of(r) == settings_table(sets@, sets@.len() as int),
{
    let mut t = String::new();
    let mut k: usize = 0;
    assert(t@ =~= Seq::empty());
    while k < sets.len()
        invariant
            k <= sets@.len(),
            settings_table(sets@, k as int) == Ok::<Seq<char>, Seq<char>>(t@),
        decreases sets@.len() - k,
    {
        match write_setting(sets[k].as_str()) {
            Ok(l) => {
                t.append(l.as_str());
            },
            Err(e) => {
                proof {
                    failed_table_stays(sets@, k + 1, sets@.len() as int);
                }
                return Err(e);
            },
        }
        k += 1;
    }
    Ok(t)
}

proof fn failed_table_stays(sets: Seq<String>, a: int, b: int)
    requires
        0 <= a <= b,
        settings_table(sets, a) is Err,
    ensures
        settings_table(sets, b) == settings_table(sets, a),
    decreases b - a,
{
    if a < b {
        failed_table_stays(sets, a, b - 1);
    }
}

/// The texts of some strings.
pub open spec fn strings_of(v: Seq<String>) -> Seq<Seq<char>> {
    v.map_values(|s: String| s@)
}

/// The fixtures as paths below their directory.
pub open spec fn fixtures_below(fixtures: Seq<String>, dir: Seq<char>) -> Seq<Seq<char>> {
    fixtures.map_values(|f: String| crate::text::joined_path(dir, f@))
}

/// The first that is not there, from `from` on.
pub open spec fn first_missing(there: Seq<bool>, from: int) -> int
    decreases there.len() - from,
{
    if from >= there.len() || !there[from] {
        from
    } else {
        first_missing(there, from + 1)
    }
}

/// What a scenario runs on: its inputs, or else nothing for a demonstration, or
/// else its fixtures, all of which must be there.
pub open spec fn inputs_for(setup: Setup, dir: Seq<char>, there: Seq<bool>) -> Result<
    Seq<Seq<char>>,
    Seq<char>,
> {
    let paths = fixtures_below(setup.fixtures@, dir);
    let k = first_missing(there, 0);
    if setup.inputs@.len() > 0 {
        Ok(strings_of(setup.inputs@))
    } else if setup.demo {
        Ok(Seq::empty())
    } else if k < paths.len() {
        Err(
            "fixture not found: "@ + paths[k]
                + " (generate with benchmarks/fixtures/generate.sh)"@,
        )
    } else if paths.len() == 0 {
        Err("setup has neither inputs nor fixtures nor demo"@)
    } else {
        Ok(paths)
    }
}

/// The fixtures of a scenario, as paths below their directory.
pub fn fixture_paths(setup: &Setup, dir: &str) -> (v: Vec<String>)
    ensures
        strings_of(v@) == fixtures_below(setup.fixtures@, dir@),
{
    let mut v: Vec<String> = Vec::new();
    let mut k: usize = 0;
    while k < setup.fixtures.len()
        invariant
            k <= setup.fixtures@.len(),
            strings_of(v@) =~= fixtures_below(setup.fixtures@, dir@).take(k as int),
        decreases setup.fixtures@.len() - k,
    {
        let ghost before = strings_of(v@);
        v.push(join_path(dir, setup.fixtures[k].as_str()));
        k += 1;
        proof {
            let all = fixtures_below(setup.fixtures@, dir@);
            assert(strings_of(v@) =~= before.push(all[k - 1]));
            assert(all.take(k as int) =~= all.take(k - 1).push(all[k - 1]));
        }
    }
    assert(fixtures_below(setup.fixtures@, dir@).take(k as int) =~= fixtures_below(
        setup.fixtures@,
        dir@,
    ));
    v
}

fn copies(v: &Vec<String>) -> (r: Vec<String>)
    ensures
        strings_of(r@) == strings_of(v@),
{
    let mut r: Vec<String> = Vec::new();
    let mut k: usize = 0;
    while k < v.len()
        invariant
            k <= v@.len(),
            strings_of(r@) =~= strings_of(v@).take(k as int),
        decreases v@.len() - k,
    {
        let ghost before = strings_of(r@);
        r.push(v[k].as_str().to_owned());
        k += 1;
        proof {
            let all = strings_of(v@);
            assert(strings_of(r@) =~= before.push(all[k - 1]));
            assert(all.take(k as int) =~= all.take(k - 1).push(all[k - 1]));
        }
    }
    assert(strings_of(v@).take(k as int) =~= strings_of(v@));
    r
}

/// What a scenario runs on, given which of its fixtures are there.
pub fn resolve_inputs(setup: &Setup, dir: &str, there: &Vec<bool>) -> (r: Result<
    Vec<String>,
    String,
>)
    requires
        there@.len() == setup.fixtures@.len(),
    ensures
        match r {
            Ok(v) => inputs_for(*setup, dir@, there@) == Ok::<Seq<Seq<char>>, Seq<char>>(
                strings_of(v@),
            ),
            Err(e) => inputs_for(*setup, dir@, there@) == Err::<Seq<Seq<char>>, Seq<char>>(e@),
        },
{
    if setup.inputs.len() > 0 {
        return Ok(copies(&setup.inputs));
    }
    if setup.demo {
        let v: Vec<String> = Vec::new();
        assert(strings_of(v@) =~= Seq::empty());
        return Ok(v);
    }
    let paths = fixture_paths(setup, dir);
    assert(strings_of(paths@).len() == paths@.len());
    let mut k: usize = 0;
    while k < there.len() && there[k]
        invariant
            k <= there@.len(),
            first_missing(there@, k as int) == first_missing(there@, 0),
        decreases there@.len() - k,
    {
        k += 1;
    }
    if k < paths.len() {
        assert(strings_of(paths@)[k as int] == paths@[k as int]@);
        let mut e = "fixture not found: ".to_owned();
        e.append(paths[k].as_str());
        e.append(" (generate with benchmarks/fixtures/generate.sh)");
        return Err(e);
    }
    if paths.len() == 0 {
        return Err("setup has neither inputs nor fixtures nor demo".to_owned());
    }
    Ok(paths)
}

/// The place in the library that a step's target names.
pub open spec fn target_place(target: Seq<char>, clips: int, selected: int) -> Result<
    int,
    Seq<char>,
> {
    if clips == 0 {
        Err("no clips to target"@)
    } else if target == "first"@ || target == ""@ {
        Ok(0)
    } else if target == "last"@ {
        Ok(clips - 1)
    } else if target == "selected"@ {
        Ok(selected)
    } else if crate::text::begins(target, "index:"@) {
        match crate::text::count_in(target.subrange(6, target.len() as int)) {
            Some(i) => if i < clips {
                Ok(i as int)
            } else {
                Err("bad target: "@ + target)
            },
            None => Err("bad target: "@ + target),
        }
    } else {
        Err("bad target: "@ + target)
    }
}

fn bad_target(target: &str) -> (e: String)
    ensures
        e@ == "bad target: "@ + target@,
{
    let mut e = "bad target: ".to_owned();
    e.append(target);
    e
}

/// The place in the library that a step's target names.
pub fn target_index(target: &str, clips: usize, selected: usize) -> (r: Result<usize, String>)
    ensures
        match r {
            Ok(i) => target_place(target@, clips as int, selected as int) == Ok::<int, Seq<char>>(
                i as int,
            ),
            Err(e) => target_place(target@, clips as int, selected as int) == Err::<
                int,
                Seq<char>,
            >(e@),
        },
{
    if clips == 0 {
        return Err("no clips to target".to_owned());
    }
    if same(target, "first") || same(target, "") {
        return Ok(0);
    }
    if same(target, "last") {
        return Ok(clips - 1);
    }
    if same(target, "selected") {
        return Ok(selected);
    }
    if !begins_with(target, "index:") {
        return Err(bad_target(target));
    }
    let v = chars_of(target);
    proof {
        reveal_strlit("index:");
    }
    let rest = part_of(&v, 6, v.len());
    match read_count(rest.as_str()) {
        Some(i) => if i < clips {
            Ok(i)
        } else {
            Err(bad_target(target))
        },
        None => Err(bad_target(target)),
    }
}

/// What a step comes to.
#[derive(Clone, Copy, PartialEq, Eq, Structural, Debug)]
pub enum Plan {
    /// Show frames for so long.
    Wait { ns: u64 },
    /// Show frames until a condition is met, at most so long.
    WaitUntil { ns: u64 },
    Press { key: Key },
    /// Move the pointer to the middle of a tile.
    Hover { tile: usize },
    Click { tile: usize },
    Scroll { dy: i128 },
    /// A pinch comes as a stream, one part to a frame.
    Pinch { delta: i64, times: usize },
}

/// How long a step waits for its condition.
pub open spec fn patience(timeout: u64) -> u64 {
    if timeout > 0 {
        timeout
    } else {
        30_000_000_000
    }
}

/// What a step comes to.
pub open spec fn planned(step: Step, clips: int, selected: int) -> Result<Plan, Seq<char>> {
    let a = step.action@;
    if a == "wait"@ {
        Ok(Plan::Wait { ns: step.secs })
    } else if a == "wait_until"@ {
        Ok(Plan::WaitUntil { ns: patience(step.timeout) })
    } else if a == "key"@ {
        match key_named(step.key@) {
            Some(key) => Ok(Plan::Press { key }),
            None => Err("unknown key: "@ + crate::text::debug_text(step.key@)),
        }
    } else if a == "hover"@ {
        match target_place(step.target@, clips, selected) {
            Ok(i) => Ok(Plan::Hover { tile: i as usize }),
            Err(e) => Err(e),
        }
    } else if a == "click"@ {
        match target_place(step.target@, clips, selected) {
            Ok(i) => Ok(Plan::Click { tile: i as usize }),
            Err(e) => Err(e),
        }
    } else if a == "scroll"@ {
        Ok(Plan::Scroll { dy: step.dy })
    } else if a == "pinch"@ {
        Ok(
            Plan::Pinch {
                delta: step.delta,
                times: if step.n < 1 {
                    1
                } else {
                    step.n
                },
            },
        )
    } else {
        Err("unknown action: "@ + a)
    }
}

/// What a step comes to, or why it cannot be carried out.
pub fn plan(step: &Step, clips: usize, selected: usize) -> (r: Result<Plan, String>)
    ensures
        match r {
            Ok(p) => planned(*step, clips as int, selected as int) == Ok::<Plan, Seq<char>>(p),
            Err(e) => planned(*step, clips as int, selected as int) == Err::<Plan, Seq<char>>(e@),
        },
{
    let a = step.action.as_str();
    if same(a, "wait") {
        Ok(Plan::Wait { ns: step.secs })
    } else if same(a, "wait_until") {
        let ns: u64 = if step.timeout > 0 {
            step.timeout
        } else {
            30_000_000_000
        };
        Ok(Plan::WaitUntil { ns })
    } else if same(a, "key") {
        match parse_key(step.key.as_str()) {
            Some(key) => Ok(Plan::Press { key }),
            None => {
                let mut e = "unknown key: ".to_owned();
                e.append(in_quotes(step.key.as_str()).as_str());
                Err(e)
            },
        }
    } else if same(a, "hover") {
        match target_index(step.target.as_str(), clips, selected) {
            Ok(tile) => Ok(Plan::Hover { tile }),
            Err(e) => Err(e),
        }
    } else if same(a, "click") {
        match target_index(step.target.as_str(), clips, selected) {
            Ok(tile) => Ok(Plan::Click { tile }),
            Err(e) => Err(e),
        }
    } else if same(a, "scroll") {
        Ok(Plan::Scroll { dy: step.dy })
    } else if same(a, "pinch") {
        let times: usize = if step.n < 1 {
            1
        } else {
            step.n
        };
        Ok(Plan::Pinch { delta: step.delta, times })
    } else {
        let mut e = "unknown action: ".to_owned();
        e.append(a);
        Err(e)
    }
}

/// What is next in a step that waits.
pub enum Turn {
    /// Show one more frame.
    Frame,
    Done,
    Failed { why: String },
}

/// What is next while a step waits until `until`; `spent` says that the run has
/// taken as long as it may.
pub fn wait_turn(now: u64, until: u64, spent: bool) -> (t: Turn)
    ensures
        t is Done <==> now >= until,
        t is Failed <==> now < until && spent,
        t matches Turn::Failed { why } ==> why@ == "max_wall exceeded during wait"@,
{
    if now >= until {
        Turn::Done
    } else if spent {
        Turn::Failed { why: "max_wall exceeded during wait".to_owned() }
    } else {
        Turn::Frame
    }
}

/// Why a condition was waited for in vain.
pub open spec fn timed_out(cond: Seq<char>, ns: u64) -> Seq<char> {
    "wait_until '"@ + cond + "' timed out after "@ + crate::measure::fixed(
        ns as int,
        1_000_000_000,
        1,
        false,
    ) + "s"@
}

/// What is next while a step waits for its condition.
pub fn wait_until_turn(
    met: bool,
    now: u64,
    deadline: u64,
    spent: bool,
    cond: &str,
    ns: u64,
) -> (t: Turn)
    ensures
        t is Done <==> met,
        t is Failed <==> !met && (now >= deadline || spent),
        t matches Turn::Failed { why } ==> why@ == timed_out(cond@, ns),
{
    if met {
        Turn::Done
    } else if now >= deadline || spent {
        let mut why = "wait_until '".to_owned();
        why.append(cond);
        why.append("' timed out after ");
        why.append(write_fixed(ns as i128, 1_000_000_000, 1, false).as_str());
        why.append("s");
        Turn::Failed { why }
    } else {
        Turn::Frame
    }
}

/// How long to sleep before the next frame: until the screen would show one while
/// something moves, and until the application asks for one otherwise, but never
/// longer than a tenth of a second.
pub open spec fn nap(animating: bool, last: u64, period: u64, asked: Option<u64>, now: u64) -> int {
    let target = if animating {
        last + period
    } else {
        match asked {
            Some(t) => t as int,
            None => now as int,
        }
    };
    if target <= now {
        0
    } else if target - now > 100_000_000 {
        100_000_000
    } else {
        target - now
    }
}

/// How long to sleep before the next frame.
pub fn frame_nap(animating: bool, last: u64, period: u64, asked: Option<u64>, now: u64) -> (ns: u64)
    ensures
        ns == nap(animating, last, period, asked, now),
{
    let target: u128 = if animating {
        (last as u128) + (period as u128)
    } else {
        match asked {
            Some(t) => t as u128,
            None => now as u128,
        }
    };
    let at: u128 = now as u128;
    if target <= at {
        0
    } else if target - at > 100_000_000 {
        100_000_000
    } else {
        (target - at) as u64
    }
}

/// The time that a frame is told has passed: what has, but never more than a
/// twentieth of a second.
pub fn frame_step(last: u64, now: u64) -> (ns: u64)
    ensures
        ns == if now <= last {
            0
        } else if now - last > 50_000_000 {
            50_000_000
        } else {
            (now - last) as u64
        },
{
    if now <= last {
        0
    } else if now - last > 50_000_000 {
        50_000_000
    } else {
        now - last
    }
}

impl crate::state::State {
    /// Whether a condition that a scenario may wait for holds.
    pub open spec fn meets(self, cond: Seq<char>, n: int, animating: bool) -> bool {
        if cond == "library_count"@ {
            self.clips.len() >= if n < 1 {
                1
            } else {
                n
            }
        } else if cond == "ingest_closed"@ {
            !self.refs.ingesting
        } else if cond == "selected_served"@ {
            self.lanes.live_sel matches Some(l) && l.first_frame.is_some()
        } else if cond == "hover_served"@ {
            self.lanes.live_hover matches Some(l) && l.first_frame.is_some()
        } else if cond == "grid_settled"@ {
            !animating
        } else if cond == "cache_thumbs"@ {
            self.jobs.thumbs_cached >= n
        } else if cond == "jobs_done"@ {
            self.jobs.done >= n
        } else if cond == "sweep_drained"@ {
            !self.refs.ingesting && self.jobs.done >= self.jobs.total
        } else if cond == "selected_anim_requested"@ {
            self.selected_clip() matches Some(c) && !(c.anim is Absent)
        } else if cond == "selected_anim"@ {
            self.selected_clip() matches Some(c) && c.anim is Ready
        } else {
            false
        }
    }
}

impl Switchblade {
    /// Whether a condition that a scenario may wait for holds.
    pub fn cond_met(&self, cond: &str, n: usize, animating: bool) -> (r: bool)
        ensures
            r == self@.meets(cond@, n as int, animating),
    {
        if same(cond, "library_count") {
            let least: usize = if n < 1 {
                1
            } else {
                n
            };
            self.clips.len() >= least
        } else if same(cond, "ingest_closed") {
            !self.refs.ingesting
        } else if same(cond, "selected_served") {
            match self.lanes.live_sel {
                Some(l) => l.first_frame.is_some(),
                None => false,
            }
        } else if same(cond, "hover_served") {
            match self.lanes.live_hover {
                Some(l) => l.first_frame.is_some(),
                None => false,
            }
        } else if same(cond, "grid_settled") {
            !animating
        } else if same(cond, "cache_thumbs") {
            self.jobs.thumbs_cached >= n as u64
        } else if same(cond, "jobs_done") {
            self.jobs.done >= n as u64
        } else if same(cond, "sweep_drained") {
            !self.refs.ingesting && self.jobs.done >= self.jobs.total
        } else if same(cond, "selected_anim_requested") {
            if self.refs.selected < self.clips.len() {
                match self.clips[self.refs.selected].anim {
                    Thumb::Absent => false,
                    _ => true,
                }
            } else {
                false
            }
        } else if same(cond, "selected_anim") {
            if self.refs.selected < self.clips.len() {
                match self.clips[self.refs.selected].anim {
                    Thumb::Ready { .. } => true,
                    _ => false,
                }
            } else {
                false
            }
        } else {
            false
        }
    }
}

/// What the parts of all frames so far cost, in nanoseconds.
#[derive(Clone, Copy, PartialEq, Eq, Structural, Debug)]
pub struct PhaseClock {
    pub ingest_install: u64,
    pub drain_media: u64,
    pub live: u64,
}

/// How deep the queues are.
#[derive(Clone, Copy, PartialEq, Eq, Structural, Debug)]
pub struct Depths {
    pub thumbs: u64,
    pub gen: u64,
    pub anims: u64,
    pub inflight: u64,
    pub gen_running: u64,
}

/// A condition, and when it was first met, in millionths of a second.
pub struct Met {
    pub cond: String,
    pub at: i64,
}

/// What is written down while a scenario runs.
pub struct Rig {
    pub thumbs_curve: Vec<(i64, u64)>,
    pub last_thumbs: u64,
    /// What each frame cost, in nanoseconds.
    pub ticks: Vec<u64>,
    pub ingest_install: Vec<u64>,
    pub drain_media: Vec<u64>,
    pub live: Vec<u64>,
    pub last_phase: PhaseClock,
    pub queue_curve: Vec<QueuePoint>,
    pub last_depths: Option<Depths>,
    pub conds: Vec<Met>,
}

/// What is written down while a scenario runs, as sequences.
pub struct RigModel {
    pub thumbs_curve: Seq<(i64, u64)>,
    pub last_thumbs: u64,
    pub ticks: Seq<u64>,
    pub ingest_install: Seq<u64>,
    pub drain_media: Seq<u64>,
    pub live: Seq<u64>,
    pub last_phase: PhaseClock,
    pub queue_curve: Seq<QueuePoint>,
    pub last_depths: Option<Depths>,
    pub conds: Seq<(Seq<char>, i64)>,
}

/// Conditions that were met, as characters.
pub open spec fn conds_of(v: Seq<Met>) -> Seq<(Seq<char>, i64)> {
    v.map_values(|m: Met| (m.cond@, m.at))
}

impl View for Rig {
    type V = RigModel;

    open spec fn view(&self) -> RigModel {
        RigModel {
            thumbs_curve: self.thumbs_curve@,
            last_thumbs: self.last_thumbs,
            ticks: self.ticks@,
            ingest_install: self.ingest_install@,
            drain_media: self.drain_media@,
            live: self.live@,
            last_phase: self.last_phase,
            queue_curve: self.queue_curve@,
            last_depths: self.last_depths,
            conds: conds_of(self.conds@),
        }
    }
}

/// What came on top, where the count only goes up.
pub open spec fn gain(now: u64, before: u64) -> u64 {
    if now > before {
        (now - before) as u64
    } else {
        0
    }
}

/// The queues at a moment.
pub open spec fn queue_point(at: i64, d: Depths, pending: u64) -> QueuePoint {
    QueuePoint {
        at_s: at,
        thumbs: d.thumbs,
        gen: d.gen,
        anims: d.anims,
        inflight: d.inflight,
        gen_running: d.gen_running,
        pending,
    }
}

/// How deep the queues were at a point.
pub open spec fn depths_at(q: QueuePoint) -> Depths {
    Depths {
        thumbs: q.thumbs,
        gen: q.gen,
        anims: q.anims,
        inflight: q.inflight,
        gen_running: q.gen_running,
    }
}

impl RigModel {
    /// After a frame: what it cost, and a point of a curve where that changed.
    pub open spec fn ticked(
        self,
        at: i64,
        cost: u64,
        thumbs: u64,
        clock: PhaseClock,
        depths: Depths,
        pending: u64,
    ) -> RigModel {
        RigModel {
            thumbs_curve: if thumbs != self.last_thumbs {
                self.thumbs_curve.push((at, thumbs))
            } else {
                self.thumbs_curve
            },
            last_thumbs: thumbs,
            ticks: self.ticks.push(cost),
            ingest_install: self.ingest_install.push(
                gain(clock.ingest_install, self.last_phase.ingest_install),
            ),
            drain_media: self.drain_media.push(
                gain(clock.drain_media, self.last_phase.drain_media),
            ),
            live: self.live.push(gain(clock.live, self.last_phase.live)),
            last_phase: clock,
            queue_curve: if self.last_depths != Some(depths) {
                self.queue_curve.push(queue_point(at, depths, pending))
            } else {
                self.queue_curve
            },
            last_depths: Some(depths),
            conds: self.conds,
        }
    }

    /// Whether a condition was met.
    pub open spec fn has_met(self, cond: Seq<char>) -> bool {
        exists|k: int| 0 <= k < self.conds.len() && (#[trigger] self.conds[k]).0 == cond
    }

    /// After a condition was met; the first time counts.
    pub open spec fn recorded(self, cond: Seq<char>, at: i64) -> RigModel {
        if self.has_met(cond) {
            self
        } else {
            RigModel { conds: self.conds.push((cond, at)), ..self }
        }
    }

    /// A curve has a point where its value changed, and nowhere else.
    pub open spec fn wf(self) -> bool {
        &&& forall|j: int, k: int|
            0 <= j && k == j + 1 && k < self.thumbs_curve.len() ==> (
            #[trigger] self.thumbs_curve[j]).1 != (#[trigger] self.thumbs_curve[k]).1
        &&& self.thumbs_curve.len() > 0 ==> self.thumbs_curve.last().1 == self.last_thumbs
        &&& forall|j: int, k: int|
            0 <= j && k == j + 1 && k < self.queue_curve.len() ==> depths_at(
                #[trigger] self.queue_curve[j],
            ) != depths_at(#[trigger] self.queue_curve[k])
        &&& self.queue_curve.len() > 0 ==> self.last_depths == Some(
            depths_at(self.queue_curve.last()),
        )
        &&& self.ingest_install.len() == self.ticks.len()
        &&& self.drain_media.len() == self.ticks.len()
        &&& self.live.len() == self.ticks.len()
        &&& forall|j: int, k: int|
            0 <= j < k < self.conds.len() ==> (#[trigger] self.conds[j]).0 != (
            #[trigger] self.conds[k]).0
    }
}

impl Rig {
    /// Nothing is written down yet.
    pub fn new() -> (r: Self)
        ensures
            r@.wf(),
            r@.thumbs_curve.len() == 0,
            r@.last_thumbs == u64::MAX,
            r@.ticks.len() == 0,
            r@.last_phase == (PhaseClock { ingest_install: 0, drain_media: 0, live: 0 }),
            r@.queue_curve.len() == 0,
            r@.last_depths is None,
            r@.conds.len() == 0,
    {
        Rig {
            thumbs_curve: Vec::new(),
            last_thumbs: u64::MAX,
            ticks: Vec::new(),
            ingest_install: Vec::new(),
            drain_media: Vec::new(),
            live: Vec::new(),
            last_phase: PhaseClock { ingest_install: 0, drain_media: 0, live: 0 },
            queue_curve: Vec::new(),
            last_depths: None,
            conds: Vec::new(),
        }
    }

    /// Writes down a frame: when it was shown, what it cost, how many thumbnails
    /// are cached, what the parts of all frames cost so far, and the queues.
    pub fn tick(
        &mut self,
        at: i64,
        cost: u64,
        thumbs: u64,
        clock: PhaseClock,
        depths: Depths,
        pending: u64,
    )
        requires
            old(self)@.wf(),
        ensures
            final(self)@ == old(self)@.ticked(at, cost, thumbs, clock, depths, pending),
            final(self)@.wf(),
    {
        if thumbs != self.last_thumbs {
            self.thumbs_curve.push((at, thumbs));
        }
        self.last_thumbs = thumbs;
        self.ticks.push(cost);
        let last = self.last_phase;
        self.ingest_install.push(gained(clock.ingest_install, last.ingest_install));
        self.drain_media.push(gained(clock.drain_media, last.drain_media));
        self.live.push(gained(clock.live, last.live));
        self.last_phase = clock;
        let moved = match self.last_depths {
            Some(d) => d != depths,
            None => true,
        };
        if moved {
            self.queue_curve.push(
                QueuePoint {
                    at_s: at,
                    thumbs: depths.thumbs,
                    gen: depths.gen,
                    anims: depths.anims,
                    inflight: depths.inflight,
                    gen_running: depths.gen_running,
                    pending,
                },
            );
        }
        self.last_depths = Some(depths);
    }

    /// Whether a condition was met.
    pub fn met(&self, cond: &str) -> (r: bool)
        ensures
            r == self@.has_met(cond@),
    {
        let ghost all = self@.conds;
        let mut k: usize = 0;
        while k < self.conds.len()
            invariant
                k <= self.conds@.len(),
                all == conds_of(self.conds@),
                forall|j: int| 0 <= j < k ==> (#[trigger] all[j]).0 != cond@,
            decreases self.conds@.len() - k,
        {
            assert(all[k as int].0 == self.conds@[k as int].cond@);
            if same(self.conds[k].cond.as_str(), cond) {
                assert(self@.conds[k as int].0 == cond@);
                return true;
            }
            k += 1;
        }
        false
    }

    /// Writes down that a condition was met; the first time counts.
    pub fn record_cond(&mut self, cond: &str, at: i64)
        requires
            old(self)@.wf(),
        ensures
            final(self)@ == old(self)@.recorded(cond@, at),
            final(self)@.wf(),
    {
        if !self.met(cond) {
            let ghost before = self@;
            self.conds.push(Met { cond: cond.to_owned(), at });
            proof {
                assert(self@.conds =~= before.conds.push((cond@, at)));
                assert forall|j: int, k: int| 0 <= j < k < self@.conds.len() implies (
                #[trigger] self@.conds[j]).0 != (#[trigger] self@.conds[k]).0 by {
                    assert(before.conds[j] == self@.conds[j]);
                    if k < before.conds.len() {
                        assert(before.conds[k] == self@.conds[k]);
                    }
                }
            }
        }
    }
}

fn gained(now: u64, before: u64) -> (r: u64)
    ensures
        r == gain(now, before),
{
    if now > before {
        now - before
    } else {
        0
    }
}

/// How many of the first `n` frames took longer than a threshold.
pub open spec fn over_count(ticks: Seq<u64>, ns: u64, n: int) -> int
    decreases n,
{
    if n <= 0 {
        0
    } else {
        over_count(ticks, ns, n - 1) + (if ticks[n - 1] > ns {
            1int
        } else {
            0
        })
    }
}

fn count_over(ticks: &Vec<u64>, ns: u64) -> (n: u64)
    ensures
        n == over_count(ticks@, ns, ticks@.len() as int),
{
    let len: usize = ticks.len();
    let mut n: u64 = 0;
    let mut k: usize = 0;
    while k < len
        invariant
            k <= len,
            len == ticks@.len(),
            n <= k,
            n == over_count(ticks@, ns, k as int),
        decreases len - k,
    {
        if ticks[k] > ns {
            n += 1;
        }
        k += 1;
    }
    n
}

/// The thresholds that slow frames are counted by, in milliseconds.
pub open spec fn stall_limits() -> Seq<u64> {
    seq![16u64, 50u64, 100u64, 250u64, 1000u64]
}

/// How many frames took longer than each threshold.
pub open spec fn stalls(ticks: Seq<u64>) -> Seq<TickOver> {
    stall_limits().map_values(
        |ms: u64|
            TickOver {
                over_ms: (ms * 1_000_000) as i64,
                count: over_count(ticks, (ms * 1_000_000) as u64, ticks.len() as int) as u64,
            },
    )
}

/// How many frames took longer than each of some thresholds. A percentile hides
/// the few long ones; their count does not.
pub fn tick_over(ticks: &Vec<u64>) -> (v: Vec<TickOver>)
    ensures
        v@ == stalls(ticks@),
{
    let mut v: Vec<TickOver> = Vec::new();
    v.push(TickOver { over_ms: 16_000_000, count: count_over(ticks, 16_000_000) });
    v.push(TickOver { over_ms: 50_000_000, count: count_over(ticks, 50_000_000) });
    v.push(TickOver { over_ms: 100_000_000, count: count_over(ticks, 100_000_000) });
    v.push(TickOver { over_ms: 250_000_000, count: count_over(ticks, 250_000_000) });
    v.push(TickOver { over_ms: 1_000_000_000, count: count_over(ticks, 1_000_000_000) });
    assert(v@ =~= stalls(ticks@));
    v
}

/// How many threads work on media jobs.
pub const MEDIA_WORKERS: u64 = 3;

/// The share of the workers' time that was spent in jobs, in millionths.
pub open spec fn utilisation(busy_us: u64, wall: u64) -> i64 {
    let w = if wall < 1 {
        1
    } else {
        wall as int
    };
    crate::events::narrowed(busy_us * 1_000_000_000 / (w * MEDIA_WORKERS))
}

/// The share of the workers' time that was spent in jobs, of a run that took
/// `wall` nanoseconds.
pub fn worker_utilisation(busy_us: u64, wall: u64) -> (r: i64)
    ensures
        r == utilisation(busy_us, wall),
{
    let w: i128 = if wall < 1 {
        1
    } else {
        wall as i128
    };
    narrow((busy_us as i128) * 1_000_000_000 / (w * (MEDIA_WORKERS as i128)))
}

/// Why a run does not count: a step failed, or a condition that the scenario
/// requires was never met. Of the first `n` conditions.
pub open spec fn reasons(
    failure: Option<Seq<char>>,
    require: Seq<String>,
    rig: RigModel,
    n: int,
) -> Seq<Seq<char>>
    decreases n,
{
    if n <= 0 {
        match failure {
            Some(e) => seq![e],
            None => Seq::empty(),
        }
    } else {
        let rest = reasons(failure, require, rig, n - 1);
        if rig.has_met(require[n - 1]@) {
            rest
        } else {
            rest.push("required condition never met: "@ + require[n - 1]@)
        }
    }
}

/// Every condition that was met, and when; then those that are required and were
/// not. Of the first `n` that are required.
pub open spec fn verdicts(rig: RigModel, require: Seq<String>, n: int) -> Seq<
    (Seq<char>, bool, Option<i64>),
>
    decreases n,
{
    if n <= 0 {
        rig.conds.map_values(|c: (Seq<char>, i64)| (c.0, true, Some(c.1)))
    } else {
        let rest = verdicts(rig, require, n - 1);
        if rig.has_met(require[n - 1]@) {
            rest
        } else {
            rest.push((require[n - 1]@, false, None))
        }
    }
}

/// Results as characters.
pub open spec fn results_of(v: Seq<CondResult>) -> Seq<(Seq<char>, bool, Option<i64>)> {
    v.map_values(|c: CondResult| (c.cond@, c.met, c.at_s))
}

/// The text of a failure.
pub open spec fn failure_text(f: Option<String>) -> Option<Seq<char>> {
    match f {
        Some(e) => Some(e@),
        None => None,
    }
}

/// Why a run does not count.
pub fn invalid_reasons(failure: Option<String>, validity: &Validity, rig: &Rig) -> (v: Vec<String>)
    ensures
        strings_of(v@) == reasons(
            failure_text(failure),
            validity.require@,
            rig@,
            validity.require@.len() as int,
        ),
{
    let ghost f = failure_text(failure);
    let mut v: Vec<String> = Vec::new();
    if let Some(e) = failure {
        v.push(e);
    }
    assert(strings_of(v@) =~= reasons(f, validity.require@, rig@, 0));
    let mut k: usize = 0;
    while k < validity.require.len()
        invariant
            k <= validity.require@.len(),
            strings_of(v@) == reasons(f, validity.require@, rig@, k as int),
        decreases validity.require@.len() - k,
    {
        let c = validity.require[k].as_str();
        if !rig.met(c) {
            let ghost before = strings_of(v@);
            let mut e = "required condition never met: ".to_owned();
            e.append(c);
            v.push(e);
            assert(strings_of(v@) =~= before.push(
                "required condition never met: "@ + validity.require@[k as int]@,
            ));
        }
        k += 1;
    }
    v
}

/// Every condition that was met, and when; then those that are required and were
/// not.
pub fn condition_results(validity: &Validity, rig: &Rig) -> (v: Vec<CondResult>)
    ensures
        results_of(v@) == verdicts(rig@, validity.require@, validity.require@.len() as int),
{
    let mut v: Vec<CondResult> = Vec::new();
    let ghost all = rig@.conds.map_values(|c: (Seq<char>, i64)| (c.0, true, Some(c.1)));
    let mut j: usize = 0;
    while j < rig.conds.len()
        invariant
            j <= rig.conds@.len(),
            all == conds_of(rig.conds@).map_values(|c: (Seq<char>, i64)| (c.0, true, Some(c.1))),
            results_of(v@) =~= all.take(j as int),
        decreases rig.conds@.len() - j,
    {
        let ghost before = results_of(v@);
        let m = &rig.conds[j];
        v.push(CondResult { cond: m.cond.as_str().to_owned(), met: true, at_s: Some(m.at) });
        j += 1;
        proof {
            assert(results_of(v@) =~= before.push(all[j - 1]));
            assert(all.take(j as int) =~= all.take(j - 1).push(all[j - 1]));
        }
    }
    assert(all.take(j as int) =~= all);
    let mut k: usize = 0;
    while k < validity.require.len()
        invariant
            k <= validity.require@.len(),
            results_of(v@) == verdicts(rig@, validity.require@, k as int),
        decreases validity.require@.len() - k,
    {
        let c = validity.require[k].as_str();
        if !rig.met(c) {
            let ghost before = results_of(v@);
            v.push(CondResult { cond: c.to_owned(), met: false, at_s: None });
            assert(results_of(v@) =~= before.push((validity.require@[k as int]@, false, None)));
        }
        k += 1;
    }
    v
}

/// A run counts where no step failed and every condition that the scenario
/// requires was met, and only there.
pub proof fn valid_where_all_is_met(
    failure: Option<Seq<char>>,
    require: Seq<String>,
    rig: RigModel,
    n: int,
)
    requires
        0 <= n <= require.len(),
    ensures
        (reasons(failure, require, rig, n).len() == 0) == (failure is None && forall|k: int|
            0 <= k < n ==> rig.has_met(#[trigger] require[k]@)),
    decreases n,
{
    if n > 0 {
        valid_where_all_is_met(failure, require, rig, n - 1);
    }
}

/// What is known at the end of a run besides what the rig wrote down.
pub struct Outcome {
    /// Why a step failed, where one did; the steps behind it were not carried out.
    pub failure: Option<String>,
    /// How long the run took, in nanoseconds.
    pub wall: u64,
    pub frames: u64,
    pub counters: Counters,
    pub events: Vec<RelEvent>,
    pub events_dropped: u64,
    pub proc_curve: Vec<ProcPoint>,
    pub atlas_slots: u64,
}

/// The parts of a frame that are timed.
pub open spec fn is_phases(v: Seq<PhaseSamples>, rig: RigModel) -> bool {
    &&& v.len() == 3
    &&& v[0].phase@ == "ingest_install"@ && v[0].ns@ == rig.ingest_install
    &&& v[1].phase@ == "drain_media"@ && v[1].ns@ == rig.drain_media
    &&& v[2].phase@ == "live"@ && v[2].ns@ == rig.live
}

/// What frames cost.
pub open spec fn tick_stat(ticks: Seq<u64>) -> TickStat {
    let s = crate::measure::stat_of(crate::events::as_measures(ticks));
    TickStat {
        p50: crate::events::narrowed(s.p50 as int),
        p95: crate::events::narrowed(s.p95 as int),
        max: crate::events::narrowed(s.max as int),
    }
}

fn tick_stat_of(ticks: &Vec<u64>) -> (t: TickStat)
    ensures
        t == tick_stat(ticks@),
{
    let mut xs: Vec<i128> = Vec::new();
    let ghost all = crate::events::as_measures(ticks@);
    let mut k: usize = 0;
    while k < ticks.len()
        invariant
            k <= ticks@.len(),
            all == crate::events::as_measures(ticks@),
            xs@ =~= all.take(k as int),
        decreases ticks@.len() - k,
    {
        xs.push(ticks[k] as i128);
        k += 1;
    }
    assert(all.take(k as int) =~= all);
    let s = pctl_stat(&xs);
    TickStat { p50: narrow(s.p50), p95: narrow(s.p95), max: narrow(s.max) }
}

/// A run can be summed up: it is not too long.
pub open spec fn run_fits(rig: RigModel, o: Outcome) -> bool {
    &&& rig.ticks.len() <= 1_000_000_000
    &&& o.events@.len() <= crate::events::EVENTS_LIMIT
}

/// The parts of a summary that come from the frames.
pub open spec fn frames_summed(s: Summary, rig: RigModel) -> bool {
    &&& s.thumbs_curve@ == rig.thumbs_curve
    &&& s.queue_curve@ == rig.queue_curve
    &&& s.tick_ms == tick_stat(rig.ticks)
    &&& s.tick_over@ == stalls(rig.ticks)
    &&& exists|v: Seq<PhaseSamples>|
        is_phases(v, rig) && s.phase_ms@.len() == 3 && forall|k: int|
            0 <= k < 3 ==> crate::events::phase_sums_up(
                #[trigger] s.phase_ms@[k],
                v[k],
                crate::events::phases_sum(v, 3),
            )
}

/// The parts of a summary that come from the events.
pub open spec fn events_summed(s: Summary, events: Seq<RelEvent>) -> bool {
    let lat = crate::events::latency_samples(events);
    let lat_names = crate::table::names_of(lat, lat.len() as int);
    let gaps = crate::events::gaps_by(events, events.len() as int);
    let gap_names = crate::table::names_of(gaps, gaps.len() as int);
    let jobs = crate::events::jobs_by(events, events.len() as int);
    let job_names = crate::table::names_of(jobs, jobs.len() as int);
    let order = crate::events::by_weight(jobs, job_names, job_names.len() as int);
    &&& s.events == events.len()
    &&& s.latencies@.len() == lat_names.len()
    &&& forall|j: int|
        0 <= j < lat_names.len() ==> crate::events::sums_up(
            #[trigger] s.latencies@[j],
            lat,
            lat_names[j],
            lat_names[j].b,
        )
    &&& s.frame_gap_ms@.len() == gap_names.len()
    &&& forall|j: int|
        0 <= j < gap_names.len() ==> crate::events::sums_up(
            #[trigger] s.frame_gap_ms@[j],
            gaps,
            gap_names[j],
            "frame_gap"@,
        )
    &&& s.jobs@.len() == order.len()
    &&& forall|j: int|
        0 <= j < order.len() ==> crate::events::job_sums_up(
            #[trigger] s.jobs@[j],
            jobs,
            order[j],
        )
}

/// The parts of a summary that say what ran and whether it counts.
pub open spec fn run_summed(
    s: Summary,
    scenario: Scenario,
    sets: Seq<String>,
    rig: RigModel,
    o: Outcome,
) -> bool {
    let require = scenario.validity.require@;
    let why = reasons(failure_text(o.failure), require, rig, require.len() as int);
    &&& s.scenario == scenario.name
    &&& s.intent == scenario.intent
    &&& strings_of(s.tuning_sets@) == strings_of(sets)
    &&& strings_of(s.invalid_reasons@) == why
    &&& s.valid == (why.len() == 0)
    &&& results_of(s.conditions@) == verdicts(rig, require, require.len() as int)
    &&& s.wall_s == crate::events::narrowed((o.wall / 1000) as int)
    &&& s.frames == o.frames
    &&& s.counters == o.counters
    &&& s.events_dropped == o.events_dropped
    &&& s.worker_utilisation == utilisation(o.counters.worker_busy_us, o.wall)
    &&& s.proc_curve == o.proc_curve
    &&& s.atlas_slots == o.atlas_slots
}

fn phases_of(a: Vec<u64>, b: Vec<u64>, c: Vec<u64>) -> (v: Vec<PhaseSamples>)
    ensures
        v@.len() == 3,
        v@[0].phase@ == "ingest_install"@ && v@[0].ns == a,
        v@[1].phase@ == "drain_media"@ && v@[1].ns == b,
        v@[2].phase@ == "live"@ && v@[2].ns == c,
{
    let mut v: Vec<PhaseSamples> = Vec::new();
    v.push(PhaseSamples { phase: "ingest_install".to_owned(), ns: a });
    v.push(PhaseSamples { phase: "drain_media".to_owned(), ns: b });
    v.push(PhaseSamples { phase: "live".to_owned(), ns: c });
    v
}

/// The summary of a run: what ran, whether it counts, and what it measured.
pub fn summarize(scenario: Scenario, sets: &Vec<String>, rig: Rig, o: Outcome) -> (s: Summary)
    requires
        rig@.wf(),
        run_fits(rig@, o),
    ensures
        run_summed(s, scenario, sets@, rig@, o),
        frames_summed(s, rig@),
        events_summed(s, o.events@),
{
    let ghost model = rig@;
    let conditions = condition_results(&scenario.validity, &rig);
    let why = invalid_reasons(o.failure, &scenario.validity, &rig);
    let ghost reasons_seq = strings_of(why@);
    assert(reasons_seq.len() == why@.len());
    let valid = why.len() == 0;
    let phases = phases_of(rig.ingest_install, rig.drain_media, rig.live);
    assert(is_phases(phases@, model));
    let phase_ms = compute_phases(&phases);
    let util: i64 = worker_utilisation(o.counters.worker_busy_us, o.wall);
    let s = Summary {
        scenario: scenario.name,
        intent: scenario.intent,
        tuning_sets: copies(sets),
        valid,
        invalid_reasons: why,
        wall_s: narrow((o.wall / 1000) as i128),
        frames: o.frames,
        counters: o.counters,
        latencies: compute_latencies(&o.events),
        thumbs_curve: rig.thumbs_curve,
        tick_ms: tick_stat_of(&rig.ticks),
        events: o.events.len(),
        events_dropped: o.events_dropped,
        conditions,
        tick_over: tick_over(&rig.ticks),
        phase_ms,
        queue_curve: rig.queue_curve,
        jobs: compute_jobs(&o.events),
        worker_utilisation: util,
        proc_curve: o.proc_curve,
        frame_gap_ms: compute_frame_gaps(&o.events),
        atlas_slots: o.atlas_slots,
    };
    assert(frames_summed(s, model)) by {
        assert(is_phases(phases@, model));
    }
    s
}

/// What the first `n` child processes hold, in kibibytes; some do not say.
pub open spec fn held_by(children: Seq<Option<u64>>, n: int) -> int
    decreases n,
{
    if n <= 0 {
        0
    } else {
        held_by(children, n - 1) + match children[n - 1] {
            Some(kb) => kb as int,
            None => 0,
        }
    }
}

/// The process and its children at a moment: what they hold together, how many
/// threads it has (a list of them has a head), and how many children.
pub fn process_point(at: i64, own_kb: u64, thread_lines: Option<u64>, children: &Vec<Option<u64>>) -> (
    p: ProcPoint)
    requires
        children@.len() <= 1_000_000,
    ensures
        p == (ProcPoint {
            at_s: at,
            rss_mb: crate::events::narrowed(
                (own_kb + held_by(children@, children@.len() as int)) * 1_000_000 / 1024,
            ),
            threads: match thread_lines {
                Some(n) => gain(n, 1),
                None => 0,
            },
            children: children@.len() as u64,
        }),
{
    let mut kb: i128 = own_kb as i128;
    let mut k: usize = 0;
    while k < children.len()
        invariant
            k <= children@.len(),
            children@.len() <= 1_000_000,
            kb == own_kb + held_by(children@, k as int),
            0 <= kb <= 18_446_744_073_709_551_616 * (k + 1),
        decreases children@.len() - k,
    {
        if let Some(c) = children[k] {
            kb = kb + (c as i128);
        }
        k += 1;
    }
    let threads: u64 = match thread_lines {
        Some(n) => gained(n, 1),
        None => 0,
    };
    ProcPoint {
        at_s: at,
        rss_mb: narrow(kb * 1_000_000 / 1024),
        threads,
        children: children.len() as u64,
    }
}

} // verus!
