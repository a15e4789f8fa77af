use switchblade::bench::{
    default_animation, default_max_wall, default_refresh, default_viewport, frame_nap,
    frame_period, frame_step, parse_key, plan, process_point, resolve_inputs, set_patch,
    summarize, target_index, tick_over, wait_turn, wait_until_turn, wall_limit,
    worker_utilisation, Depths, Outcome, PhaseClock, Plan, Rig, Scenario, Setup, Step, Turn,
    Validity,
};
use switchblade::commands::Key;
use switchblade::events::{compute_frame_gaps, compute_jobs, compute_latencies, RelEvent};
use switchblade::overrides::{overlay, read_scenario};
use switchblade::measure::write_delta;
use switchblade::report::{
    can_report, compare_markdown, markdown, Counters, JobStat, LatencyStat, PhaseStat, ProcPoint,
    Summary, TickOver, TickStat,
};
use switchblade::tuning::Tuning;

fn summary(scenario: &str, valid: bool, p50: i64, late: u64) -> Summary {
    Summary {
        scenario: scenario.to_string(),
        intent: "line one\nline two".to_string(),
        tuning_sets: vec![],
        valid,
        invalid_reasons: vec![],
        wall_s: 6_000_000,
        frames: 200,
        counters: Counters { late_frames: late, thumbs_cached: 1, ..Counters::default() },
        latencies: vec![LatencyStat {
            lane: "selected".to_string(),
            metric: "spawn_to_served".to_string(),
            count: 1,
            p50_ms: p50 * 1_000_000,
            p95_ms: p50 * 1_000_000,
            max_ms: p50 * 1_000_000,
        }],
        thumbs_curve: vec![(0, 0), (300_000, 1)],
        tick_ms: TickStat { p50: 50_000, p95: 100_000, max: 200_000 },
        events: 3,
        events_dropped: 0,
        conditions: vec![],
        tick_over: vec![TickOver { over_ms: 100_000_000, count: 2 }],
        phase_ms: vec![PhaseStat {
            phase: "drain_media".to_string(),
            p50_ms: 20_000,
            p95_ms: 400_000,
            max_ms: 1_000_000,
            share: 500_000,
        }],
        queue_curve: vec![],
        jobs: vec![JobStat {
            tier: "gen".to_string(),
            outcome: "made".to_string(),
            count: 4,
            p50_ms: 900_000_000,
            p95_ms: 2_000_000_000,
            max_ms: 2_500_000_000,
            total_s: 5_000_000,
        }],
        worker_utilisation: 900_000,
        proc_curve: vec![ProcPoint { at_s: 0, rss_mb: 120_000_000, threads: 14, children: 1 }],
        frame_gap_ms: vec![],
        atlas_slots: 144,
    }
}

#[test]
fn markdown_aggregates_reps_with_spread() {
    let reps = vec![
        summary("s", true, 250, 0),
        summary("s", true, 260, 0),
        summary("s", false, 300, 4),
    ];
    assert!(can_report(&reps));
    let md = markdown(&reps, 3, "baseline", "- git: `abc`\n");
    assert!(md.contains("2/3 runs valid"));
    assert!(md.contains("> line one"), "intent quoted");
    assert!(md.contains("260 (250–300)"), "latency median+spread:\n{md}");
    assert!(md.contains("1.33 (0.00–4.00)"), "burst counter mean+spread:\n{md}");
    assert!(!md.to_lowercase().contains("regression"), "no verdicts");
}

#[test]
fn burst_counters_report_mean_not_median() {
    let lates = [0u64, 0, 0, 16, 0, 9];
    let reps: Vec<Summary> = lates.iter().map(|&l| summary("s", true, 300, l)).collect();
    let md = markdown(&reps, reps.len(), "cold", "- git: `abc`\n");
    assert!(
        md.contains("| late_frames | 4.17 (0.00–16.00) | mean |"),
        "burst counter must surface the spike via mean:\n{md}"
    );
    let quiet: Vec<Summary> = (0..6).map(|_| summary("s", true, 300, 0)).collect();
    let cmp = compare_markdown(&quiet, &reps, "capped", "uncapped");
    assert!(
        cmp.contains("| late_frames | 0.00 | 4.17 | +4.17 | mean |"),
        "compare must surface the burst delta, not a median 0:\n{cmp}"
    );
}

#[test]
fn compare_shows_signed_deltas_without_verdicts() {
    let a = vec![summary("s", true, 250, 0), summary("s", true, 250, 0)];
    let b = vec![summary("s", true, 300, 2), summary("s", true, 300, 2)];
    let md = compare_markdown(&a, &b, "before", "after");
    assert!(md.contains("| 250 | 300 | +50 |"), "latency delta:\n{md}");
    assert!(md.contains("+2.00"), "counter delta");
    assert!(!md.to_lowercase().contains("regression"), "no verdicts");
    assert!(!md.to_lowercase().contains("better"), "no verdicts");
}

#[test]
fn deltas_of_means_are_rounded_to_the_nearest() {
    assert_eq!(write_delta(1_000_000, 3, 2_000_000, 3), "+0.33");
    assert_eq!(write_delta(0, 1, 15_000, 1), "+0.02");
    assert_eq!(write_delta(0, 1, 5_000, 1), "+0.00");
    assert_eq!(write_delta(5_000_000, 1, 4_995_000, 1), "-0.00");
    assert_eq!(write_delta(7_000_000, 2, 1_000_000, 3), "-3.17");
    assert_eq!(write_delta(-7_000_000, 2, -1_000_000, 3), "+3.17");
    let most = u64::MAX as i128 * 1_000_000;
    let n: i128 = 1_000_000_000;
    assert_eq!(write_delta(0, n, most * n, n), "+18446744073709551615.00");
    assert_eq!(write_delta(most * n, n, most * n - 1, n), "-0.00");
    assert_eq!(write_delta(most * n, n, 0, n - 1), "-18446744073709551615.00");
}

#[test]
fn many_runs_are_reported() {
    let runs: Vec<Summary> = (0..100_001).map(|_| Summary {
        scenario: String::new(),
        intent: String::new(),
        tuning_sets: vec![],
        invalid_reasons: vec![],
        latencies: vec![],
        thumbs_curve: vec![],
        conditions: vec![],
        tick_over: vec![],
        phase_ms: vec![],
        queue_curve: vec![],
        jobs: vec![],
        proc_curve: vec![],
        frame_gap_ms: vec![],
        ..summary("s", true, 300, 0)
    }).collect();
    assert!(can_report(&runs));
    let md = compare_markdown(&runs, &runs, "a", "b");
    assert!(md.contains("| late_frames | 0.00 | 0.00 | +0.00 | mean |"), "{md}");
}

#[test]
fn set_overrides_patch_the_tuning_table() {
    let text = r#"
name = "s"
[setup]
demo = true
[tuning]
live_delay_ms = 100.0
"#;
    let sets = vec!["live_delay_ms=250.0".to_string(), "quickview_max_width=640".to_string()];
    let doc = read_scenario(text, &sets).expect("parse with --set");
    let tuning = doc["tuning"].as_table().unwrap();
    assert_eq!(tuning["live_delay_ms"].as_float(), Some(250.0));
    assert_eq!(tuning["quickview_max_width"].as_integer(), Some(640));
    assert!(!tuning.contains_key("quickview_max_height"));
    assert_eq!(doc["name"].as_str(), Some("s"));
    let plain = read_scenario(text, &vec![]).expect("parse no sets");
    assert_eq!(plain["tuning"]["live_delay_ms"].as_float(), Some(100.0));
    assert_eq!(plain["tuning"].as_table().unwrap().len(), 1);
}

#[test]
fn overrides_make_settings_where_there_are_none() {
    let sets = vec!["grid_layout=flexible".to_string(), "recurse=false".to_string()];
    let doc = read_scenario("name = \"s\"", &sets).unwrap();
    assert_eq!(doc["tuning"]["grid_layout"].as_str(), Some("flexible"));
    assert_eq!(doc["tuning"]["recurse"].as_bool(), Some(false));
    let twice = vec!["a=1".to_string(), "a=2".to_string()];
    assert!(read_scenario("name = \"s\"", &twice).is_err(), "no key twice in one table");
    let own: toml::Table = toml::from_str("[tuning]\na = 1\nb = 2").unwrap();
    let over: toml::Table = toml::from_str("b = 3\nc = 4").unwrap();
    let both = overlay(own, over).unwrap();
    let wanted: toml::Table = toml::from_str("[tuning]\na = 1\nb = 3\nc = 4").unwrap();
    assert_eq!(both, wanted);
}

#[test]
fn scenarios_are_refused_with_a_reason() {
    let one = vec!["a=1".to_string()];
    assert!(read_scenario("= 3", &vec![]).unwrap_err().starts_with("parse scenario: "));
    assert!(read_scenario("= 3", &one).unwrap_err().starts_with("parse scenario: "));
    assert_eq!(
        read_scenario("", &vec!["oops".to_string()]).unwrap_err(),
        "--set expects key=value, got \"oops\""
    );
    let bad = vec!["=1".to_string()];
    assert!(read_scenario("", &bad).unwrap_err().starts_with("bad --set value: "));
    assert_eq!(
        read_scenario("tuning = 5", &one).unwrap_err(),
        "scenario [tuning] is not a table"
    );
}

#[test]
fn overrides_are_quoted_unless_they_are_truths_or_numbers() {
    let sets: Vec<String> = ["a=true", "b=-1e3", "c=.5", "d=flexible", "e=inf", "f=1e", "g=a=b"]
        .iter()
        .map(|s| s.to_string())
        .collect();
    assert_eq!(
        set_patch(&sets).unwrap(),
        "a = true\nb = -1e3\nc = .5\nd = \"flexible\"\ne = inf\nf = \"1e\"\ng = \"a=b\"\n"
    );
    assert_eq!(
        set_patch(&vec!["a=1".to_string(), "oops".to_string()]).unwrap_err(),
        "--set expects key=value, got \"oops\""
    );
}

#[test]
fn a_report_is_written_out_in_full() {
    let md = markdown(&vec![summary("s", true, 250, 0)], 1, "x", "- git: `abc`\n");
    let wanted = [
        "# Benchmark report — `s` [x]\n\n**1/1 runs valid.** Median (min–max) across runs;",
        "## Intent\n\n> line one\n> line two\n\n## Environment\n\n- git: `abc`\n\n",
        "| selected | spawn_to_served | 1 | 250 | 250 | 250 |\n",
        "| wall_s | 6.00 | median |\n| frames | 200.00 | median |\n",
        "| tick_ms p50 | 0.05 | median |\n",
        "| worker_utilisation | 0.90 | median |\n| pending_bytes_peak_mb | 0.00 | mean |\n",
        "| rss_peak_mb | 120.00 | mean |\n",
        "| > ms | count (mean across runs) |\n|--:|--:|\n| 100 | 2.0 |\n",
        "| drain_media | 0 | 0 | 1 | 50% |\n",
        "| gen | made | 4 | 900 | 2000 | 2500 | 5 |\n",
    ];
    for w in wanted {
        assert!(md.contains(w), "missing {w:?} in\n{md}");
    }
    assert!(!md.contains("Served-frame gaps"));
    assert!(markdown(&vec![], 0, "x", "").starts_with("# Benchmark report — `?` [x]"));
}

#[test]
fn a_report_lists_overrides_and_gaps() {
    let mut s = summary("s", true, 250, 0);
    s.tuning_sets = vec!["a=1".to_string(), "b=2".to_string()];
    s.frame_gap_ms = vec![LatencyStat {
        lane: "hover".to_string(),
        metric: "frame_gap".to_string(),
        count: 7,
        p50_ms: 33_400_000,
        p95_ms: 40_500_000,
        max_ms: 41_500_000,
    }];
    let md = markdown(&vec![s], 1, "x", "");
    assert!(md.contains("**Tuning overrides:** `a=1`, `b=2`\n\n"));
    assert!(md.contains("| hover | 7 | 33 | 40 | 42 |\n"), "{md}");
}

#[test]
fn a_side_without_a_latency_gets_a_dash() {
    let a = vec![summary("s", true, 250, 0)];
    let mut other = summary("s", true, 250, 0);
    other.latencies[0].lane = "hover".to_string();
    let md = compare_markdown(&a, &vec![other], "a", "b");
    assert!(md.contains("| hover / spawn_to_served | — | 250 | — |\n"), "{md}");
    assert!(md.contains("| selected / spawn_to_served | 250 | — | — |\n"), "{md}");
    assert!(md.contains("- a tuning: (none)\n- b tuning: (none)\n"));
    assert!(md.contains("| wall_s | 6.00 | 6.00 | +0.00 | median |\n"));
}

fn event(t: i64, kind: &str, lane: &str, lane_gen: u64) -> RelEvent {
    RelEvent {
        t,
        kind: kind.to_string(),
        lane: lane.to_string(),
        lane_gen,
        tier: None,
        outcome: None,
        ms: None,
    }
}

fn job(tier: &str, outcome: Option<&str>, ms: i64) -> RelEvent {
    RelEvent {
        t: 0,
        kind: "job_end".to_string(),
        lane: String::new(),
        lane_gen: 0,
        tier: Some(tier.to_string()),
        outcome: outcome.map(|o| o.to_string()),
        ms: Some(ms),
    }
}

#[test]
fn latencies_are_taken_by_incarnation() {
    let events = vec![
        event(1_000_000, "decode_spawn", "selected", 7),
        event(3_000_000, "decode_ready", "selected", 7),
        event(9_000_000, "decode_ready", "selected", 7),
        event(6_000_000, "frame_served", "selected", 7),
        event(8_000_000, "frame_served", "selected", 7),
        event(5_000_000, "promotion", "selected", 7),
        event(2_000_000, "frame_served", "hover", 8),
    ];
    let out = compute_latencies(&events);
    let got: Vec<(&str, &str, usize, i64)> = out
        .iter()
        .map(|l| (l.lane.as_str(), l.metric.as_str(), l.count, l.p50_ms))
        .collect();
    assert_eq!(
        got,
        vec![
            ("selected", "promotion_to_served", 1, 1_000_000),
            ("selected", "spawn_to_ready", 1, 2_000_000),
            ("selected", "spawn_to_served", 1, 5_000_000),
        ]
    );
}

#[test]
fn a_respawn_is_no_gap() {
    let events = vec![
        event(0, "frame_served", "hover", 1),
        event(10, "frame_served", "hover", 2),
        event(30, "frame_served", "hover", 1),
        event(35, "frame_served", "hover", 2),
    ];
    let out = compute_frame_gaps(&events);
    assert_eq!(out.len(), 1);
    assert_eq!((out[0].count, out[0].p50_ms, out[0].max_ms), (2, 25, 30));
    assert_eq!(out[0].metric, "frame_gap");
}

#[test]
fn the_heaviest_jobs_come_first() {
    let events = vec![
        job("thumb", Some("hit"), 1_000_000),
        job("gen", Some("made"), 5_000_000),
        job("thumb", None, 2_000_000),
        event(0, "job_end", "", 0),
        job("thumb", Some("hit"), 3_000_000),
    ];
    let out = compute_jobs(&events);
    let got: Vec<(&str, &str, usize, i64)> = out
        .iter()
        .map(|j| (j.tier.as_str(), j.outcome.as_str(), j.count, j.total_s))
        .collect();
    assert_eq!(
        got,
        vec![("gen", "made", 1, 5_000), ("thumb", "hit", 2, 4_000), ("thumb", "?", 1, 2_000)]
    );
}

fn step(action: &str) -> Step {
    Step {
        action: action.to_string(),
        secs: 2_000_000_000,
        cond: "library_count".to_string(),
        n: 0,
        timeout: 0,
        key: "space".to_string(),
        target: "index:2".to_string(),
        dy: -40_000_000,
        delta: 5,
    }
}

#[test]
fn steps_are_planned() {
    assert_eq!(plan(&step("wait"), 3, 1), Ok(Plan::Wait { ns: 2_000_000_000 }));
    assert_eq!(plan(&step("wait_until"), 3, 1), Ok(Plan::WaitUntil { ns: 30_000_000_000 }));
    assert_eq!(plan(&step("key"), 3, 1), Ok(Plan::Press { key: Key::Space }));
    assert_eq!(plan(&step("hover"), 3, 1), Ok(Plan::Hover { tile: 2 }));
    assert_eq!(plan(&step("click"), 3, 1), Ok(Plan::Click { tile: 2 }));
    assert_eq!(plan(&step("scroll"), 3, 1), Ok(Plan::Scroll { dy: -40_000_000 }));
    assert_eq!(plan(&step("pinch"), 3, 1), Ok(Plan::Pinch { delta: 5, times: 1 }));
    assert_eq!(plan(&step("dance"), 3, 1), Err("unknown action: dance".to_string()));
    let mut s = step("key");
    s.key = "hyper".to_string();
    assert_eq!(plan(&s, 3, 1), Err("unknown key: \"hyper\"".to_string()));
    assert_eq!(plan(&step("hover"), 2, 1), Err("bad target: index:2".to_string()));
}

#[test]
fn targets_name_places() {
    assert_eq!(target_index("", 3, 1), Ok(0));
    assert_eq!(target_index("first", 3, 1), Ok(0));
    assert_eq!(target_index("last", 3, 1), Ok(2));
    assert_eq!(target_index("selected", 3, 1), Ok(1));
    assert_eq!(target_index("index:+1", 3, 1), Ok(1));
    assert_eq!(target_index("index:x", 3, 1), Err("bad target: index:x".to_string()));
    assert_eq!(target_index("middle", 3, 1), Err("bad target: middle".to_string()));
    assert_eq!(target_index("first", 0, 0), Err("no clips to target".to_string()));
}

#[test]
fn keys_have_names() {
    assert_eq!(parse_key("esc"), Some(Key::Escape));
    assert_eq!(parse_key("return"), Some(Key::Enter));
    assert_eq!(parse_key("h"), Some(Key::Char('h')));
    assert_eq!(parse_key("é"), Some(Key::Char('é')));
    assert_eq!(parse_key("hh"), None);
}

#[test]
fn waiting_ends_or_fails() {
    assert!(matches!(wait_turn(5, 5, true), Turn::Done));
    assert!(matches!(wait_turn(4, 5, false), Turn::Frame));
    assert!(matches!(
        wait_turn(4, 5, true),
        Turn::Failed { why } if why == "max_wall exceeded during wait"
    ));
    assert!(matches!(wait_until_turn(true, 9, 5, true, "c", 1), Turn::Done));
    assert!(matches!(wait_until_turn(false, 4, 5, false, "c", 1), Turn::Frame));
    assert!(matches!(
        wait_until_turn(false, 5, 5, false, "selected_served", 2_500_000_000),
        Turn::Failed { why } if why == "wait_until 'selected_served' timed out after 2.5s"
    ));
}

#[test]
fn frames_are_paced() {
    assert_eq!(frame_period(60_000_000), 16_666_666);
    assert_eq!(frame_period(0), 1_000_000_000);
    assert_eq!(wall_limit(0), 1_000_000_000);
    assert_eq!(frame_nap(true, 100, 50, None, 120), 30);
    assert_eq!(frame_nap(true, 100, 50, None, 200), 0);
    assert_eq!(frame_nap(false, 100, 50, Some(900_000_000), 0), 100_000_000);
    assert_eq!(frame_nap(false, 100, 50, None, 0), 0);
    assert_eq!(frame_step(10, 30), 20);
    assert_eq!(frame_step(0, 900_000_000), 50_000_000);
}

fn setup() -> Setup {
    Setup {
        fixtures: vec!["a.mp4".to_string(), "b.mp4".to_string()],
        inputs: vec![],
        animation: default_animation(),
        viewport: default_viewport(),
        demo: false,
        refresh_hz: default_refresh(),
        max_wall: default_max_wall(),
    }
}

#[test]
fn inputs_come_before_fixtures() {
    let mut s = setup();
    assert_eq!(default_animation(), "normal");
    assert_eq!(
        resolve_inputs(&s, "/fix", &vec![true, true]),
        Ok(vec!["/fix/a.mp4".to_string(), "/fix/b.mp4".to_string()])
    );
    assert_eq!(
        resolve_inputs(&s, "/fix", &vec![true, false]),
        Err("fixture not found: /fix/b.mp4 (generate with benchmarks/fixtures/generate.sh)"
            .to_string())
    );
    s.demo = true;
    assert_eq!(resolve_inputs(&s, "/fix", &vec![false, false]), Ok(vec![]));
    s.inputs = vec!["x.mp4".to_string()];
    assert_eq!(resolve_inputs(&s, "/fix", &vec![false, false]), Ok(vec!["x.mp4".to_string()]));
    s = setup();
    s.fixtures = vec![];
    assert_eq!(
        resolve_inputs(&s, "/fix", &vec![]),
        Err("setup has neither inputs nor fixtures nor demo".to_string())
    );
}

#[test]
fn a_run_is_summed_up() {
    let mut rig = Rig::new();
    let depths = Depths { thumbs: 1, gen: 0, anims: 0, inflight: 0, gen_running: 0 };
    let clock = PhaseClock { ingest_install: 10, drain_media: 20, live: 30 };
    rig.tick(5, 20_000_000, 0, clock, depths, 0);
    rig.tick(6, 60_000_000, 0, clock, depths, 0);
    rig.tick(7, 1_000_000, 3, clock, depths, 4);
    rig.record_cond("library_count", 6);
    rig.record_cond("library_count", 9);
    assert_eq!(rig.thumbs_curve, vec![(5, 0), (7, 3)]);
    assert_eq!(rig.queue_curve.len(), 1);
    assert_eq!(rig.drain_media, vec![20, 0, 0]);
    let scenario = Scenario {
        name: "n".to_string(),
        intent: "i".to_string(),
        setup: setup(),
        step: vec![],
        validity: Validity {
            require: vec!["library_count".to_string(), "hover_served".to_string()],
        },
        tuning: Tuning::default(),
    };
    let outcome = Outcome {
        failure: Some("oops".to_string()),
        wall: 2_000_000_000,
        frames: 3,
        counters: Counters { worker_busy_us: 3_000_000, ..Counters::default() },
        events: vec![],
        events_dropped: 0,
        proc_curve: vec![],
        atlas_slots: 9,
    };
    let s = summarize(scenario, &vec!["a=1".to_string()], rig, outcome);
    assert!(!s.valid);
    assert_eq!(
        s.invalid_reasons,
        vec!["oops".to_string(), "required condition never met: hover_served".to_string()]
    );
    assert_eq!(s.wall_s, 2_000_000);
    assert_eq!(s.tick_ms.p50, 20_000_000);
    assert_eq!(s.tick_ms.max, 60_000_000);
    let over: Vec<u64> = s.tick_over.iter().map(|t| t.count).collect();
    assert_eq!(over, vec![2, 1, 0, 0, 0]);
    assert_eq!(s.worker_utilisation, 500_000);
    assert_eq!(s.phase_ms[2].phase, "live");
    assert_eq!(s.phase_ms[2].share, 500_000);
    assert_eq!(s.conditions.len(), 2);
    assert_eq!((s.conditions[0].met, s.conditions[0].at_s), (true, Some(6)));
    assert_eq!((s.conditions[1].met, s.conditions[1].at_s), (false, None));
}

#[test]
fn a_process_is_summed_up_with_its_children() {
    let p = process_point(1, 1024, Some(15), &vec![Some(512), None]);
    assert_eq!(p, ProcPoint { at_s: 1, rss_mb: 1_500_000, threads: 14, children: 2 });
    assert_eq!(tick_over(&vec![])[0], TickOver { over_ms: 16_000_000, count: 0 });
    assert_eq!(worker_utilisation(1, 0), 333_333_333);
}
