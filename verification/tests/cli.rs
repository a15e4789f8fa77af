use switchblade::cli::{
    bench_args, bundle_dir, bundle_label, bundle_under, child_args, compare_args, default_out,
    default_reports, out_below, rep_dir, reps_to_run, run_args, subcommand, Subcommand,
};
use switchblade::printout::{fingerprint, print_summary, Machine};
use switchblade::report::{CondResult, Counters, LatencyStat, Summary, TickStat};

fn words(s: &[&str]) -> Vec<String> {
    s.iter().map(|w| w.to_string()).collect()
}

#[test]
fn the_first_word_chooses() {
    assert_eq!(subcommand(&words(&["run"])), Subcommand::Run);
    assert_eq!(subcommand(&words(&["bench"])), Subcommand::Bench);
    assert_eq!(subcommand(&words(&["compare"])), Subcommand::Compare);
    assert_eq!(subcommand(&words(&["a.toml"])), Subcommand::BareRun);
    assert_eq!(subcommand(&words(&["--help"])), Subcommand::Help);
    assert_eq!(subcommand(&words(&[])), Subcommand::Help);
    assert_eq!(subcommand(&words(&["frob"])), Subcommand::Unknown);
}

#[test]
fn a_run_is_asked_for() {
    let a = run_args(&words(&["s.toml", "--out", "o", "--set", "a=1", "--keep-home", "--set"]))
        .ok()
        .unwrap();
    assert_eq!(a.scenario, "s.toml");
    assert_eq!(a.out, Some("o".to_string()));
    assert_eq!(a.home, None);
    assert!(a.keep_home);
    assert_eq!(a.sets, words(&["a=1"]));
    assert_eq!(
        run_args(&words(&["s.toml", "t.toml"])).err().unwrap(),
        "unexpected argument: t.toml"
    );
    assert_eq!(run_args(&words(&[])).err().unwrap(), "error: no scenario file given");
}

#[test]
fn a_benchmark_is_asked_for() {
    let a = bench_args(&words(&["s.toml", "--reps", "7", "--label", "cold", "--reps", "x"]))
        .ok()
        .unwrap();
    assert_eq!((a.reps, a.label.as_str(), a.reports), (7, "cold", None));
    let b = bench_args(&words(&["s.toml"])).ok().unwrap();
    assert_eq!((b.reps, b.label.as_str()), (5, "run"));
    assert_eq!(bench_args(&words(&["--reps"])).err().unwrap(), "error: no scenario file given");
    assert_eq!(reps_to_run(0), 1);
}

#[test]
fn a_comparison_is_asked_for() {
    let a = compare_args(&words(&["x", "--out", "r.md", "y"])).ok().unwrap();
    assert_eq!((a.a.as_str(), a.b.as_str(), a.out), ("x", "y", Some("r.md".to_string())));
    assert_eq!(
        compare_args(&words(&["x"])).err().unwrap(),
        "error: compare needs two bundle dirs (e.g. reports/<scenario>-<label>)"
    );
    assert_eq!(compare_args(&words(&["x", "y", "z"])).err().unwrap(), "unexpected argument: z");
}

#[test]
fn files_go_beside_the_scenario() {
    assert_eq!(default_out("bench/scenarios/cold.toml"), "bench/scenarios/runs/cold");
    assert_eq!(default_out("cold.toml"), "runs/cold");
    assert_eq!(default_reports("bench/scenarios/cold.toml"), "bench/reports");
    assert_eq!(default_reports("cold.toml"), "./reports");
    assert_eq!(bundle_dir("reports", "bench/cold.toml", "base"), "reports/cold-base");
    assert_eq!(bundle_under("reports", "cold", "base"), "reports/cold-base");
    assert_eq!(out_below(".", "cold"), "./runs/cold");
    assert_eq!(rep_dir("reports/cold-base", 12), "reports/cold-base/rep12");
    assert_eq!(bundle_label("reports/cold-base"), "cold-base");
    assert_eq!(bundle_label(".."), "?");
}

#[test]
fn a_child_reads_what_it_is_handed() {
    let args = child_args("s.toml", "r/rep0", &words(&["a=1", "b=2"]));
    assert_eq!(args[0], "run");
    let a = run_args(&args[1..].to_vec()).ok().unwrap();
    assert_eq!(a.scenario, "s.toml");
    assert_eq!(a.out, Some("r/rep0".to_string()));
    assert_eq!(a.home, Some("r/rep0/home".to_string()));
    assert!(a.keep_home);
    assert_eq!(a.sets, words(&["a=1", "b=2"]));
}

#[test]
fn a_machine_is_told_by_what_is_known() {
    let m = Machine {
        sha: Some("abc"),
        changes: Some(" M x"),
        ffmpeg: Some("ffmpeg version 7\r\nbuilt with"),
        host: None,
        os: "linux",
        arch: "x86_64",
    };
    assert_eq!(
        fingerprint(&m),
        "- git: `abc` (dirty tree)\n- ffmpeg: `ffmpeg version 7`\n- platform: `linux x86_64`\n- host: `unknown`\n"
    );
}

#[test]
fn a_summary_is_printed_line_by_line() {
    let s = Summary {
        scenario: "s".to_string(),
        intent: String::new(),
        tuning_sets: vec![],
        valid: true,
        invalid_reasons: vec![],
        wall_s: 6_125_000,
        frames: 200,
        counters: Counters {
            decode_reads: 4,
            decode_read_us: 9_000,
            visible_tiles_max: 10,
            worker_busy_us: 1_250_000,
            ..Counters::default()
        },
        latencies: vec![LatencyStat {
            lane: "hover".to_string(),
            metric: "spawn_to_ready".to_string(),
            count: 2,
            p50_ms: 12_500_000,
            p95_ms: 13_500_000,
            max_ms: 14_000_000,
        }],
        thumbs_curve: vec![],
        tick_ms: TickStat { p50: 1_500_000, p95: 2_000_000, max: 3_000_000 },
        events: 3,
        events_dropped: 2,
        conditions: vec![
            CondResult { cond: "library_count".to_string(), met: true, at_s: Some(1_500_000) },
            CondResult { cond: "hover_served".to_string(), met: false, at_s: None },
        ],
        tick_over: vec![],
        phase_ms: vec![],
        queue_curve: vec![],
        jobs: vec![],
        worker_utilisation: 250_000,
        proc_curve: vec![],
        frame_gap_ms: vec![],
        atlas_slots: 9,
    };
    let text = print_summary(&s);
    let lines: Vec<&str> = text.lines().collect();
    assert_eq!(lines[0], "=== s ===");
    assert_eq!(lines[1], "valid=true wall=6.12s frames=200 events=3 (+2 dropped)");
    assert_eq!(lines[3], "tick_ms: p50=1.50 p95=2.00 max=3.00");
    assert!(lines[4].starts_with("sched: jobs 0/0 started (hit 0, failed 0) busy=1.2s util=0.25"));
    assert!(lines[5].contains("meta 0× 0.0ms (clip_meta)"));
    assert_eq!(lines[6], "decode reads: n=4 mean=2.25ms max=0.0ms | >100ms=0 >1s=0");
    assert!(lines[8].contains("vs 9 slots  <-- OVER CAPACITY | full_drops=0"));
    assert_eq!(
        lines[9],
        "latency    hover/spawn_to_ready       n=2   p50=12ms p95=14ms max=14ms"
    );
    assert_eq!(lines[10], "cond library_count      met @ 1.50s");
    assert_eq!(lines[11], "cond hover_served       NOT met");
}
