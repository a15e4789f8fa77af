//! The command line of the benchmark runner: what its arguments ask for, where its
//! files go, and what it prints.

use vstd::prelude::*;

use crate::commands::{file_name_of, parent_of};
use crate::text::{chars_of, decimal, join_path, read_count, same};

verus! {

/// What the first argument asks for.
#[derive(Clone, Copy, PartialEq, Eq, Structural, Debug)]
pub enum Subcommand {
    /// One run; the arguments behind the first say of what.
    Run,
    /// A scenario alone stands for a run of it.
    BareRun,
    Bench,
    Compare,
    Help,
    Unknown,
}

/// Whether a text ends with another.
pub open spec fn ends(s: Seq<char>, tail: Seq<char>) -> bool {
    s.len() >= tail.len() && s.subrange(s.len() - tail.len(), s.len() as int) == tail
}

/// Whether a text ends with another.
pub fn ends_with(s: &str, tail: &str) -> (r: bool)
    ensures
        r == ends(s@, tail@),
{
    let v = chars_of(s);
    let t = chars_of(tail);
    if v.len() < t.len() {
        return false;
    }
    let n: usize = v.len();
    let m: usize = t.len();
    let from: usize = n - m;
    let mut i: usize = 0;
    while i < m
        invariant
            v@ == s@,
            t@ == tail@,
            n == v@.len(),
            m == t@.len(),
            i <= m,
            from + m == n,
            forall|k: int| 0 <= k < i ==> (#[trigger] t@[k]) == v@[from + k],
        decreases t@.len() - i,
    {
        if v[from + i] != t[i] {
            assert(s@.subrange(from as int, s@.len() as int)[i as int] != tail@[i as int]);
            return false;
        }
        i += 1;
    }
    assert(s@.subrange(from as int, s@.len() as int) =~= tail@);
    true
}

/// What the first argument asks for.
pub open spec fn subcommand_named(args: Seq<String>) -> Subcommand {
    if args.len() == 0 {
        Subcommand::Help
    } else {
        let a = args[0]@;
        if a == "run"@ {
            Subcommand::Run
        } else if a == "bench"@ {
            Subcommand::Bench
        } else if a == "compare"@ {
            Subcommand::Compare
        } else if a == "-h"@ || a == "--help"@ {
            Subcommand::Help
        } else if ends(a, ".toml"@) {
            Subcommand::BareRun
        } else {
            Subcommand::Unknown
        }
    }
}

/// What the first argument asks for.
pub fn subcommand(args: &Vec<String>) -> (r: Subcommand)
    ensures
        r == subcommand_named(args@),
{
    if args.len() == 0 {
        return Subcommand::Help;
    }
    let a = args[0].as_str();
    if same(a, "run") {
        Subcommand::Run
    } else if same(a, "bench") {
        Subcommand::Bench
    } else if same(a, "compare") {
        Subcommand::Compare
    } else if same(a, "-h") || same(a, "--help") {
        Subcommand::Help
    } else if ends_with(a, ".toml") {
        Subcommand::BareRun
    } else {
        Subcommand::Unknown
    }
}

/// What the arguments of one run ask for.
pub struct RunArgs {
    pub scenario: String,
    pub out: Option<String>,
    pub home: Option<String>,
    pub keep_home: bool,
    pub sets: Vec<String>,
}

/// What the arguments of one run have asked for so far.
pub struct RunAsked {
    pub scenario: Option<Seq<char>>,
    pub out: Option<Seq<char>>,
    pub home: Option<Seq<char>>,
    pub keep_home: bool,
    pub sets: Seq<Seq<char>>,
}

/// The argument at a place, where there is one.
pub open spec fn arg_at(args: Seq<String>, k: int) -> Option<Seq<char>> {
    if 0 <= k < args.len() {
        Some(args[k]@)
    } else {
        None
    }
}

/// The place behind an option and its value.
pub open spec fn behind(args: Seq<String>, k: int) -> int {
    if k + 2 <= args.len() {
        k + 2
    } else {
        args.len() as int
    }
}

/// What the arguments of one run ask for from place `k` on.
pub open spec fn run_asked(args: Seq<String>, k: int, a: RunAsked) -> Result<RunAsked, Seq<char>>
    decreases args.len() - k,
{
    if k >= args.len() {
        Ok(a)
    } else {
        let w = args[k]@;
        let next = arg_at(args, k + 1);
        if w == "--out"@ {
            run_asked(args, behind(args, k), RunAsked { out: next, ..a })
        } else if w == "--home"@ {
            run_asked(args, behind(args, k), RunAsked { home: next, ..a })
        } else if w == "--keep-home"@ {
            run_asked(args, k + 1, RunAsked { keep_home: true, ..a })
        } else if w == "--set"@ {
            run_asked(
                args,
                behind(args, k),
                match next {
                    Some(kv) => RunAsked { sets: a.sets.push(kv), ..a },
                    None => a,
                },
            )
        } else if a.scenario is None {
            run_asked(args, k + 1, RunAsked { scenario: Some(w), ..a })
        } else {
            Err("unexpected argument: "@ + w)
        }
    }
}

/// Nothing was asked for yet.
pub open spec fn run_unasked() -> RunAsked {
    RunAsked { scenario: None, out: None, home: None, keep_home: false, sets: Seq::empty() }
}

/// The text of an optional string.
pub open spec fn opt(s: Option<String>) -> Option<Seq<char>> {
    match s {
        Some(t) => Some(t@),
        None => None,
    }
}

fn copy_at(args: &Vec<String>, k: usize) -> (r: Option<String>)
    ensures
        opt(r) == arg_at(args@, k as int),
{
    if k < args.len() {
        Some(args[k].as_str().to_owned())
    } else {
        None
    }
}

fn unexpected(w: &str) -> (e: String)
    ensures
        e@ == "unexpected argument: "@ + w@,
{
    let mut e = "unexpected argument: ".to_owned();
    e.append(w);
    e
}

fn push_text(v: &mut Vec<String>, s: String)
    ensures
        crate::bench::strings_of(final(v)@) == crate::bench::strings_of(old(v)@).push(s@),
{
    let ghost before = crate::bench::strings_of(v@);
    v.push(s);
    assert(crate::bench::strings_of(v@) =~= before.push(s@));
}

/// What the arguments of one run ask for, or what is wrong with them.
pub fn run_args(args: &Vec<String>) -> (r: Result<RunArgs, String>)
    ensures
        match (r, run_asked(args@, 0, run_unasked())) {
            (Ok(a), Ok(m)) => {
                &&& m.scenario == Some(a.scenario@)
                &&& opt(a.out) == m.out
                &&& opt(a.home) == m.home
                &&& a.keep_home == m.keep_home
                &&& crate::bench::strings_of(a.sets@) == m.sets
            },
            (Err(e), Ok(m)) => m.scenario is None && e@ == "error: no scenario file given"@,
            (Err(e), Err(f)) => e@ == f,
            (Ok(_), Err(_)) => false,
        },
{
    let mut scenario: Option<String> = None;
    let mut out: Option<String> = None;
    let mut home: Option<String> = None;
    let mut keep_home = false;
    let mut sets: Vec<String> = Vec::new();
    let n: usize = args.len();
    let mut k: usize = 0;
    assert(crate::bench::strings_of(sets@) =~= Seq::empty());
    while k < n
        invariant
            n == args@.len(),
            run_asked(
                args@,
                k as int,
                RunAsked {
                    scenario: opt(scenario),
                    out: opt(out),
                    home: opt(home),
                    keep_home,
                    sets: crate::bench::strings_of(sets@),
                },
            ) == run_asked(args@, 0, run_unasked()),
        decreases n - k,
    {
        let w = args[k].as_str();
        let two: usize = if n - k >= 2 {
            k + 2
        } else {
            n
        };
        if same(w, "--out") {
            out = if n - k >= 2 {
                copy_at(args, k + 1)
            } else {
                None
            };
            k = two;
        } else if same(w, "--home") {
            home = if n - k >= 2 {
                copy_at(args, k + 1)
            } else {
                None
            };
            k = two;
        } else if same(w, "--keep-home") {
            keep_home = true;
            k += 1;
        } else if same(w, "--set") {
            if n - k >= 2 {
                push_text(&mut sets, args[k + 1].as_str().to_owned());
            }
            k = two;
        } else if scenario.is_none() {
            scenario = Some(w.to_owned());
            k += 1;
        } else {
            return Err(unexpected(w));
        }
    }
    match scenario {
        Some(s) => Ok(RunArgs { scenario: s, out, home, keep_home, sets }),
        None => Err("error: no scenario file given".to_owned()),
    }
}

/// What the arguments of a benchmark ask for.
pub struct BenchArgs {
    pub scenario: String,
    pub reps: usize,
    pub label: String,
    pub reports: Option<String>,
    pub sets: Vec<String>,
}

/// What the arguments of a benchmark have asked for so far.
pub struct BenchAsked {
    pub scenario: Option<Seq<char>>,
    pub reps: nat,
    pub label: Seq<char>,
    pub reports: Option<Seq<char>>,
    pub sets: Seq<Seq<char>>,
}

/// The number that an argument is, or else what was there before.
pub open spec fn reps_or(next: Option<Seq<char>>, before: nat) -> nat {
    match next {
        Some(t) => match crate::text::count_in(t) {
            Some(n) => n,
            None => before,
        },
        None => before,
    }
}

/// What the arguments of a benchmark ask for from place `k` on.
pub open spec fn bench_asked(args: Seq<String>, k: int, a: BenchAsked) -> Result<
    BenchAsked,
    Seq<char>,
>
    decreases args.len() - k,
{
    if k >= args.len() {
        Ok(a)
    } else {
        let w = args[k]@;
        let next = arg_at(args, k + 1);
        if w == "--reps"@ {
            bench_asked(args, behind(args, k), BenchAsked { reps: reps_or(next, a.reps), ..a })
        } else if w == "--label"@ {
            bench_asked(
                args,
                behind(args, k),
                match next {
                    Some(l) => BenchAsked { label: l, ..a },
                    None => a,
                },
            )
        } else if w == "--reports"@ {
            bench_asked(args, behind(args, k), BenchAsked { reports: next, ..a })
        } else if w == "--set"@ {
            bench_asked(
                args,
                behind(args, k),
                match next {
                    Some(kv) => BenchAsked { sets: a.sets.push(kv), ..a },
                    None => a,
                },
            )
        } else if a.scenario is None {
            bench_asked(args, k + 1, BenchAsked { scenario: Some(w), ..a })
        } else {
            Err("unexpected argument: "@ + w)
        }
    }
}

/// Nothing was asked for yet: five runs, called a run.
pub open spec fn bench_unasked() -> BenchAsked {
    BenchAsked { scenario: None, reps: 5, label: "run"@, reports: None, sets: Seq::empty() }
}

fn reps_at(args: &Vec<String>, k: usize, before: usize) -> (n: usize)
    ensures
        n == reps_or(arg_at(args@, k as int), before as nat),
{
    if k < args.len() {
        match read_count(args[k].as_str()) {
            Some(n) => n,
            None => before,
        }
    } else {
        before
    }
}

/// What the arguments of a benchmark ask for, or what is wrong with them.
pub fn bench_args(args: &Vec<String>) -> (r: Result<BenchArgs, String>)
    ensures
        match (r, bench_asked(args@, 0, bench_unasked())) {
            (Ok(a), Ok(m)) => {
                &&& m.scenario == Some(a.scenario@)
                &&& a.reps == m.reps
                &&& a.label@ == m.label
                &&& opt(a.reports) == m.reports
                &&& crate::bench::strings_of(a.sets@) == m.sets
            },
            (Err(e), Ok(m)) => m.scenario is None && e@ == "error: no scenario file given"@,
            (Err(e), Err(f)) => e@ == f,
            (Ok(_), Err(_)) => false,
        },
{
    let mut scenario: Option<String> = None;
    let mut reps: usize = 5;
    let mut label = "run".to_owned();
    let mut reports: Option<String> = None;
    let mut sets: Vec<String> = Vec::new();
    let n: usize = args.len();
    let mut k: usize = 0;
    assert(crate::bench::strings_of(sets@) =~= Seq::empty());
    while k < n
        invariant
            n == args@.len(),
            bench_asked(
                args@,
                k as int,
                BenchAsked {
                    scenario: opt(scenario),
                    reps: reps as nat,
                    label: label@,
                    reports: opt(reports),
                    sets: crate::bench::strings_of(sets@),
                },
            ) == bench_asked(args@, 0, bench_unasked()),
        decreases n - k,
    {
        let w = args[k].as_str();
        let two: usize = if n - k >= 2 {
            k + 2
        } else {
            n
        };
        if same(w, "--reps") {
            reps = reps_at(args, k + 1, reps);
            k = two;
        } else if same(w, "--label") {
            if n - k >= 2 {
                label = args[k + 1].as_str().to_owned();
            }
            k = two;
        } else if same(w, "--reports") {
            reports = copy_at(args, k + 1);
            k = two;
        } else if same(w, "--set") {
            if n - k >= 2 {
                push_text(&mut sets, args[k + 1].as_str().to_owned());
            }
            k = two;
        } else if scenario.is_none() {
            scenario = Some(w.to_owned());
            k += 1;
        } else {
            return Err(unexpected(w));
        }
    }
    match scenario {
        Some(s) => Ok(BenchArgs { scenario: s, reps, label, reports, sets }),
        None => Err("error: no scenario file given".to_owned()),
    }
}

/// What the arguments of a comparison ask for.
pub struct CompareArgs {
    pub a: String,
    pub b: String,
    pub out: Option<String>,
}

/// What the arguments of a comparison have asked for so far.
pub struct CompareAsked {
    pub dirs: Seq<Seq<char>>,
    pub out: Option<Seq<char>>,
}

/// What the arguments of a comparison ask for from place `k` on.
pub open spec fn compare_asked(args: Seq<String>, k: int, a: CompareAsked) -> Result<
    CompareAsked,
    Seq<char>,
>
    decreases args.len() - k,
{
    if k >= args.len() {
        Ok(a)
    } else {
        let w = args[k]@;
        if w == "--out"@ {
            compare_asked(
                args,
                behind(args, k),
                CompareAsked { out: arg_at(args, k + 1), ..a },
            )
        } else if a.dirs.len() < 2 {
            compare_asked(args, k + 1, CompareAsked { dirs: a.dirs.push(w), ..a })
        } else {
            Err("unexpected argument: "@ + w)
        }
    }
}

/// What the arguments of a comparison ask for, or what is wrong with them.
pub fn compare_args(args: &Vec<String>) -> (r: Result<CompareArgs, String>)
    ensures
        match (r, compare_asked(args@, 0, CompareAsked { dirs: Seq::empty(), out: None })) {
            (Ok(a), Ok(m)) => {
                &&& m.dirs == seq![a.a@, a.b@]
                &&& opt(a.out) == m.out
            },
            (Err(e), Ok(m)) => m.dirs.len() != 2 && e@
                == "error: compare needs two bundle dirs (e.g. reports/<scenario>-<label>)"@,
            (Err(e), Err(f)) => e@ == f,
            (Ok(_), Err(_)) => false,
        },
{
    let mut dirs: Vec<String> = Vec::new();
    let mut out: Option<String> = None;
    let n: usize = args.len();
    let mut k: usize = 0;
    assert(crate::bench::strings_of(dirs@) =~= Seq::empty());
    while k < n
        invariant
            n == args@.len(),
            dirs@.len() <= 2,
            compare_asked(
                args@,
                k as int,
                CompareAsked { dirs: crate::bench::strings_of(dirs@), out: opt(out) },
            ) == compare_asked(args@, 0, CompareAsked { dirs: Seq::empty(), out: None }),
        decreases n - k,
    {
        let w = args[k].as_str();
        assert(crate::bench::strings_of(dirs@).len() == dirs@.len());
        if same(w, "--out") {
            out = copy_at(args, k + 1);
            k = if n - k >= 2 {
                k + 2
            } else {
                n
            };
        } else if dirs.len() < 2 {
            push_text(&mut dirs, w.to_owned());
            assert(crate::bench::strings_of(dirs@).len() == dirs@.len());
            k += 1;
        } else {
            return Err(unexpected(w));
        }
    }
    assert(crate::bench::strings_of(dirs@).len() == dirs@.len());
    if dirs.len() != 2 {
        return Err(
            "error: compare needs two bundle dirs (e.g. reports/<scenario>-<label>)".to_owned(),
        );
    }
    let a = dirs[0].as_str().to_owned();
    let b = dirs[1].as_str().to_owned();
    assert(crate::bench::strings_of(dirs@) =~= seq![a@, b@]);
    Ok(CompareArgs { a, b, out })
}

/// The last part of a path without its extension, by the platform's rules.
pub uninterp spec fn file_stem_text(path: Seq<char>) -> Option<Seq<char>>;

/// The last part of a path without its extension.
///
/// Calls std's `Path::file_stem`; the contract gives the result, a function of the
/// path alone, the name `file_stem_text`.
#[verifier::external_body]
pub(crate) fn file_stem_of(path: &str) -> (r: Option<String>)
    ensures
        opt(r) == file_stem_text(path@),
{
    std::path::Path::new(path).file_stem().map(|p| p.to_string_lossy().into_owned())
}

/// A text, or another in its place where it is not there.
pub open spec fn or_text(a: Option<Seq<char>>, b: Seq<char>) -> Seq<char> {
    match a {
        Some(t) => t,
        None => b,
    }
}

fn or_else(a: Option<String>, b: &str) -> (r: String)
    ensures
        r@ == or_text(opt(a), b@),
{
    match a {
        Some(t) => t,
        None => b.to_owned(),
    }
}

/// Where a run's files go, given the directory and the stem of its scenario.
pub fn out_below(dir: &str, stem: &str) -> (r: String)
    ensures
        r@ == crate::text::joined_path(crate::text::joined_path(dir@, "runs"@), stem@),
{
    let runs = join_path(dir, "runs");
    join_path(runs.as_str(), stem)
}

/// Where a run's files go unless told otherwise: below `runs`, beside the
/// scenario, under the scenario's name.
pub fn default_out(scenario: &str) -> (r: String)
    ensures
        r@ == crate::text::joined_path(
            crate::text::joined_path(
                or_text(crate::commands::parent_text(scenario@), "."@),
                "runs"@,
            ),
            or_text(file_stem_text(scenario@), ""@),
        ),
{
    let dir = or_else(parent_of(scenario), ".");
    let stem = or_else(file_stem_of(scenario), "");
    out_below(dir.as_str(), stem.as_str())
}

/// The directory above a scenario's own.
pub open spec fn grandparent(scenario: Seq<char>) -> Option<Seq<char>> {
    match crate::commands::parent_text(scenario) {
        Some(p) => crate::commands::parent_text(p),
        None => None,
    }
}

/// Where reports go unless told otherwise: below `reports`, beside the directory
/// of the scenario.
pub fn default_reports(scenario: &str) -> (r: String)
    ensures
        r@ == crate::text::joined_path(or_text(grandparent(scenario@), "."@), "reports"@),
{
    let above = match parent_of(scenario) {
        Some(p) => parent_of(p.as_str()),
        None => None,
    };
    let dir = or_else(above, ".");
    join_path(dir.as_str(), "reports")
}

/// Where the runs of a scenario and their report go.
pub open spec fn bundle_below(root: Seq<char>, stem: Seq<char>, label: Seq<char>) -> Seq<char> {
    crate::text::joined_path(root, stem + "-"@ + label)
}

/// Where the runs of a scenario and their report go, given the scenario's stem.
pub fn bundle_under(root: &str, stem: &str, label: &str) -> (r: String)
    ensures
        r@ == bundle_below(root@, stem@, label@),
{
    let mut name = stem.to_owned();
    name.append("-");
    name.append(label);
    join_path(root, name.as_str())
}

/// Where the runs of a scenario and their report go.
pub fn bundle_dir(root: &str, scenario: &str, label: &str) -> (r: String)
    ensures
        r@ == bundle_below(root@, or_text(file_stem_text(scenario@), "scenario"@), label@),
{
    let stem = or_else(file_stem_of(scenario), "scenario");
    bundle_under(root, stem.as_str(), label)
}

/// Where the files of a run of a bundle are.
pub open spec fn rep_below(bundle: Seq<char>, rep: int) -> Seq<char> {
    crate::text::joined_path(bundle, "rep"@ + crate::text::decimal_of(rep as nat))
}

/// Where the files of a run of a bundle are.
pub fn rep_dir(bundle: &str, rep: usize) -> (r: String)
    ensures
        r@ == rep_below(bundle@, rep as int),
{
    let mut name = "rep".to_owned();
    name.append(decimal(rep as u64).as_str());
    join_path(bundle, name.as_str())
}

/// The label of a bundle: its last part.
pub fn bundle_label(dir: &str) -> (r: String)
    ensures
        r@ == or_text(crate::commands::file_name_text(dir@), "?"@),
{
    or_else(file_name_of(dir), "?")
}

/// How often a benchmark runs its scenario: at least once.
pub fn reps_to_run(reps: usize) -> (n: usize)
    ensures
        n == if reps < 1 {
            1
        } else {
            reps
        },
{
    if reps < 1 {
        1
    } else {
        reps
    }
}

/// The overrides as arguments.
pub open spec fn set_args(sets: Seq<String>, n: int) -> Seq<Seq<char>>
    decreases n,
{
    if n <= 0 {
        Seq::empty()
    } else {
        set_args(sets, n - 1).push("--set"@).push(sets[n - 1]@)
    }
}

/// The arguments that one run of a benchmark is started with.
pub open spec fn child_line(scenario: Seq<char>, dir: Seq<char>, sets: Seq<String>) -> Seq<
    Seq<char>,
> {
    seq![
        "run"@,
        scenario,
        "--out"@,
        dir,
        "--home"@,
        crate::text::joined_path(dir, "home"@),
        "--keep-home"@,
    ] + set_args(sets, sets.len() as int)
}

/// The arguments that one run of a benchmark is started with: a run of its own,
/// with a home of its own.
pub fn child_args(scenario: &str, dir: &str, sets: &Vec<String>) -> (v: Vec<String>)
    ensures
        crate::bench::strings_of(v@) == child_line(scenario@, dir@, sets@),
{
    let mut v: Vec<String> = Vec::new();
    v.push("run".to_owned());
    v.push(scenario.to_owned());
    v.push("--out".to_owned());
    v.push(dir.to_owned());
    v.push("--home".to_owned());
    v.push(join_path(dir, "home"));
    v.push("--keep-home".to_owned());
    let ghost head = seq![
        "run"@,
        scenario@,
        "--out"@,
        dir@,
        "--home"@,
        crate::text::joined_path(dir@, "home"@),
        "--keep-home"@,
    ];
    assert(crate::bench::strings_of(v@) =~= head + set_args(sets@, 0));
    let mut k: usize = 0;
    while k < sets.len()
        invariant
            k <= sets@.len(),
            crate::bench::strings_of(v@) == head + set_args(sets@, k as int),
        decreases sets@.len() - k,
    {
        push_text(&mut v, "--set".to_owned());
        push_text(&mut v, sets[k].as_str().to_owned());
        k += 1;
        assert(crate::bench::strings_of(v@) =~= head + set_args(sets@, k as int));
    }
    v
}

/// The word is one of the options of a run.
pub open spec fn is_run_option(w: Seq<char>) -> bool {
    w == "--out"@ || w == "--home"@ || w == "--keep-home"@ || w == "--set"@
}

proof fn options_differ()
    ensures
        "--home"@ != "--out"@,
        "--keep-home"@ != "--out"@,
        "--keep-home"@ != "--home"@,
        "--set"@ != "--out"@,
        "--set"@ != "--home"@,
        "--set"@ != "--keep-home"@,
{
    reveal_strlit("--out");
    reveal_strlit("--home");
    reveal_strlit("--keep-home");
    reveal_strlit("--set");
    assert("--home"@[2] == 'h');
    assert("--out"@[2] == 'o');
    assert("--keep-home"@[2] == 'k');
    assert("--set"@[2] == 's');
}

proof fn set_args_are_pairs(sets: Seq<String>, n: int, k: int)
    requires
        0 <= k < n <= sets.len(),
    ensures
        set_args(sets, n).len() == 2 * n,
        set_args(sets, n)[2 * k] == "--set"@,
        set_args(sets, n)[2 * k + 1] == sets[k]@,
    decreases n,
{
    assert(set_args(sets, 0) == Seq::<Seq<char>>::empty());
    if n > 1 {
        set_args_are_pairs(sets, n - 1, if k < n - 1 {
            k
        } else {
            0
        });
    }
}

proof fn sets_are_asked_for(args: Seq<String>, from: int, sets: Seq<String>, k: int, a: RunAsked)
    requires
        0 <= from,
        0 <= k <= sets.len(),
        args.len() == from + 2 * sets.len(),
        forall|i: int|
            0 <= i < sets.len() ==> (#[trigger] sets[i])@ == args[from + 2 * i + 1]@ && args[from + 2
                * i]@ == "--set"@,
        a.sets == crate::bench::strings_of(sets).take(k),
    ensures
        run_asked(args, from + 2 * k, a) == Ok::<RunAsked, Seq<char>>(
            RunAsked { sets: crate::bench::strings_of(sets), ..a },
        ),
    decreases sets.len() - k,
{
    let all = crate::bench::strings_of(sets);
    if k < sets.len() {
        options_differ();
        assert(sets[k]@ == args[from + 2 * k + 1]@);
        assert(all.take(k + 1) =~= all.take(k).push(sets[k]@));
        let b = RunAsked { sets: a.sets.push(sets[k]@), ..a };
        sets_are_asked_for(args, from, sets, k + 1, b);
        assert(run_asked(args, from + 2 * k, a) == run_asked(args, from + 2 * (k + 1), b));
    } else {
        assert(all.take(k) =~= all);
        assert(a == (RunAsked { sets: all, ..a }));
    }
}

/// A run of a benchmark asks for what the benchmark was asked for: the arguments
/// that it is started with, read behind the word for a run, name the scenario,
/// where to write to, a home of its own that is kept, and every override in its
/// order.
pub proof fn child_asks_for_what_it_is_given(
    line: Seq<String>,
    scenario: Seq<char>,
    dir: Seq<char>,
    sets: Seq<String>,
)
    requires
        crate::bench::strings_of(line) == child_line(scenario, dir, sets),
        !is_run_option(scenario),
    ensures
        line[0]@ == "run"@,
        run_asked(line.skip(1), 0, run_unasked()) == Ok::<RunAsked, Seq<char>>(
            RunAsked {
                scenario: Some(scenario),
                out: Some(dir),
                home: Some(crate::text::joined_path(dir, "home"@)),
                keep_home: true,
                sets: crate::bench::strings_of(sets),
            },
        ),
{
    options_differ();
    let words = crate::bench::strings_of(line);
    let args = line.skip(1);
    let n = sets.len() as int;
    if n > 0 {
        set_args_are_pairs(sets, n, 0);
    }
    assert(words.len() == 7 + 2 * n);
    assert(line.len() == words.len());
    assert forall|i: int| 0 <= i < line.len() implies (#[trigger] line[i])@ == words[i] by {}
    assert forall|i: int| 0 <= i < n implies (#[trigger] sets[i])@ == args[6 + 2 * i + 1]@
        && args[6 + 2 * i]@ == "--set"@ by {
        set_args_are_pairs(sets, n, i);
        assert(args[6 + 2 * i] == line[7 + 2 * i]);
        assert(args[6 + 2 * i + 1] == line[7 + 2 * i + 1]);
        assert(words[7 + 2 * i] == set_args(sets, n)[2 * i]);
        assert(words[7 + 2 * i + 1] == set_args(sets, n)[2 * i + 1]);
    }
    assert(line[0]@ == words[0]);
    assert(args[0]@ == scenario) by {
        assert(line[1]@ == words[1]);
    }
    assert(args[1]@ == "--out"@) by {
        assert(line[2]@ == words[2]);
    }
    assert(args[2]@ == dir) by {
        assert(line[3]@ == words[3]);
    }
    assert(args[3]@ == "--home"@) by {
        assert(line[4]@ == words[4]);
    }
    let home = crate::text::joined_path(dir, "home"@);
    assert(args[4]@ == home) by {
        assert(line[5]@ == words[5]);
    }
    assert(args[5]@ == "--keep-home"@) by {
        assert(line[6]@ == words[6]);
    }
    let a1 = RunAsked { scenario: Some(scenario), ..run_unasked() };
    let a2 = RunAsked { out: Some(dir), ..a1 };
    let a3 = RunAsked { home: Some(home), ..a2 };
    let a4 = RunAsked { keep_home: true, ..a3 };
    assert(run_asked(args, 0, run_unasked()) == run_asked(args, 1, a1));
    assert(run_asked(args, 1, a1) == run_asked(args, 3, a2));
    assert(run_asked(args, 3, a2) == run_asked(args, 5, a3));
    assert(run_asked(args, 5, a3) == run_asked(args, 6, a4));
    assert(a4.sets =~= crate::bench::strings_of(sets).take(0));
    sets_are_asked_for(args, 6, sets, 0, a4);
}

} // verus!
