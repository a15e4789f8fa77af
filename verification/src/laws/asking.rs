//! What is asked for on the command line, in settings and by keys.

use vstd::prelude::*;

use crate::cli::{
    bench_asked, compare_asked, ends, reps_or, BenchAsked, CompareAsked,
};
use crate::commands::{
    bound, command_named, tilde_expanded, unquoted, CommandEntry, KeyBinding,
};
use crate::handoff::{opaque_pixels, plain_end, STEM_LIMIT};
use crate::ingest::{
    entry_routed, is_hidden_name, line_path, plausible, routed, stub_of, EntryKind, Route, Stat,
};
use crate::metas::is_stale;
use crate::start::{first_sort, first_tuning, Options};
use crate::stats::{Causes, RedrawStats};
use crate::text::decimal_of;
use crate::tuning::{first_there, SortMode, Tuning};

verus! {

/// Of two bindings of one key the later counts.
pub proof fn the_later_binding_counts(keys: Seq<KeyBinding>, b: KeyBinding, key: Seq<char>)
    ensures
        b.key@ == key ==> bound(keys.push(b), key) == Some(b.value@),
        b.key@ != key ==> bound(keys.push(b), key) == bound(keys, key),
        bound(Seq::empty(), key) is None,
{
    assert(keys.push(b).drop_last() =~= keys);
}

/// Of two commands of one name the later counts.
pub proof fn the_later_command_counts(commands: Seq<CommandEntry>, c: CommandEntry, name: Seq<char>)
    ensures
        c.name@ == name ==> command_named(commands.push(c), name) == Some(c.command),
        c.name@ != name ==> command_named(commands.push(c), name) == command_named(commands, name),
        command_named(Seq::empty(), name) is None,
{
    assert(commands.push(c).drop_last() =~= commands);
}

/// Quotes of one kind around a text are taken off, and nothing else is.
pub proof fn quotes_are_taken_off(inner: Seq<char>, q: char, r: char)
    requires
        q == '\'' || q == '"',
    ensures
        unquoted(seq![q] + inner + seq![q]) == inner,
        r != q ==> unquoted(seq![q] + inner + seq![r]) == seq![q] + inner + seq![r],
        inner.len() > 0 && inner[0] != '\'' && inner[0] != '"' ==> unquoted(inner) == inner,
{
    let s = seq![q] + inner + seq![q];
    assert(s.subrange(1, s.len() - 1) =~= inner);
}

/// A directory below the home directory is found there; without one it stays as written.
pub proof fn the_home_directory_is_filled_in(rest: Seq<char>, home: Seq<char>, other: Seq<char>)
    requires
        rest.len() > 0,
        rest[0] != '/',
        home.len() > 0,
        home.last() != '/',
        other.len() == 0 || other[0] != '~',
    ensures
        tilde_expanded("~/"@ + rest, Some(home)) == home + seq!['/'] + rest,
        tilde_expanded("~/"@ + rest, None) == "~/"@ + rest,
        tilde_expanded(other, Some(home)) == other,
{
    reveal_strlit("~/");
    let s = "~/"@ + rest;
    assert(s.subrange(0, 2) =~= "~/"@);
    assert(s.subrange(2, s.len() as int) =~= rest);
    assert(home.push('/') =~= home + seq!['/']);
    if other.len() >= 2 {
        assert(other.subrange(0, 2)[0] == other[0]);
    }
}

/// A count of runs is taken as written, and what is no count changes nothing.
pub proof fn a_count_of_runs_is_taken(n: nat, before: nat, word: Seq<char>)
    requires
        n <= usize::MAX,
    ensures
        reps_or(Some(decimal_of(n)), before) == n,
        crate::text::count_in(word) is None ==> reps_or(Some(word), before) == before,
        reps_or(None, before) == before,
{
    super::numbers::figures_read_back(n);
}

/// Directories are compared in the order in which they are named, and a third is refused.
pub proof fn two_directories_are_compared(args: Seq<String>, out: Option<Seq<char>>)
    requires
        args.len() >= 2,
        args[0]@ != "--out"@,
        args[1]@ != "--out"@,
    ensures
        ({
            let a = CompareAsked { dirs: Seq::empty(), out };
            let r = compare_asked(args, 0, a);
            &&& args.len() == 2 ==> (r matches Ok(c) && c.dirs.len() == 2 && c.dirs[0] == args[0]@
                && c.dirs[1] == args[1]@ && c.out == out)
            &&& args.len() == 3 && args[2]@ != "--out"@ ==> r is Err
        }),
{
    reveal_with_fuel(compare_asked, 4);
}

/// A scenario is named once, and a second name is refused.
pub proof fn one_scenario_is_run(args: Seq<String>, a: BenchAsked)
    requires
        args.len() == 2,
        a.scenario is None,
        forall|k: int|
            0 <= k < 2 ==> (#[trigger] args[k])@ != "--reps"@ && args[k]@ != "--label"@ && args[k]@
                != "--reports"@ && args[k]@ != "--set"@,
    ensures
        bench_asked(args, 0, a) is Err,
        bench_asked(args.take(1), 0, a) == Ok::<BenchAsked, Seq<char>>(
            BenchAsked { scenario: Some(args[0]@), ..a },
        ),
{
    reveal_with_fuel(bench_asked, 3);
    let one = args.take(1);
    assert(one[0]@ == args[0]@);
    assert(args[1]@ != "--reps"@);
}

/// A text ends with what it was made of last.
pub proof fn a_text_ends_with_its_tail(head: Seq<char>, tail: Seq<char>)
    ensures
        ends(head + tail, tail),
        head.len() < tail.len() ==> !ends(head, tail),
{
    let s = head + tail;
    assert(s.subrange(s.len() - tail.len(), s.len() as int) =~= tail);
}

/// Of the settings those given at the start come first, then those of the file unless it
/// is left out; the order given at the start comes before that of the settings.
pub proof fn what_is_given_comes_first(opts: Options, config: Tuning, given: Tuning, sort: SortMode)
    ensures
        opts.tuning == Some(given) ==> first_tuning(opts, Some(config)) == given,
        opts.tuning is None && !opts.no_config ==> first_tuning(opts, Some(config)) == config,
        opts.tuning is None && opts.no_config ==> first_tuning(opts, Some(config))
            == crate::tuning::default_tuning(),
        opts.sort == Some(sort) ==> first_sort(opts, config) == sort,
        opts.sort is None ==> first_sort(opts, config) == config.sort,
{
}

/// The first file that is there is read.
pub proof fn the_first_file_there_is_read(there: Seq<bool>, from: int, k: int)
    requires
        0 <= from <= k < there.len(),
        there[k],
        forall|j: int| from <= j < k ==> !#[trigger] there[j],
    ensures
        first_there(there, from) == k,
    decreases k - from,
{
    if from < k {
        the_first_file_there_is_read(there, from + 1, k);
    }
}

/// A directory is walked where that is asked for, a video is let in, read first where it
/// is to be checked and its bytes are here, and all else is passed over.
pub proof fn paths_find_their_way(stat: Option<Stat>, video: bool, cloud: bool, recurse: bool, check: bool)
    ensures
        ({
            let r = routed(stat, video, cloud, recurse, check);
            &&& r is Walk <==> (stat matches Some(m) && m.is_dir) && recurse
            &&& r is Sniff ==> check && !cloud && video && (stat matches Some(m) && !m.is_dir
                && m.len == r->len)
            &&& cloud ==> !(r is Sniff) && !(r is Reject)
            &&& !video ==> r is Walk || r is Skip
            &&& stat is None && video && !cloud ==> r is Reject
            &&& (stat matches Some(m) && !m.is_dir) && video && !check ==> r == (Route::Admit {
                readable: true,
            })
            &&& stat is None && video && cloud ==> r == (Route::Admit { readable: false })
        }),
{
}

/// In a directory what is hidden is passed over, directories are walked to their depth and
/// videos are looked into.
pub proof fn entries_find_their_way(hidden: bool, kind: EntryKind, video: bool, depth: usize, most: usize)
    ensures
        ({
            let r = entry_routed(hidden, kind, video, depth, most);
            &&& hidden ==> r is Skip
            &&& r is Walk <==> !hidden && kind is Dir && depth < most
            &&& r is Sniff <==> !hidden && kind is File && video
        }),
{
}

/// A stub stands for the file whose name it holds; its own name is hidden.
pub proof fn a_stub_stands_for_its_file(name: Seq<u8>)
    ensures
        ({
            let dot = seq![0x2eu8];
            let s = dot + name + crate::ingest::stub_suffix();
            &&& stub_of(s) == Some(name)
            &&& is_hidden_name(s)
        }),
        name.len() > 0 && name[0] != 0x2e ==> stub_of(name) is None && !is_hidden_name(name),
{
    let s = seq![0x2eu8] + name + crate::ingest::stub_suffix();
    let n = s.len() as int;
    assert(s.subrange(n - 7, n) =~= crate::ingest::stub_suffix());
    assert(s.subrange(1, n - 7) =~= name);
}

/// A line is a path without the return at its end.
pub proof fn a_line_is_a_path(path: Seq<u8>)
    ensures
        line_path(path.push(13)) == path,
        path.len() > 0 && path.last() != 13 ==> line_path(path) == path,
{
    assert(path.push(13).drop_last() =~= path);
}

/// An empty file is no video; one whose beginning cannot be read is taken at its word.
pub proof fn an_empty_file_is_no_video(e: Option<Seq<char>>, len: u64, head: Option<Seq<u8>>)
    ensures
        !plausible(e, 0, head),
        len > 0 && (head is None || e is None) ==> plausible(e, len, head),
{
}

/// What is known of a clip is stale where it is incomplete or of another file.
pub proof fn what_is_known_grows_stale(m: crate::metas::Meta, path: u64)
    ensures
        is_stale(Some(m), path) <==> !(m.complete && m.src == path),
        !is_stale(None, path),
{
}

/// Every frame is counted, once for each cause and as idle where nothing moves.
pub proof fn frames_are_counted_by_cause(r: RedrawStats, c: Causes)
    requires
        r.frames < u32::MAX,
        r.idle < u32::MAX,
        r.motion < u32::MAX,
        r.live < u32::MAX,
        r.timer < u32::MAX,
        r.transition < u32::MAX,
    ensures
        ({
            let t = r.with_frame(c);
            let one = |b: bool|
                if b {
                    1int
                } else {
                    0int
                };
            &&& t.frames == r.frames + 1
            &&& t.idle == r.idle + one(!c.animating)
            &&& t.motion == r.motion + one(c.motion)
            &&& t.transition == r.transition + one(c.transition)
            &&& t.live == r.live + one(c.live)
            &&& t.timer == r.timer + one(c.timer)
            &&& t.at == r.at
        }),
{
}

/// A picture without its opacity keeps the three colours of every pixel, in order.
pub proof fn pixels_keep_their_colours(rgba: Seq<u8>, n: int, k: int, c: int)
    requires
        0 <= k < n,
        0 <= c < 3,
        rgba.len() == 4 * n,
    ensures
        opaque_pixels(rgba, n).len() == 3 * n,
        opaque_pixels(rgba, n)[3 * k + c] == rgba[4 * k + c],
{
    reveal(opaque_pixels);
    let i = 3 * k + c;
    assert(i / 3 == k && i % 3 == c);
}

/// Of a name the end is kept, as much as there is room for, letter for letter but for what
/// is neither letter nor figure.
pub proof fn the_end_of_a_name_is_kept(stem: Seq<char>, k: int)
    requires
        0 <= k < plain_end(stem).len(),
    ensures
        ({
            let e = plain_end(stem);
            let c = stem[stem.len() - e.len() + k];
            &&& e.len() == stem.len() || (e.len() == STEM_LIMIT && stem.len() > STEM_LIMIT)
            &&& crate::handoff::alphanumeric(c) ==> e[k] == c
            &&& !crate::handoff::alphanumeric(c) ==> e[k] == '_'
        }),
{
}

} // verus!
