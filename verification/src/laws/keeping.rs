//! What is kept when the library changes under the selection.

use vstd::prelude::*;

use crate::ingest::{bytes_before, extension, path_end, paths_in};
use crate::library::{closing, moved, moved_warm, nearest_survivor, shuffle_order};
use crate::model::{Clip, SlotOwner};
use crate::state::State;

verus! {

/// When the selected clip goes, the nearest that stays is selected: none is nearer, and
/// of two as near the one before.
pub proof fn the_nearest_that_stays_is_selected(map: Seq<Option<usize>>, sel: int, d: int)
    requires
        0 <= sel < map.len(),
        1 <= d,
        moved(map, sel) is None,
        moved(map, sel - d) is Some || moved(map, sel + d) is Some,
        forall|k: int|
            1 <= k < d ==> (#[trigger] moved(map, sel - k)) is None && moved(map, sel + k) is None,
    ensures
        moved(map, sel - d) matches Some(n) ==> nearest_survivor(map, sel, 1) == n,
        moved(map, sel - d) is None ==> Some(nearest_survivor(map, sel, 1)) == moved(map, sel + d),
{
    the_search_goes_outward(map, sel, 1, d);
}

proof fn the_search_goes_outward(map: Seq<Option<usize>>, sel: int, k: int, d: int)
    requires
        0 <= sel < map.len(),
        1 <= k <= d,
        moved(map, sel - d) is Some || moved(map, sel + d) is Some,
        forall|j: int|
            1 <= j < d ==> (#[trigger] moved(map, sel - j)) is None && moved(map, sel + j) is None,
    ensures
        nearest_survivor(map, sel, k) == nearest_survivor(map, sel, d),
        moved(map, sel - d) matches Some(n) ==> nearest_survivor(map, sel, d) == n,
        moved(map, sel - d) is None ==> Some(nearest_survivor(map, sel, d)) == moved(map, sel + d),
    decreases d - k,
{
    if k < d {
        assert(moved(map, sel - k) is None);
        the_search_goes_outward(map, sel, k + 1, d);
    }
}

/// All that points to a clip follows it, and what pointed to one that went points nowhere.
pub proof fn what_points_to_a_clip_follows_it(
    s: State,
    clips: Seq<Clip>,
    map: Seq<Option<usize>>,
    now: u64,
    j: int,
)
    requires
        0 <= j < s.slots.len(),
    ensures
        ({
            let t = s.remapped(clips, map, now);
            let to = |i: usize|
                if i < map.len() {
                    map[i as int]
                } else {
                    None
                };
            &&& t.clips == clips
            &&& (s.slots[j] matches Some(o) && to(o.clip) is Some) ==> t.slots[j] == Some(
                SlotOwner { clip: to(s.slots[j]->0.clip)->0, kind: s.slots[j]->0.kind },
            )
            &&& (s.slots[j] matches Some(o) && to(o.clip) is None) ==> t.slots[j] is None
            &&& s.slots[j] is None ==> t.slots[j] is None
            &&& (s.refs.hovered matches Some(h) ==> t.refs.hovered == to(h))
            &&& (s.refs.strip_hover matches Some(h) ==> t.refs.strip_hover == to(h))
            &&& (s.lanes.live_sel matches Some(l) ==> match to(l.clip) {
                Some(n) => t.lanes.live_sel matches Some(m) && m.clip == n && m.path == l.path
                    && m.first_frame == l.first_frame,
                None => t.lanes.live_sel is None,
            })
            &&& (s.lanes.live_hover matches Some(l) ==> match to(l.clip) {
                Some(n) => t.lanes.live_hover matches Some(m) && m.clip == n && m.slot == l.slot,
                None => t.lanes.live_hover is None,
            })
            &&& to(s.refs.selected) is Some ==> t.refs.sel_changed_at == s.refs.sel_changed_at
            &&& to(s.refs.selected) is None ==> t.refs.sel_changed_at == now
            &&& (to(s.refs.selected) matches Some(n) && n < clips.len()) ==> t.refs.selected
                == to(s.refs.selected)->0
            &&& t.scene.ribbon is None
            &&& t.pack is None
        }),
{
}

/// Taking one clip out moves those behind it one place up, and no other.
pub proof fn those_behind_move_up(n: nat, i: int, o: int)
    requires
        0 <= i < n <= usize::MAX,
        0 <= o < n,
    ensures
        o < i ==> closing(n, i)[o] == Some(o as usize),
        o == i ==> closing(n, i)[o] is None,
        o > i ==> closing(n, i)[o] == Some((o - 1) as usize),
{
}

/// Warm streams stay in order; those of clips that went are gone.
pub proof fn warm_streams_follow(map: Seq<Option<usize>>, w: Seq<crate::model::SelLive>)
    requires
        w.len() > 0,
    ensures
        ({
            let (all, rest) = (moved_warm(map, w), moved_warm(map, w.drop_last()));
            let l = w.last();
            match moved(map, l.clip as int) {
                Some(n) => all.len() == rest.len() + 1 && all.last().clip == n && all.last().path
                    == l.path && all.drop_last() == rest,
                None => all == rest,
            }
        }),
{
    let (all, rest) = (moved_warm(map, w), moved_warm(map, w.drop_last()));
    if moved(map, w.last().clip as int) is Some {
        assert(all.drop_last() =~= rest);
    }
}

/// Paths are parted at line ends and zero bytes: the first path is what stands before the
/// first of them, and the rest follow.
pub proof fn paths_are_parted(first: Seq<u8>, end: u8, rest: Seq<u8>)
    requires
        end == 10 || end == 0,
        forall|k: int| 0 <= k < first.len() ==> #[trigger] first[k] != 10 && first[k] != 0,
    ensures
        ({
            let b = first + seq![end] + rest;
            &&& paths_in(b, 0).len() > 0
            &&& paths_in(b, 0)[0] == first
            &&& paths_in(b, 0).skip(1) == paths_in(b, first.len() as int + 1)
            &&& paths_in(first, 0).len() == 0
        }),
{
    let b = first + seq![end] + rest;
    the_end_is_found(b, 0, first.len() as int);
    no_end_is_found(first, 0);
    let e = first.len() as int;
    assert(b.subrange(0, e) =~= first);
    assert(paths_in(b, 0) == seq![b.subrange(0, e)] + paths_in(b, e + 1));
    assert(paths_in(b, 0).skip(1) =~= paths_in(b, e + 1));
}

proof fn the_end_is_found(b: Seq<u8>, j: int, e: int)
    requires
        0 <= j <= e < b.len(),
        b[e] == 10 || b[e] == 0,
        forall|k: int| 0 <= k < e ==> #[trigger] b[k] != 10 && b[k] != 0,
    ensures
        path_end(b, j) == Some(e),
    decreases e - j,
{
    if j < e {
        the_end_is_found(b, j + 1, e);
    }
}

proof fn no_end_is_found(b: Seq<u8>, j: int)
    requires
        0 <= j <= b.len(),
        forall|k: int| 0 <= k < b.len() ==> #[trigger] b[k] != 10 && b[k] != 0,
    ensures
        path_end(b, j) is None,
    decreases b.len() - j,
{
    if j < b.len() {
        no_end_is_found(b, j + 1);
    }
}

/// An extension is what stands behind the last dot, unless that dot is the first letter.
pub proof fn an_extension_stands_behind_the_last_dot(stem: Seq<char>, ext: Seq<char>)
    requires
        forall|k: int| 0 <= k < ext.len() ==> #[trigger] ext[k] != '.',
    ensures
        stem.len() > 0 ==> extension(stem + seq!['.'] + ext) == Some(ext),
        extension(seq!['.'] + ext) is None,
        extension(ext) is None,
{
    let s = stem + seq!['.'] + ext;
    the_last_dot_is_found(s, s.len() as int, stem.len() as int);
    assert(s.subrange(stem.len() as int + 1, s.len() as int) =~= ext);
    let t = seq!['.'] + ext;
    the_last_dot_is_found(t, t.len() as int, 0);
    no_dot_is_found(ext, ext.len() as int);
}

proof fn the_last_dot_is_found(s: Seq<char>, n: int, i: int)
    requires
        0 <= i < n <= s.len(),
        s[i] == '.',
        forall|k: int| i < k < s.len() ==> #[trigger] s[k] != '.',
    ensures
        crate::ingest::last_dot(s, n) == Some(i),
    decreases n,
{
    if i < n - 1 {
        the_last_dot_is_found(s, n - 1, i);
    }
}

proof fn no_dot_is_found(s: Seq<char>, n: int)
    requires
        0 <= n <= s.len(),
        forall|k: int| 0 <= k < s.len() ==> #[trigger] s[k] != '.',
    ensures
        crate::ingest::last_dot(s, n) is None,
    decreases n,
{
    if n > 0 {
        no_dot_is_found(s, n - 1);
    }
}

/// Names are told apart by the first byte in which they differ, the lesser first, and a
/// name stands before what only continues it.
pub proof fn names_stand_by_their_first_difference(head: Seq<u8>, a: Seq<u8>, b: Seq<u8>)
    requires
        b.len() > 0,
        a.len() == 0 || a[0] != b[0],
    ensures
        bytes_before(head + a, head + b, 0) <==> a.len() == 0 || a[0] < b[0],
        !bytes_before(head, head, 0),
{
    common_heads_decide_nothing(head, a, b, 0);
    let e = Seq::<u8>::empty();
    common_heads_decide_nothing(head, e, e, 0);
    assert(head + e =~= head);
}

proof fn common_heads_decide_nothing(head: Seq<u8>, a: Seq<u8>, b: Seq<u8>, i: int)
    requires
        0 <= i <= head.len(),
    ensures
        bytes_before(head + a, head + b, i) == bytes_before(head + a, head + b, head.len() as int),
    decreases head.len() - i,
{
    if i < head.len() {
        assert((head + a)[i] == (head + b)[i]);
        common_heads_decide_nothing(head, a, b, i + 1);
    }
}

/// A shuffle leaves clips that are not cached in their order, behind the others.
pub proof fn uncached_clips_keep_their_order(clips: Seq<Clip>, seed: u64, k: int)
    ensures
        ({
            let v = shuffle_order(clips, seed);
            let c = crate::library::places(clips, true, clips.len() as int).len() as int;
            let u = crate::library::places(clips, false, clips.len() as int);
            0 <= k < u.len() ==> v.len() == c + u.len() && v[c + k] == u[k]
        }),
{
    let p = crate::library::places(clips, true, clips.len() as int);
    a_shuffle_keeps_the_count(p, p.len() - 1, seed);
}

proof fn a_shuffle_keeps_the_count(v: Seq<usize>, i: int, s: u64)
    requires
        i < v.len(),
    ensures
        crate::library::shuffled(v, i, s).len() == v.len(),
    decreases i,
{
    if i > 0 {
        let t = crate::rng::xorshift(s);
        let j = (t as int) % (i + 1);
        a_shuffle_keeps_the_count(crate::library::swapped(v, i, j), i - 1, t);
    }
}

/// The last place of the cached clips goes to the one that the first draw picks, of all of
/// them.
pub proof fn the_first_draw_fills_the_last_place(v: Seq<usize>, seed: u64)
    requires
        v.len() >= 2,
    ensures
        ({
            let n = v.len() as int;
            let w = crate::library::shuffled(v, n - 1, seed);
            w.len() == n && w[n - 1] == v[(crate::rng::xorshift(seed) as int) % n]
        }),
{
    let n = v.len() as int;
    let t = crate::rng::xorshift(seed);
    let j = (t as int) % n;
    vstd::arithmetic::div_mod::lemma_mod_bound(t as int, n);
    let u = crate::library::swapped(v, n - 1, j);
    later_draws_leave_it(u, n - 2, t, n - 1);
}

proof fn later_draws_leave_it(v: Seq<usize>, i: int, s: u64, k: int)
    requires
        i < k < v.len(),
    ensures
        crate::library::shuffled(v, i, s).len() == v.len(),
        crate::library::shuffled(v, i, s)[k] == v[k],
    decreases i,
{
    if i > 0 {
        let t = crate::rng::xorshift(s);
        let j = (t as int) % (i + 1);
        vstd::arithmetic::div_mod::lemma_mod_bound(t as int, i + 1);
        later_draws_leave_it(crate::library::swapped(v, i, j), i - 1, t, k);
    }
}

/// A jump leads to the clip that its draw picks, of all that may be jumped to.
pub proof fn a_jump_goes_where_its_draw_leads(s: State, seed: u64, now: u64)
    requires
        s.clips.len() <= usize::MAX,
    ensures
        ({
            let v = crate::select::jump_targets(s.clips, s.refs.selected, s.clips.len() as int);
            let t = s.jumped_by(seed, now);
            &&& v.len() == 0 ==> t == s
            &&& v.len() > 0 ==> t.refs.selected == v[(crate::rng::xorshift(seed) as int)
                % (v.len() as int)]
        }),
{
    reveal(State::jumped_by);
    let v = crate::select::jump_targets(s.clips, s.refs.selected, s.clips.len() as int);
    if v.len() > 0 {
        let k = (crate::rng::xorshift(seed) as int) % (v.len() as int);
        vstd::arithmetic::div_mod::lemma_mod_bound(crate::rng::xorshift(seed) as int, v.len() as int);
        crate::select::jumps_lead_to_cached_clips(
            s.clips,
            s.refs.selected,
            s.clips.len() as int,
            k,
        );
    }
}

/// At first nothing is open, marked or playing, the window has the focus, all slots are
/// free, and files are awaited unless the demo runs.
pub proof fn at_first_nothing_is_open(
    opts: crate::start::Options,
    tuning: crate::tuning::Tuning,
    keymap: crate::commands::KeyMap,
    demo: bool,
    clips: Seq<Clip>,
    now: u64,
    i: int,
)
    ensures
        ({
            let s = crate::start::first_state(opts, tuning, keymap, demo, clips, now);
            let a = crate::start::atlas_of(tuning);
            &&& s.clips == clips
            &&& !s.modes.quickview
            &&& !s.modes.fullview
            &&& s.modes.focused
            &&& !s.modes.scrubbing
            &&& s.modes.auto_skip_since is None
            &&& s.chapters is None
            &&& s.lanes.live_sel is None
            &&& s.lanes.live_hover is None
            &&& s.refs.selected == 0
            &&& s.refs.ingesting == !demo
            &&& s.setup.demo == demo
            &&& s.setup.tuning == tuning
            &&& s.slots.len() == a.cols * a.rows
            &&& 0 <= i < s.slots.len() ==> s.slots[i] is None
            &&& s.jobs.total == 0
            &&& opts.fullscreen is None ==> s.fx.len() == 0
            &&& opts.sort == Some(crate::tuning::SortMode::Arrival) ==> !s.refs.sort_armed
            &&& opts.sort == Some(crate::tuning::SortMode::Newest) ==> s.refs.sort_armed
                && s.setup.sort == crate::tuning::SortMode::Newest
        }),
{
    let a = crate::start::atlas_of(tuning);
    assert(a.cols * a.rows >= 0) by (nonlinear_arith)
        requires
            a.cols >= 0,
            a.rows >= 0,
    ;
}

} // verus!
