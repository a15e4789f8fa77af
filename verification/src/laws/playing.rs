//! Where a skip, a scrub or a step between chapters leads in the playing clip, and
//! when the bar of chapters is up.

use vstd::prelude::*;

use crate::chapters::{checkpoint_starts, first_after};
use crate::commands::ActionModel;
use crate::grid::Layout;
use crate::keys::Surroundings;
use crate::model::Effect;
use crate::state::State;

verus! {

/// The selected clip streams and lasts `d`.
pub open spec fn plays(s: State, d: i64) -> bool {
    &&& s.refs.selected < s.clips.len()
    &&& s.lanes.live_sel matches Some(l) && l.path == s.clips[s.refs.selected as int].path
        && l.duration == Some(d)
    &&& d > 50_000_000
}

/// A skip by a share of the clip leads that share of its length on or back, round
/// its ends: exactly so far from the position where neither end is in the way.
pub proof fn a_skip_leads_its_share_on_or_back(
    s: State,
    forward: bool,
    share: u32,
    d: i64,
    lay: Layout,
    around: Surroundings,
    now: u64,
)
    requires
        plays(s, d),
        1_000_000 <= share <= 1_000_000_000,
    ensures
        ({
            let t = s.acted(
                ActionModel::Skip { forward, amount: Some(share) },
                lay,
                around,
                now,
            );
            let pos = around.pos as int;
            let step = share * d / 1_000_000_000;
            &&& t == s.skipped(forward, Some(share), pos, now)
            &&& t.fx.len() == s.fx.len() + 1
            &&& t.fx.take(s.fx.len() as int) == s.fx
            &&& t.modes.skip_flash_at == Some(now)
            &&& t.refs == s.refs
            &&& t.fx.last() matches Effect::Seek { to, exact } && !exact && 0 <= to < d && (if forward {
                &&& (to - pos - step) % (d as int) == 0
                &&& 0 <= pos && pos + step < d ==> to == pos + step
            } else {
                &&& (to - pos + step) % (d as int) == 0
                &&& step <= pos < d ==> to == pos - step
            })
        }),
{
    reveal(State::acted);
    reveal(State::skipped);
    let pos = around.pos as int;
    let e = d as int;
    let step = share * e / 1_000_000_000;
    assert(0 <= share * e) by (nonlinear_arith)
        requires
            share >= 0,
            e >= 0,
    ;
    let a = if forward {
        pos + step
    } else {
        pos - step
    };
    let to = a % e;
    vstd::arithmetic::div_mod::lemma_mod_bound(a, e);
    vstd::arithmetic::div_mod::lemma_fundamental_div_mod(a, e);
    assert((to - a) % e == 0) by {
        assert(to - a == (-(a / e)) * e + 0) by (nonlinear_arith)
            requires
                a == e * (a / e) + to,
        ;
        vstd::arithmetic::div_mod::lemma_fundamental_div_mod_converse(to - a, e, -(a / e), 0);
    }
    if 0 <= a < e {
        vstd::arithmetic::div_mod::lemma_small_mod(a as nat, e as nat);
    }
    assert(s.skipped(forward, Some(share), pos, now).fx.take(s.fx.len() as int) =~= s.fx);
}

/// A skip back from where a skip on has led leads to where that began, round the
/// end as within the clip.
pub proof fn a_skip_back_undoes_a_skip_on(
    s: State,
    share: u32,
    d: i64,
    pos: i64,
    now: u64,
    then: u64,
)
    requires
        plays(s, d),
        1_000_000 <= share <= 1_000_000_000,
        0 <= pos < d,
    ensures
        s.skipped(true, Some(share), pos as int, now).fx.last() matches Effect::Seek { to, .. } && (
        s.skipped(true, Some(share), pos as int, now).skipped(
            false,
            Some(share),
            to as int,
            then,
        ).fx.last() matches Effect::Seek { to: back, .. } && back == pos),
{
    reveal(State::skipped);
    let e = d as int;
    let step = share * e / 1_000_000_000;
    let a = pos + step;
    let to = a % e;
    vstd::arithmetic::div_mod::lemma_mod_bound(a, e);
    vstd::arithmetic::div_mod::lemma_fundamental_div_mod(a, e);
    assert((to - step) % e == pos) by {
        assert(to - step == (-(a / e)) * e + pos) by (nonlinear_arith)
            requires
                a == e * (a / e) + to,
                a == pos + step,
        ;
        vstd::arithmetic::div_mod::lemma_fundamental_div_mod_converse(
            to - step,
            e,
            -(a / e),
            pos as int,
        );
    }
    assert(plays(s.skipped(true, Some(share), pos as int, now), d));
}

/// Without a share a skip takes the configured one; it is never less than a
/// thousandth of the clip, nor more than the whole. Without a stream of the selected
/// clip that knows its length there is nothing to skip.
pub proof fn a_skip_without_a_share_takes_the_settings(
    s: State,
    forward: bool,
    share: u32,
    pos: int,
    now: u64,
)
    ensures
        s.skipped(forward, None, pos, now) == s.skipped(
            forward,
            Some(s.setup.tuning.skip_fraction),
            pos,
            now,
        ),
        share <= 1_000_000 ==> s.skipped(forward, Some(share), pos, now) == s.skipped(
            forward,
            Some(1_000_000),
            pos,
            now,
        ),
        share >= 1_000_000_000 ==> s.skipped(forward, Some(share), pos, now) == s.skipped(
            forward,
            Some(1_000_000_000),
            pos,
            now,
        ),
        (s.refs.selected >= s.clips.len() || s.lanes.live_sel is None
            || s.lanes.live_sel->0.path != s.clips[s.refs.selected as int].path
            || s.lanes.live_sel->0.duration is None || s.lanes.live_sel->0.duration->0 <= 50_000_000)
            ==> s.skipped(forward, Some(share), pos, now) == s,
{
    reveal(State::skipped);
}

/// A scrub leads to that share of the clip, a moment short of its end at most; a
/// larger share leads no less far.
pub proof fn a_scrub_leads_to_its_share(
    s: State,
    share: u32,
    more: u32,
    exact: bool,
    d: i64,
    now: u64,
)
    requires
        plays(s, d),
        share <= more <= 1_000_000_000,
    ensures
        s.scrubbed(share as int, exact, now).fx.len() == s.fx.len() + 1,
        s.scrubbed(share as int, exact, now).fx.last() matches Effect::Seek { to, exact: e } && e
            == exact && 0 <= to <= d - 50_000_000 && (share * d / 1_000_000_000 <= d - 50_000_000
            ==> to * 1_000_000_000 <= share * d < (to + 1) * 1_000_000_000) && (share * d
            / 1_000_000_000 >= d - 50_000_000 ==> to == d - 50_000_000) && (
        s.scrubbed(more as int, exact, now).fx.last() matches Effect::Seek { to: later, .. } && to
            <= later),
{
    reveal(State::scrubbed);
    let (p, q) = (share * d, more * d);
    assert(0 <= p <= q) by (nonlinear_arith)
        requires
            0 <= share <= more,
            d >= 0,
            p == share * d,
            q == more * d,
    ;
    assert(q <= 1_000_000_000 * d) by (nonlinear_arith)
        requires
            more <= 1_000_000_000,
            d >= 0,
            q == more * d,
    ;
}

proof fn the_chapter_is_found(ts: Seq<i64>, p: int, k: int, i: int)
    requires
        0 <= i <= k < ts.len(),
        forall|a: int, b: int| 0 <= a < b < ts.len() ==> ts[a] < ts[b],
        ts[k] <= p,
        k + 1 < ts.len() ==> p < ts[k + 1],
    ensures
        first_after(ts, p, i) == k + 1,
    decreases k - i,
{
    assert(ts[i] <= ts[k]);
    if i < k {
        the_chapter_is_found(ts, p, k, i + 1);
    } else {
        reveal_with_fuel(first_after, 2);
    }
}

/// The chapters of the selected clip are known to start at `ts`, its length is `d`,
/// and `nav` is the one last gone to.
pub open spec fn chaptered(s: State, ts: Seq<i64>, d: i64, nav: Option<usize>) -> bool {
    let path = s.clips[s.refs.selected as int].path;
    &&& plays(s, d)
    &&& 2 <= ts.len() <= usize::MAX
    &&& forall|a: int, b: int| 0 <= a < b < ts.len() ==> ts[a] < ts[b]
    &&& forall|a: int| 0 <= a < ts.len() ==> 0 <= #[trigger] ts[a] <= d - 50_000_000
    &&& ({
        ||| s.chapters matches Some(b) && b.path == path && b.times == Some(ts) && b.duration == Some(d)
            && b.nav == nav
        ||| s.chapters is None && s.modes.gone_to is None && nav is None
            && s.chapter_probe.contains_key(path) && (s.chapter_probe[path] matches Some(plan)
            && plan.times@ == ts && plan.duration == Some(d))
    })
}

/// A step between chapters leads from the chapter that plays to the beginning of the
/// next one, round the end; back, it leads to the beginning of the chapter itself
/// where that is more than two seconds ago, else to the one before.
pub proof fn a_step_leads_to_the_next_chapter(
    s: State,
    forward: bool,
    ts: Seq<i64>,
    d: i64,
    k: int,
    lay: Layout,
    around: Surroundings,
    now: u64,
)
    requires
        s.modes.fullview,
        chaptered(s, ts, d, None),
        0 <= k < ts.len(),
        ts[k] <= around.pos < d,
        k + 1 < ts.len() ==> around.pos < ts[k + 1],
    ensures
        ({
            let dx: i32 = if forward {
                1
            } else {
                (-1) as i32
            };
            let t = s.acted(ActionModel::Move { dx, dy: 0 }, lay, around, now);
            let n = ts.len();
            let target = if forward {
                if k + 1 < n {
                    k + 1
                } else {
                    0
                }
            } else if around.pos - ts[k] > 2_000_000_000 {
                k
            } else if k > 0 {
                k - 1
            } else {
                n - 1
            };
            &&& t.fx.len() > s.fx.len()
            &&& t.fx[s.fx.len() as int] == Effect::Seek { to: ts[target], exact: false }
            &&& t.refs == s.refs
            &&& t.modes.fullview
            &&& t.modes.skip_flash_at == Some(now)
        }),
{
    reveal(State::acted);
    reveal(State::directed);
    reveal(State::chapter_stepped);
    reveal(State::navigated);
    reveal(State::bar_opened);
    reveal(State::plan_applied);
    let n = ts.len() as int;
    the_chapter_is_found(ts, around.pos as int, k, 0);
    vstd::arithmetic::div_mod::lemma_small_mod(around.pos as nat, d as nat);
    if k + 1 < n {
        vstd::arithmetic::div_mod::lemma_small_mod((k + 1) as nat, n as nat);
    } else {
        vstd::arithmetic::div_mod::lemma_mod_self_0(n);
    }
    if k > 0 {
        vstd::arithmetic::div_mod::lemma_fundamental_div_mod_converse(k + n - 1, n, 1, k - 1);
    } else {
        vstd::arithmetic::div_mod::lemma_small_mod((n - 1) as nat, n as nat);
    }
}

/// Where the stream came to rest in the chapter before the one that was gone to, a
/// step on leads past that one, and a step back before it.
pub proof fn a_step_counts_from_the_chapter_gone_to(
    s: State,
    ts: Seq<i64>,
    d: i64,
    k: int,
    pos: i64,
    now: u64,
)
    requires
        0 <= k < ts.len() - 1,
        chaptered(s, ts, d, Some((k + 1) as usize)),
        ts[k] <= pos < ts[k + 1],
    ensures
        ({
            let on = s.chapter_stepped(true, pos as int, now);
            let back = s.chapter_stepped(false, pos as int, now);
            let at = s.fx.len() as int;
            &&& k + 2 < ts.len() ==> on.fx[at] == Effect::Seek { to: ts[k + 2], exact: false }
            &&& k + 2 == ts.len() ==> on.fx[at] == Effect::Seek { to: ts[0], exact: false }
            &&& back.fx[at] == Effect::Seek { to: ts[k], exact: false }
        }),
{
    reveal(State::chapter_stepped);
    reveal(State::navigated);
    reveal(State::bar_opened);
    reveal(State::plan_applied);
    let n = ts.len() as int;
    the_chapter_is_found(ts, pos as int, k, 0);
    assert(pos < d);
    vstd::arithmetic::div_mod::lemma_small_mod(pos as nat, d as nat);
    if k + 2 < n {
        vstd::arithmetic::div_mod::lemma_small_mod((k + 2) as nat, n as nat);
    } else {
        vstd::arithmetic::div_mod::lemma_mod_self_0(n);
    }
    vstd::arithmetic::div_mod::lemma_fundamental_div_mod_converse(k + 1 + n - 1, n, 1, k);
}

/// A chapter picked from the bar is gone to: the stream is sent to its beginning.
pub proof fn a_picked_chapter_is_gone_to(
    s: State,
    ts: Seq<i64>,
    d: i64,
    nav: Option<usize>,
    i: int,
    now: u64,
)
    requires
        chaptered(s, ts, d, nav),
        s.chapters is Some,
        0 <= i < ts.len(),
    ensures
        ({
            let t = s.chapter_sought(i, now);
            &&& t.fx == s.fx.push(Effect::Seek { to: ts[i], exact: false })
            &&& t.chapters matches Some(b) && b.nav == Some(i as usize) && b.times == Some(ts)
            &&& t.refs == s.refs
        }),
{
    reveal(State::chapter_sought);
}

/// The bar shows the chapter as playing that the position lies in.
pub proof fn the_bar_shows_the_chapter_that_plays(
    s: State,
    ts: Seq<i64>,
    d: i64,
    k: int,
    pos: i64,
)
    requires
        chaptered(s, ts, d, None),
        s.chapters is Some,
        0 <= k < ts.len(),
        ts[k] <= pos < d,
        k + 1 < ts.len() ==> pos < ts[k + 1],
    ensures
        s.current_chapter(s.chapters->0, pos as int) == Some(k),
{
    the_chapter_is_found(ts, pos as int, k, 0);
    vstd::arithmetic::div_mod::lemma_small_mod(pos as nat, d as nat);
}

/// Checkpoints stand in for chapters, evenly from the beginning: four of a clip of a
/// minute or more, eight over three minutes, ten over ten, none under a minute.
pub proof fn checkpoints_lie_evenly(d: i64, k: int)
    ensures
        ({
            let v = checkpoint_starts(d as int);
            let n = v.len() as int;
            &&& d < 60_000_000_000 <==> n == 0
            &&& 60_000_000_000 <= d <= 180_000_000_000 <==> n == 4
            &&& 180_000_000_000 < d <= 600_000_000_000 <==> n == 8
            &&& d > 600_000_000_000 <==> n == 10
            &&& 0 <= k < n ==> v[k] * n <= d * k < (v[k] + 1) * n
        }),
{
    let n = checkpoint_starts(d as int).len() as int;
    if 0 <= k < n {
        let p = d * k;
        assert(0 <= p <= 10 * d) by (nonlinear_arith)
            requires
                0 <= k <= 10,
                d >= 0,
                p == d * k,
        ;
        assert(p / n <= d) by (nonlinear_arith)
            requires
                p == d * k,
                0 <= k < n,
                d >= 0,
        {
            assert(d * k <= d * n);
        }
        vstd::arithmetic::div_mod::lemma_fundamental_div_mod(p, n);
        vstd::arithmetic::div_mod::lemma_mod_bound(p, n);
        let q = p / n;
        assert(q >= 0) by (nonlinear_arith)
            requires
                p >= 0,
                n > 0,
                q == p / n,
        ;
        assert(q * n <= p < (q + 1) * n) by (nonlinear_arith)
            requires
                p == n * q + p % n,
                0 <= p % n < n,
        ;
    }
}

/// The clip's own chapters are the plan where there are two or more; else
/// checkpoints of its length are, where that is known.
pub proof fn real_chapters_come_first(times: Seq<i64>, d: Option<i64>)
    ensures
        times.len() >= 2 ==> crate::chapters::plan_of(times, d) == times,
        times.len() < 2 && d is None ==> crate::chapters::plan_of(times, d).len() == 0,
        times.len() < 2 && d is Some ==> crate::chapters::plan_of(times, d) == checkpoint_starts(
            d->0 as int,
        ),
{
}

/// The bar comes up over the full view, to stay where it was asked for, for as long as
/// the settings say where a step shows it; one that stays is not made to go. What is
/// not known of the clip's chapters is asked, once.
pub proof fn the_bar_comes_up(s: State, pos: int, now: u64)
    requires
        s.refs.selected < s.clips.len(),
        !s.setup.demo,
        s.clips[s.refs.selected as int].readable,
        !s.clips[s.refs.selected as int].cloud,
    ensures
        ({
            let path = s.clips[s.refs.selected as int].path;
            let t = s.bar_opened(false, pos, now);
            let p = s.bar_opened(true, pos, now);
            let peek = s.setup.tuning.chapter_peek;
            let unknown = !s.chapter_probe.contains_key(path) || s.chapter_probe[path] is None;
            &&& t.modes.fullview
            &&& t.chapters matches Some(b) && b.path == path && b.peek_until is None && (unknown
                || (s.chapters matches Some(c) && c.path == path) ==> b.open)
            &&& peek > 0 && s.chapters is None && now + peek <= u64::MAX ==> p.modes.fullview && (
            p.chapters matches Some(b) && b.path == path && b.peek_until == Some(
                (now + peek) as u64,
            ))
            &&& peek > 0 && (s.chapters matches Some(b) && b.path == path && b.peek_until is None)
                ==> (p.chapters matches Some(b) && b.open && b.peek_until is None)
            &&& peek == 0 ==> p == s
            &&& s.chapters is None && !s.chapter_probe.contains_key(path) ==> t.fx == s.fx.push(
                Effect::RequestChapters { path },
            ) && t.chapter_probe.contains_key(path) && t.chapter_probe[path] is None
            &&& s.chapters is None && s.chapter_probe.contains_key(path)
                && s.chapter_probe[path] is None ==> t.fx == s.fx
        }),
{
    reveal(State::bar_opened);
    reveal(State::plan_applied);
    reveal(State::bar_closed);
}

/// The bar is for clips that can be looked into: not for a placeholder, an unreadable
/// clip or the demo.
pub proof fn some_clips_have_no_bar(s: State, peek: bool, pos: int, now: u64)
    requires
        s.refs.selected >= s.clips.len() || s.setup.demo
            || !s.clips[s.refs.selected as int].readable
            || s.clips[s.refs.selected as int].cloud,
    ensures
        s.bar_opened(peek, pos, now) == s,
{
    reveal(State::bar_opened);
}

/// A bar that is up is sent down by its key, and one that is not is brought up; one
/// that shows for a moment goes down when its time is over and not before; one that
/// has landed is gone.
pub proof fn the_bar_goes_down(s: State, pos: int, now: u64)
    ensures
        (s.chapters matches Some(b) && b.open) ==> (s.bar_toggled(pos, now).chapters matches Some(c)
            && !c.open && c.path == s.chapters->0.path) && s.bar_toggled(pos, now).modes == s.modes,
        !(s.chapters matches Some(b) && b.open) ==> s.bar_toggled(pos, now) == s.bar_opened(
            false,
            pos,
            now,
        ),
        s.chapters matches Some(b) && b.open && (b.peek_until matches Some(until) && now >= until)
            ==> (s.peek_checked(now).chapters matches Some(c) && !c.open),
        s.chapters matches Some(b) && (b.peek_until is None || now < b.peek_until->0)
            ==> s.peek_checked(now) == s,
        s.chapters matches Some(b) && !b.open ==> s.bar_landed(true).chapters is None,
        s.chapters matches Some(b) && b.open ==> s.bar_landed(true) == s,
        s.bar_landed(false) == s,
{
    reveal(State::bar_toggled);
    reveal(State::bar_closed);
}

/// A bar lives as long as its clip fills the full view.
pub proof fn the_bar_lives_with_its_clip(s: State)
    ensures
        s.chapters matches Some(b) && s.modes.fullview && s.refs.selected < s.clips.len()
            && s.clips[s.refs.selected as int].path == b.path ==> s.bar_kept().chapters
            == s.chapters,
        !s.modes.fullview || s.refs.selected >= s.clips.len() ==> s.bar_kept().chapters is None
            && s.bar_kept().modes.gone_to is None,
        s.chapters matches Some(b) && s.refs.selected < s.clips.len()
            && s.clips[s.refs.selected as int].path != b.path ==> s.bar_kept().chapters is None,
        s.bar_kept().refs == s.refs,
        s.bar_kept().clips == s.clips,
        s.bar_kept().fx == s.fx,
{
}

/// A step is kept with its clip: an open bar that knows its chapters brings the one gone
/// to to its middle, any bar of the clip remembers it, and the bar of another clip does
/// not change.
pub proof fn a_step_is_kept_with_its_clip(s: State, path: u64, target: usize, now: u64)
    requires
        s.chapters is Some,
    ensures
        ({
            let t = s.navigated(path, target, now);
            let b = s.chapters->0;
            &&& b.path == path ==> (t.chapters matches Some(c) && c.nav == Some(target) && c.path
                == path && c.open == b.open && c.times == b.times)
            &&& b.path == path && b.open && b.times is Some ==> t.fx == s.fx.push(
                Effect::CenterChapters { chapter: target, snap: false },
            )
            &&& b.path == path && !(b.open && b.times is Some) ==> t.fx == s.fx
            &&& b.path != path ==> t.chapters == s.chapters && t.fx == s.fx
        }),
{
    reveal(State::navigated);
}

} // verus!
