//! Which clips play, when their streams start and rest, and how large they are.

use vstd::prelude::*;

use crate::grid::Layout;
use crate::live::{fitted, source_size, start_at, LaneSight};
use crate::model::Effect;
use crate::state::State;
use crate::tuning::Interaction;

verus! {

/// Streams play at the level at which things play, outside the demo, and not while
/// playback rests; resting, the large stream keeps its clip.
pub proof fn the_large_stream_plays_the_selection(s: State)
    requires
        s.live(),
        !s.setup.demo,
    ensures
        ({
            let rests = !s.modes.focused && s.setup.tuning.pause_unfocused
                && s.modes.focus_pause_on;
            let pointer = s.setup.tuning.interaction == Interaction::Attention
                && !s.modes.quickview && !s.modes.fullview && s.modes.mouse_attention;
            &&& !rests && !pointer ==> s.sel_target() == Some(s.refs.selected)
            &&& !rests && pointer ==> s.sel_target() == s.refs.hovered
            &&& rests && s.lanes.live_sel is None ==> s.sel_target() is None
            &&& rests && s.lanes.live_sel is Some ==> s.sel_target() == Some(
                s.lanes.live_sel->0.clip,
            )
        }),
{
}

/// Nothing plays in the demo or below the level at which things play.
pub proof fn without_playback_nothing_plays(s: State, lay: Layout)
    requires
        s.setup.demo || !s.live(),
    ensures
        s.sel_target() is None,
        s.hover_target() is None,
        s.warm_targets(lay).len() == 0,
{
}

/// The small stream plays the hovered chip of the filmstrip in the quick view, else the
/// hovered tile, but never the selection, nor where attention moves the large one.
pub proof fn the_small_stream_plays_what_is_hovered(s: State, h: usize)
    requires
        s.live(),
        !s.setup.demo,
        !s.paused(),
    ensures
        s.modes.quickview && s.refs.strip_hover == Some(h) && h != s.refs.selected
            ==> s.hover_target() == Some(h),
        s.modes.quickview && s.refs.strip_hover is None ==> s.hover_target() is None,
        !s.modes.quickview && s.setup.tuning.interaction != Interaction::Attention
            && s.refs.hovered == Some(h) && h != s.refs.selected ==> s.hover_target() == Some(h),
        !s.modes.quickview && s.setup.tuning.interaction == Interaction::Attention
            ==> s.hover_target() is None,
        s.hover_target() != Some(s.refs.selected),
{
}

/// A clip can play whose thumbnail is there, which can be read and is no placeholder, and
/// whose stream did not fail within the last thirty seconds; no other can.
pub proof fn a_clip_plays_where_it_can(s: State, i: usize, resume: Option<i64>, now: u64)
    requires
        i < s.clips.len(),
    ensures
        ({
            let c = s.clips[i as int];
            let fresh = s.live_retry.contains_key(c.path) && (now < s.live_retry[c.path] || now
                - s.live_retry[c.path] < 30_000_000_000);
            &&& s.spawnable(i, resume, now) is Some <==> c.thumb is Ready && c.readable && !c.cloud
                && !fresh
            &&& s.spawnable(i, resume, now) matches Some(a) ==> a.clip == i && a.path == c.path
                && a.resume == resume && a.tw == c.thumb->tw && a.th == c.thumb->th
        }),
{
}

/// The large decoder starts for its clip once the selection has rested for as long as the
/// settings say; the quick view does not wait. It goes on where the small stream of the
/// same clip was.
pub proof fn the_large_stream_starts_when_the_selection_rests(s: State, now: u64)
    requires
        s.refs.selected < s.clips.len(),
        s.lanes.live_sel is None,
        s.refs.pending_reselect is None,
        s.warm.len() == 0,
        s.setup.tuning.interaction != Interaction::Attention,
        s.spawnable(s.refs.selected, s.resume_of(s.refs.selected), now) is Some,
    ensures
        ({
            let waited = now >= s.refs.sel_changed_at && now - s.refs.sel_changed_at
                >= s.setup.tuning.live_delay;
            let r = s.sel_spawn(Some(s.refs.selected), now);
            &&& s.modes.quickview || waited ==> (r matches Some(a) && a.clip == s.refs.selected)
            &&& !s.modes.quickview && !waited && s.setup.tuning.live_delay > 0 ==> r is None
            &&& (s.lanes.hover_resume matches Some(h) && h.clip == s.refs.selected) && r is Some
                ==> r->0.resume == Some(s.lanes.hover_resume->0.pos)
        }),
{
}

/// A stream that plays the selection plays on; one that plays another clip stops, unless
/// a new listing is waited for with it, and is kept warm where it is a likely next move.
pub proof fn a_stream_of_another_clip_stops(s: State, target: usize, warm: Seq<usize>)
    requires
        s.lanes.live_sel is Some,
    ensures
        ({
            let l = s.lanes.live_sel->0;
            let t = s.sel_stopped(Some(target), warm);
            &&& l.clip == target ==> t == s
            &&& l.clip != target && s.refs.pending_reselect != Some(l.path) ==> t.lanes.live_sel is None
            &&& l.clip != target && s.refs.pending_reselect != Some(l.path) && warm.contains(l.clip)
                ==> t.warm == s.warm.push(l)
            &&& l.clip != target && s.refs.pending_reselect != Some(l.path) && !warm.contains(
                l.clip,
            ) ==> t.warm == s.warm
            &&& s.refs.pending_reselect == Some(l.path) ==> t == s
        }),
{
}

/// The next clip is kept warm, and in the grid the one below; nothing while the layout or
/// the library is in flux.
pub proof fn likely_moves_are_kept_warm(s: State, lay: Layout, k: int)
    requires
        s.live(),
        !s.setup.demo,
        s.refs.selected < s.clips.len() <= crate::state::MAX_CLIPS,
    ensures
        ({
            let v = s.warm_targets(lay);
            let flux = s.refs.pending_reselect is Some || s.scene.ribbon is Some
                || s.scene.settling;
            &&& flux ==> v.len() == 0
            &&& !flux && s.refs.selected + 1 < s.clips.len() ==> v.len() > 0 && v[0]
                == s.refs.selected + 1
            &&& v.len() <= 2
            &&& 0 <= k < v.len() ==> v[k] < s.clips.len() && v[k] != s.refs.selected
            &&& s.modes.quickview || s.modes.fullview ==> v.len() <= 1
            &&& !flux && !s.modes.quickview && !s.modes.fullview && (lay.below(
                s.refs.selected as int,
            ) matches Some(d) && d < s.clips.len() && d != s.refs.selected) ==> v.contains(
                lay.below(s.refs.selected as int)->0,
            )
        }),
{
    let v = s.warm_targets(lay);
    let n = s.clips.len();
    let sel = s.refs.selected;
    let next: Seq<usize> = if sel + 1 < n {
        seq![(sel + 1) as usize]
    } else {
        Seq::empty()
    };
    if lay.below(sel as int) is Some {
        let d = lay.below(sel as int)->0;
        if next.contains(d) {
            let i = choose|i: int| 0 <= i < next.len() && next[i] == d;
            if !(s.refs.pending_reselect is Some || s.scene.ribbon is Some || s.scene.settling) {
                assert(v[i] == d);
            }
        }
        if v.len() == next.len() + 1 {
            assert(v[next.len() as int] == d);
        }
    }
}

/// A stream that has failed is gone, and its path is left alone from now on; one that has
/// not is untouched.
pub proof fn a_failed_stream_is_gone(s: State, seen: Seq<LaneSight>, now: u64)
    requires
        s.lanes.live_sel is Some,
        seen.len() == 1,
        seen[0].generation == s.lanes.live_sel->0.generation,
    ensures
        seen[0].failed ==> s.sel_reaped(seen, now).lanes.live_sel is None && s.sel_reaped(
            seen,
            now,
        ).live_retry.contains_key(s.lanes.live_sel->0.path) && s.sel_reaped(
            seen,
            now,
        ).live_retry[s.lanes.live_sel->0.path] == now,
        !seen[0].failed ==> s.sel_reaped(seen, now) == s,
{
    reveal_with_fuel(crate::live::sight_of, 2);
}

/// A stream that starts is that of its clip, from now on and without a frame; its first
/// frame is noted when it comes, and only then.
pub proof fn a_stream_knows_its_first_frame(
    s: State,
    at: crate::live::Spawn,
    d: Option<i64>,
    now: u64,
    then: u64,
    later: u64,
)
    ensures
        ({
            let t = s.sel_started(at, d, now);
            let l = t.lanes.live_sel->0;
            let u = t.sel_served(then);
            let v = u.sel_served(later);
            &&& t.lanes.live_sel is Some
            &&& l.clip == at.clip && l.path == at.path && l.duration == d && l.spawned == now
            &&& l.first_frame is None
            &&& l.generation == s.lanes.next_lane_gen
            &&& t.lanes.next_lane_gen != s.lanes.next_lane_gen
            &&& u.lanes.live_sel->0.first_frame == Some(then)
            &&& v.lanes.live_sel->0.first_frame == Some(then)
            &&& u.lanes.hires_shown == Some(at.path)
            &&& u.lanes.live_sel->0.clip == at.clip
        }),
{
}

/// The large stream rests while playback rests, and while its tile is off the screen with
/// no view to show it; else it plays.
pub proof fn an_unseen_stream_rests(s: State, lay: Layout, first: usize, last: usize, r: int)
    requires
        lay.wf(),
        lay.len == s.clips.len(),
        s.lanes.live_sel is Some,
        s.lanes.live_sel->0.clip < s.clips.len(),
        super::pictures::stands_in(lay, s.lanes.live_sel->0.clip as int, r),
    ensures
        s.rests(lay, first, last) <==> (!s.modes.focused && s.setup.tuning.pause_unfocused
            && s.modes.focus_pause_on) || (!s.modes.quickview && !s.modes.fullview && (r < first || r
            > last)),
{
    let i = s.lanes.live_sel->0.clip as int;
    crate::grid::rows_partition_the_library(lay, i, r);
    crate::grid::row_of_is_one(lay, i, r);
}

/// A hovered stream goes into its slot, and gives it back when it ends.
pub proof fn a_hovered_stream_gives_its_slot_back(s: State, clip: usize, slot: usize)
    requires
        slot < s.slots.len(),
        s.slots[slot as int] is None,
    ensures
        ({
            let t = s.hover_started(clip, slot);
            &&& t.lanes.live_hover matches Some(l) && l.clip == clip && l.slot == slot
                && l.first_frame is None
            &&& t.slots[slot as int] matches Some(o) && o.clip == clip && o.kind is Live
            &&& t.hover_ended().slots == s.slots
            &&& t.hover_ended().lanes.live_hover is None
            &&& t.hover_stopped(Some(clip)) == t
            &&& t.hover_stopped(None).lanes.live_hover is None
        }),
{
    assert(s.hover_started(clip, slot).hover_ended().slots =~= s.slots);
}

/// A stream is decoded in its source's shape, within the texture and never enlarged: a
/// source that fits keeps its size, a larger one touches the texture in one direction.
pub proof fn a_stream_keeps_its_shape(w: int, h: int, bw: int, bh: int)
    requires
        2 <= w,
        2 <= h,
        2 <= bw,
        2 <= bh,
    ensures
        ({
            let (a, b) = fitted(w, h, bw, bh);
            &&& 2 <= a <= bw
            &&& 2 <= b <= bh
            &&& a <= w
            &&& b <= h
            &&& w <= bw && h <= bh ==> a == w && b == h
            &&& w > bw || h > bh ==> a == bw || b == bh
            &&& a > 2 && b > 2 ==> -h < a * h - b * w < w
        }),
{
    if w <= bw && h <= bh {
        assert(w * h - h * w == 0) by (nonlinear_arith);
    } else if bw * h <= bh * w {
        let x = bw * h;
        vstd::arithmetic::div_mod::lemma_fundamental_div_mod(x, w);
        vstd::arithmetic::div_mod::lemma_mod_bound(x, w);
        let q = x / w;
        assert(bw <= w) by (nonlinear_arith)
            requires
                bw * h <= bh * w,
                !(w <= bw && h <= bh),
                h >= 2,
                w >= 2,
                bh >= 2,
        {
            if bw > w {
                assert(h > bh);
                assert(bw * h >= (w + 1) * h);
                assert((w + 1) * h >= (w + 1) * (bh + 1));
                assert((w + 1) * (bh + 1) > bh * w);
            }
        }
        assert(0 <= q <= bh && q <= h && q * w == w * q) by (nonlinear_arith)
            requires
                q == x / w,
                x == bw * h,
                x <= bh * w,
                bw <= w,
                0 <= bw,
                h >= 0,
                w > 0,
        {
            assert(bw * h <= w * h);
        }
    } else {
        let x = bh * w;
        vstd::arithmetic::div_mod::lemma_fundamental_div_mod(x, h);
        vstd::arithmetic::div_mod::lemma_mod_bound(x, h);
        let q = x / h;
        assert(bh <= h) by (nonlinear_arith)
            requires
                bw * h > bh * w,
                !(w <= bw && h <= bh),
                h >= 2,
                w >= 2,
                bw >= 2,
        {
            if bh > h {
                assert(w > bw);
                assert(bh * w >= (h + 1) * w);
                assert((h + 1) * w >= (h + 1) * (bw + 1));
                assert((h + 1) * (bw + 1) > bw * h);
            }
        }
        assert(0 <= q <= bw && q <= w && q * h == h * q) by (nonlinear_arith)
            requires
                q == x / h,
                x == bh * w,
                x <= bw * h,
                bh <= h,
                0 <= bh,
                w >= 0,
                h > 0,
        {
            assert(bh * w <= h * w);
        }
    }
}

/// A stream starts where it is to go on, else at the share of the clip at which its
/// thumbnail was taken.
pub proof fn a_stream_starts_where_it_should(resume: Option<i64>, d: i64, fraction: u32)
    requires
        0 <= d,
        fraction <= 1_000_000_000,
    ensures
        resume matches Some(p) ==> start_at(resume, Some(d), fraction) == p,
        start_at(None, None, fraction) == 0,
        ({
            let p = start_at(None, Some(d), fraction);
            0 <= p <= d && p * 1_000_000_000 <= d * fraction < (p + 1) * 1_000_000_000
        }),
{
    let x = d * fraction;
    assert(0 <= x <= d * 1_000_000_000) by (nonlinear_arith)
        requires
            0 <= d,
            0 <= fraction <= 1_000_000_000,
            x == d * fraction,
    ;
}

/// A source that was filmed on its side is decoded upright: a quarter turn exchanges its
/// width and its height, a half turn does not.
pub proof fn a_turned_source_is_upright(w: u32, h: u32, tw: u32, th: u32)
    ensures
        source_size(Some(w), Some(h), None, tw, th) == (w as int, h as int),
        source_size(Some(w), Some(h), Some(90_000), tw, th) == (h as int, w as int),
        source_size(Some(w), Some(h), Some((-90_000) as i64), tw, th) == (h as int, w as int),
        source_size(Some(w), Some(h), Some(270_000), tw, th) == (h as int, w as int),
        source_size(Some(w), Some(h), Some(180_000), tw, th) == (w as int, h as int),
        source_size(None, Some(h), None, tw, th) == (4 * tw, 4 * th),
        source_size(Some(w), None, None, tw, th) == (4 * tw, 4 * th),
{
}

/// A warm stream of the target becomes the large one, and is moved to where the small
/// stream was if that is more than half a second off.
pub proof fn a_warm_stream_is_taken_over(s: State, k: int, seen: Seq<LaneSight>, p: i64)
    requires
        0 <= k < s.warm.len(),
        seen.len() == 1,
        seen[0].generation == s.warm[k].generation,
        s.lanes.hover_resume == Some(crate::model::Resume { clip: s.warm[k].clip, pos: p }),
    ensures
        ({
            let t = s.promoted(k, seen);
            let off = seen[0].position - p;
            &&& t.lanes.live_sel == Some(s.warm[k])
            &&& t.warm == s.warm.remove(k)
            &&& off > 500_000_000 || off < -500_000_000 ==> t.fx == s.fx.push(
                Effect::SeekLane { generation: s.warm[k].generation, to: p },
            )
            &&& -500_000_000 <= off <= 500_000_000 ==> t.fx == s.fx
        }),
{
    reveal_with_fuel(crate::live::sight_of, 2);
}

/// Where attention leads, the large stream waits for the pointer to rest on its tile;
/// elsewhere for the selection to rest, and in the quick view for neither.
pub proof fn the_large_stream_waits_for_its_guide(s: State, now: u64)
    requires
        s.live(),
        !s.setup.demo,
        s.modes.focused,
        s.refs.hover_changed_at <= now,
        s.refs.sel_changed_at <= now,
    ensures
        ({
            let pointer = s.setup.tuning.interaction == Interaction::Attention
                && !s.modes.quickview && !s.modes.fullview && s.modes.mouse_attention;
            &&& s.modes.quickview ==> s.sel_rested(now)
            &&& pointer ==> (s.sel_rested(now) <==> now - s.refs.hover_changed_at
                >= s.setup.tuning.attention_delay)
            &&& !pointer && !s.modes.quickview ==> (s.sel_rested(now) <==> now
                - s.refs.sel_changed_at >= s.setup.tuning.live_delay)
        }),
{
}

} // verus!
