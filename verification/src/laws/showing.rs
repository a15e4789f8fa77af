//! What the tiles and the views show, what becomes of answers, and what is hovered.

use vstd::prelude::*;

use crate::atlas::Zone;
use crate::flex::Aspect;
use crate::grid::{Layout, Rect};
use crate::media::{chip_shape, probed_shape, MediaResult};
use crate::model::{Effect, Extent, SlotKind, SlotOwner, Thumb, TileReflow};
use crate::scene::{cycle_cell, eased, reflow_place, Crossing, Placed, Source};
use crate::state::State;
use crate::step::{reflowed, wrap_ticked};
use crate::tuning::BackdropStyle;

verus! {

/// The selected tile shows its stream once there is a frame of it, any other its
/// thumbnail, or its storyboard where tiles cycle; a hovered tile its own stream. Behind a
/// view no tile shows the large stream.
pub proof fn a_tile_shows_its_clip(s: State, i: usize)
    requires
        i < s.clips.len(),
    ensures
        ({
            let c = s.clips[i as int];
            let src = s.tile_source(i);
            let view = s.modes.quickview || s.modes.fullview;
            &&& src is Large ==> !view && (s.lanes.live_sel matches Some(l) && l.path == c.path)
            &&& !view && i == s.refs.selected && (s.lanes.live_sel matches Some(l) && l.path == c.path
                && l.first_frame is Some) ==> src is Large
            &&& src is Lane ==> s.refs.hovered == Some(i) && (s.lanes.live_hover matches Some(h)
                && h.clip == i && h.slot == src->Lane_slot && h.first_frame is Some)
            &&& (src matches Source::Still { slot, tw, th }) ==> (c.thumb matches Thumb::Ready {
                slot: a,
                tw: b,
                th: d,
                ..
            } && a == src->Still_slot && b == src->Still_tw && d == src->Still_th)
            &&& src is Sheet ==> s.modes.animated_thumbs && !view && c.anim is Ready
                && src->Sheet_slot == c.anim->slot
            &&& s.lanes.live_sel is None && s.lanes.live_hover is None && !s.modes.animated_thumbs
                && c.thumb is Ready ==> src is Still
            &&& s.lanes.live_sel is None && s.lanes.live_hover is None && !s.modes.animated_thumbs
                && !(c.thumb is Ready) ==> src is Blank
        }),
{
}

/// A placeholder, an unreadable clip, the selection, a marked and a hovered tile are told
/// apart by their fill and their border.
pub proof fn tiles_are_told_apart(s: State, i: usize)
    requires
        i < s.clips.len(),
    ensures
        ({
            let c = s.clips[i as int];
            &&& s.tile_fill(i) is Cloud <==> c.cloud
            &&& s.tile_fill(i) is Unreadable <==> !c.cloud && !c.readable
            &&& s.tile_border(i) is Selected <==> i == s.refs.selected
            &&& s.tile_border(i) is Marked <==> i != s.refs.selected && s.marked.contains(i)
            &&& s.tile_border(i) is Hovered <==> i != s.refs.selected && !s.marked.contains(i)
                && s.refs.hovered == Some(i)
            &&& c.readable && !c.cloud && !(c.thumb is Ready) && i != s.refs.selected
                && !s.marked.contains(i) && s.refs.hovered != Some(i) ==> s.tile_border(i) is Outline
        }),
{
}

/// The selection is drawn over the hovered tile and that over all others; a tile that is
/// placed is drawn, once it has begun to fade in.
pub proof fn the_selection_is_drawn_on_top(
    s: State,
    placed: Seq<Placed>,
    flashing: bool,
    now: u64,
    a: int,
    b: int,
)
    requires
        0 <= a < b < s.tiles_planned(placed, flashing, now).len(),
    ensures
        ({
            let v = s.tiles_planned(placed, flashing, now);
            let rank = |i: usize|
                if i == s.refs.selected {
                    2int
                } else if s.refs.hovered == Some(i) {
                    1int
                } else {
                    0int
                };
            rank(v[a].clip) <= rank(v[b].clip)
        }),
{
    let n = placed.len() as int;
    let (p, q, r) = (
        s.layer_plan(placed, 0, flashing, now, n),
        s.layer_plan(placed, 1, flashing, now, n),
        s.layer_plan(placed, 2, flashing, now, n),
    );
    let v = s.tiles_planned(placed, flashing, now);
    a_layer_is_one_rank(s, placed, 0, flashing, now, n);
    a_layer_is_one_rank(s, placed, 1, flashing, now, n);
    a_layer_is_one_rank(s, placed, 2, flashing, now, n);
    assert(v =~= p + q + r);
    assert forall|k: int| 0 <= k < v.len() implies s.tile_layer((#[trigger] v[k]).clip) == (if k
        < p.len() {
        0int
    } else if k < p.len() + q.len() {
        1int
    } else {
        2int
    }) by {
        if k < p.len() {
            assert(v[k] == p[k]);
        } else if k < p.len() + q.len() {
            assert(v[k] == q[k - p.len()]);
        } else {
            assert(v[k] == r[k - p.len() - q.len()]);
        }
    }
    assert(s.tile_layer(v[a].clip) <= s.tile_layer(v[b].clip));
}

proof fn a_layer_is_one_rank(
    s: State,
    placed: Seq<Placed>,
    layer: int,
    flashing: bool,
    now: u64,
    n: int,
)
    requires
        0 <= n <= placed.len(),
    ensures
        forall|k: int|
            0 <= k < s.layer_plan(placed, layer, flashing, now, n).len() ==> s.tile_layer(
                (#[trigger] s.layer_plan(placed, layer, flashing, now, n)[k]).clip,
            ) == layer,
    decreases n,
{
    if n > 0 {
        a_layer_is_one_rank(s, placed, layer, flashing, now, n - 1);
    }
}

/// A view shows the stream of the selected clip once there is a frame of it, else the
/// clip's thumbnail.
pub proof fn a_view_shows_the_selection(s: State)
    requires
        s.refs.selected < s.clips.len(),
        s.refs.pending_reselect is None,
    ensures
        ({
            let c = s.clips[s.refs.selected as int];
            let src = s.video_source();
            &&& (s.lanes.live_sel matches Some(l) && l.path == c.path && l.first_frame is Some)
                ==> src is Large
            &&& src is Large ==> (s.lanes.live_sel matches Some(l) && l.path == c.path)
            &&& s.lanes.live_sel is None ==> (if c.thumb is Ready {
                src == Source::Still { slot: c.thumb->slot, tw: c.thumb->tw, th: c.thumb->th }
            } else {
                src is Blank
            })
        }),
{
}

/// Behind a view lies the grid, blurred, or a stage, as the settings of that view say;
/// without a view lies the grid.
pub proof fn a_view_has_its_backdrop(s: State)
    ensures
        !s.modes.quickview && !s.modes.fullview ==> s.backdrop() is Grid,
        s.modes.fullview ==> (s.backdrop() is Blurred <==> s.setup.tuning.fullview_backdrop
            == BackdropStyle::Blur) && !(s.backdrop() is Grid),
        s.modes.quickview && !s.modes.fullview ==> (s.backdrop() is Blurred
            <==> s.setup.tuning.quickview_backdrop == BackdropStyle::Blur) && !(
        s.backdrop() is Grid),
{
}

/// How much has played is the share of the clip that the position stands for; a flash
/// after a skip holds and then fades, and what was long ago does not show.
pub proof fn the_position_is_a_share_of_the_clip(s: State, d: i64, pos: i64, now: u64)
    requires
        super::playing::plays(s, d),
        0 <= pos < d,
    ensures
        s.played(pos as int) matches Some(f) && f <= 1_000_000_000 && f * d <= pos * 1_000_000_000
            < (f + 1) * d,
        s.modes.skip_flash_at is None ==> s.flash_strength(now) is None,
        s.modes.skip_flash_at == Some(now) ==> s.flash_strength(now) == Some(1_000_000_000u32),
        s.modes.scrubbing ==> s.seekbar_strength(now) == 1_000_000_000,
        !s.modes.scrubbing && s.modes.seekbar_seen is None ==> s.seekbar_strength(now) == 0,
        !s.modes.scrubbing && s.modes.seekbar_seen == Some(now) ==> s.seekbar_strength(now)
            == 1_000_000_000,
{
    let e = d as int;
    vstd::arithmetic::div_mod::lemma_small_mod(pos as nat, d as nat);
    let p = pos * 1_000_000_000;
    let q = p / e;
    vstd::arithmetic::div_mod::lemma_fundamental_div_mod(p, e);
    vstd::arithmetic::div_mod::lemma_mod_bound(p, e);
    assert(0 <= q <= 1_000_000_000 && q * e <= p < (q + 1) * e) by (nonlinear_arith)
        requires
            p == e * q + p % e,
            0 <= p % e < e,
            0 <= p < e * 1_000_000_000,
    ;
}

/// What flashes or fades only fades: later it is never stronger.
pub proof fn what_fades_only_fades(s: State, now: u64, later: u64)
    requires
        now <= later,
        s.modes.skip_flash_at matches Some(at) ==> at <= now,
        s.modes.seekbar_seen matches Some(at) ==> at <= now,
    ensures
        s.flash_strength(later) matches Some(f) ==> s.flash_strength(now) matches Some(g) && f <= g,
        s.seekbar_strength(later) <= s.seekbar_strength(now),
        s.fade_progress(later) matches Some(f) ==> s.fade_progress(now) matches Some(g) && g <= f,
{
    if let Some(at) = s.modes.skip_flash_at {
        let (a, b) = (now - at, later - at);
        let fade = crate::scene::SKIP_BAR_FADE as int;
        let top = crate::scene::SKIP_BAR_HOLD + fade;
        assert(top - b <= top - a);
    }
    if let Some(at) = s.modes.seekbar_seen {
        let hide = s.setup.tuning.seekbar_hide as int;
        let fade = crate::state::later(s.setup.tuning.seekbar_fade, 1_000_000) as int;
        let (a, b) = (now - at, later - at);
        shares_go_along(fade - (b - hide), fade - (a - hide), fade);
        if b >= hide {
            shares_go_along(fade - (b - hide), fade, fade);
        }
    }
    if let Some(at) = s.scene.transition {
        let whole = crate::state::later(s.setup.tuning.zoom_fade, 1_000_000) as int;
        shares_go_along(crate::state::since(now, at), crate::state::since(later, at), whole);
    }
}

proof fn shares_go_along(a: int, b: int, w: int)
    requires
        a <= b,
        w > 0,
    ensures
        0 <= a && b <= w ==> 0 <= a * 1_000_000_000 / w <= b * 1_000_000_000 / w <= 1_000_000_000,
{
    if 0 <= a && b <= w {
        assert(0 <= a * 1_000_000_000 / w <= b * 1_000_000_000 / w <= 1_000_000_000)
            by (nonlinear_arith)
            requires
                0 <= a <= b <= w,
                w > 0,
        {
            assert(a * 1_000_000_000 <= b * 1_000_000_000 <= w * 1_000_000_000);
        }
    }
}

/// A storyboard in a tile goes on by one cell in six tenths of a second, and neighbours
/// are one cell apart.
pub proof fn storyboards_cycle(i: usize, cells: u32, now: u64)
    requires
        1 < cells,
        i < usize::MAX,
        now <= u64::MAX - 600_000_000,
    ensures
        ({
            let k = cycle_cell(i, cells, now);
            let on = cycle_cell(i, cells, (now + 600_000_000) as u64);
            let next = cycle_cell((i + 1) as usize, cells, now);
            &&& 0 <= k < cells
            &&& on == (if k + 1 < cells {
                k + 1
            } else {
                0
            })
            &&& next == on
        }),
{
    let n = cells as int;
    let a = now / crate::scene::SHEET_STEP + i;
    let b = ((now + 600_000_000) as u64) / crate::scene::SHEET_STEP + i;
    assert(b == a + 1);
    let k = a % n;
    let q = a / n;
    vstd::arithmetic::div_mod::lemma_fundamental_div_mod(a, n);
    vstd::arithmetic::div_mod::lemma_mod_bound(a, n);
    if k + 1 < n {
        assert(a + 1 == q * n + (k + 1)) by (nonlinear_arith)
            requires
                a == n * q + k,
        ;
        vstd::arithmetic::div_mod::lemma_fundamental_div_mod_converse(a + 1, n, q, k + 1);
    } else {
        assert(a + 1 == (q + 1) * n + 0) by (nonlinear_arith)
            requires
                a == n * q + k,
                k + 1 == n,
        ;
        vstd::arithmetic::div_mod::lemma_fundamental_div_mod_converse(a + 1, n, q + 1, 0);
    }
}

/// A tile on its way is put in its place at first, glides within its row, and crosses to
/// another row where a zoom took it there: forward to a later one, back to an earlier.
pub proof fn a_tile_finds_its_way(r: TileReflow, to: Rect, row: usize, zoomed: bool)
    ensures
        ({
            let t = reflowed(r, to, row, zoomed, crate::flex::WHOLE);
            &&& t.rect == to
            &&& t.row == row
            &&& t.init
            &&& !r.init ==> t.wrap is None
            &&& r.init && row == r.row ==> t.wrap == r.wrap
            &&& r.init && row != r.row && !zoomed ==> t.wrap is None
            &&& r.init && row != r.row && zoomed ==> (t.wrap matches Some(w) && w.from == r.rect
                && w.elapsed == 0 && (w.forward <==> row > r.row))
        }),
{
    super::gliding::a_glide_comes_nearer(r.rect.x as int, to.x as int, 0, 1_000_000);
    super::gliding::a_glide_comes_nearer(r.rect.y as int, to.y as int, 0, 1_000_000);
    super::gliding::a_glide_comes_nearer(r.rect.w as int, to.w as int, 0, 1_000_000);
    super::gliding::a_glide_comes_nearer(r.rect.h as int, to.h as int, 0, 1_000_000);
}

/// A tile that crosses forward comes in from beyond the left edge while its copy leaves
/// by the right one, and the other way round; at the end it lies in its place.
pub proof fn a_crossing_tile_goes_over_the_edge(i: usize, r: TileReflow, c: Crossing)
    requires
        r.wrap is Some,
        0 <= c.gap <= crate::flex::LENGTH_LIMIT,
        0 <= c.vw <= crate::flex::LENGTH_LIMIT,
        0 <= r.rect.w <= crate::flex::LENGTH_LIMIT,
        0 <= r.wrap->0.from.w <= crate::flex::LENGTH_LIMIT,
    ensures
        ({
            let w = r.wrap->0;
            let p = reflow_place(i, r, c);
            let late = r.row * c.stagger;
            let time = if c.time < 1_000_000 {
                1_000_000
            } else {
                c.time as int
            };
            &&& p.clip == i
            &&& p.copy is Some
            &&& w.elapsed <= late && w.forward ==> p.rect.x == -(r.rect.w + c.gap) && p.copy->0
                == w.from
            &&& w.elapsed <= late && !w.forward ==> p.rect.x == c.vw + c.gap && p.copy->0 == w.from
            &&& w.elapsed >= late + time ==> p.rect == r.rect
            &&& w.elapsed >= late + time && w.forward ==> p.copy->0.x == c.vw + c.gap
            &&& w.elapsed >= late + time && !w.forward ==> p.copy->0.x == -(w.from.w + c.gap)
        }),
{
    let w = r.wrap->0;
    let late = r.row * c.stagger;
    let time = crate::state::later(c.time, 1_000_000) as int;
    let x = (w.elapsed - late) * 1_000_000 / time;
    if w.elapsed >= late + time {
        assert(x >= 1_000_000) by (nonlinear_arith)
            requires
                w.elapsed - late >= time,
                time > 0,
                x == (w.elapsed - late) * 1_000_000 / time,
        ;
    }
    assert(late >= 0) by (nonlinear_arith)
        requires
            late == r.row * c.stagger,
            r.row >= 0,
            c.stagger >= 0,
    ;
    let (enter, exit) = if w.forward {
        (-(r.rect.w + c.gap), c.vw + c.gap)
    } else {
        (c.vw + c.gap, -(w.from.w + c.gap))
    };
    super::gliding::a_glide_comes_nearer(enter, r.rect.x as int, 0, 1_000_000);
    super::gliding::a_glide_comes_nearer(w.from.x as int, exit, 0, 1_000_000);
}

/// A crossing lasts its time and no longer.
pub proof fn a_crossing_ends_in_time(r: TileReflow, dt: u64, time: u64)
    requires
        r.wrap is Some,
        r.wrap->0.elapsed + dt <= u64::MAX,
    ensures
        ({
            let t = wrap_ticked(r, dt, time);
            &&& r.wrap->0.elapsed + dt >= time ==> t.wrap is None
            &&& r.wrap->0.elapsed + dt < time ==> (t.wrap matches Some(w) && w.elapsed
                == r.wrap->0.elapsed + dt && w.from == r.wrap->0.from && w.forward
                == r.wrap->0.forward)
            &&& t.rect == r.rect
            &&& t.row == r.row
        }),
{
}

/// What the pointer is over: a tile of the grid where no view, bar or pinch is in the way,
/// a chip in the quick view; the moment is noted when it changes.
pub proof fn what_is_hovered(s: State, tile: Option<usize>, chip: Option<usize>, now: u64)
    ensures
        ({
            let t = s.hovers(tile, chip, now);
            let view = s.modes.quickview || s.modes.fullview;
            &&& !view && s.chapters is None && s.scene.ribbon is None ==> t.refs.hovered == tile
                && t.refs.strip_hover is None
            &&& view ==> t.refs.hovered is None
            &&& s.modes.quickview && !s.modes.fullview && s.chapters is None ==> t.refs.strip_hover
                == chip
            &&& s.modes.fullview || s.chapters is Some ==> t.refs.strip_hover is None
                && t.refs.hovered is None
            &&& t.refs.hovered == s.refs.hovered && t.refs.strip_hover == s.refs.strip_hover
                ==> t.refs.hover_changed_at == s.refs.hover_changed_at
            &&& t.refs.hovered != s.refs.hovered || t.refs.strip_hover != s.refs.strip_hover
                ==> t.refs.hover_changed_at == now
            &&& t.refs.selected == s.refs.selected
        }),
{
}

/// A thumbnail that arrives goes into the slot that is found for it, and its clip knows it,
/// its size and that it is cached.
pub proof fn a_thumbnail_finds_its_slot(
    s: State,
    path: u64,
    w: u32,
    h: u32,
    lay: Layout,
    zone: Zone,
    pos: int,
    now: u64,
    f: int,
)
    requires
        s.wf(),
        s.slots.len() <= usize::MAX,
        s.index.contains_key(path),
        !(s.clips[s.index[path] as int].thumb is Ready),
        0 <= f < s.slots.len(),
        s.slots[f] is None,
        forall|i: int| 0 <= i < f ==> (#[trigger] s.slots[i]) is Some,
    ensures
        ({
            let i = s.index[path] as int;
            let t = s.answered(MediaResult::Ready { path, w, h }, lay, zone, pos, now);
            &&& i < s.clips.len()
            &&& s.clips[i].path == path
            &&& t.clips[i].thumb == Thumb::Ready { slot: f as usize, at: now, tw: w, th: h }
            &&& t.clips[i].cached
            &&& t.slots[f] == Some(SlotOwner { clip: i as usize, kind: SlotKind::Static })
            &&& t.clips[i].anim == s.clips[i].anim
            &&& t.jobs.done == s.jobs.done.wrapping_add(1)
            &&& s.upload_slot(MediaResult::Ready { path, w, h }, lay, zone) == Some(f as usize)
        }),
{
    reveal(crate::state::tied);
    reveal(State::thumb_arrived);
    reveal(State::picture_arrived);
    let i = s.index[path];
    let a = s.job_done(true, now).cache_noted(i).picture_freed(i, SlotKind::Static);
    assert(a.slots == s.slots);
    super::pictures::a_free_slot_is_taken_first(a, lay, zone, SlotKind::Static, f);
    let b = s.cache_noted(i).picture_freed(i, SlotKind::Static);
    super::pictures::a_free_slot_is_taken_first(b, lay, zone, SlotKind::Static, f);
}

/// A picture that cannot be made is not asked for again; a clip that cannot play leaves
/// the library where the gatekeeper is on, but a placeholder never does; what was made is
/// known to be cached.
pub proof fn answers_are_taken_in(
    s: State,
    path: u64,
    lay: Layout,
    zone: Zone,
    pos: int,
    now: u64,
)
    requires
        s.wf(),
        s.index.contains_key(path),
    ensures
        ({
            let i = s.index[path] as int;
            let a = s.answered(MediaResult::Failed { path }, lay, zone, pos, now);
            let b = s.answered(MediaResult::AnimFailed { path }, lay, zone, pos, now);
            let c = s.answered(MediaResult::GenDone { path }, lay, zone, pos, now);
            let d = s.answered(MediaResult::Unplayable { path }, lay, zone, pos, now);
            &&& a.clips[i].thumb is Failed && a.clips[i].anim == s.clips[i].anim && a.clips.len()
                == s.clips.len()
            &&& b.clips[i].anim is Failed && b.clips[i].thumb == s.clips[i].thumb && b.clips.len()
                == s.clips.len()
            &&& c.clips[i].cached && c.clips[i].thumb == s.clips[i].thumb && c.clips.len()
                == s.clips.len()
            &&& s.setup.tuning.gatekeeper && !s.clips[i].cloud ==> d.clips == s.clips.remove(i)
            &&& !s.setup.tuning.gatekeeper || s.clips[i].cloud ==> d.clips == s.clips
            &&& a.jobs.done == s.jobs.done.wrapping_add(1)
            &&& c.jobs.done == s.jobs.done.wrapping_add(1)
        }),
{
    reveal(crate::state::tied);
}

/// Chapters that arrive are kept for their clip.
pub proof fn chapters_are_kept(
    s: State,
    path: u64,
    plan: crate::state::ChapterPlan,
    lay: Layout,
    zone: Zone,
    pos: int,
    now: u64,
)
    ensures
        ({
            let t = s.answered(MediaResult::ChapterTimes { path, plan }, lay, zone, pos, now);
            &&& t.chapter_probe.contains_key(path)
            &&& t.chapter_probe[path] == Some(plan)
            &&& t.clips == s.clips
            &&& t.refs == s.refs
        }),
{
    reveal(State::plan_applied);
    reveal(State::bar_closed);
}

/// A thumbnail that is absent is asked for, and is then on its way; one that is there, on
/// its way or failed is not asked for.
pub proof fn an_absent_thumbnail_is_asked_for(s: State, i: usize)
    requires
        i < s.clips.len(),
    ensures
        ({
            let t = s.thumb_wanted(i);
            let c = s.clips[i as int];
            &&& c.thumb is Absent ==> t.clips[i as int].thumb is Pending && t.fx == s.fx.push(
                Effect::RequestThumb { path: c.path },
            ) && t.jobs.total == s.jobs.total.wrapping_add(1)
            &&& !(c.thumb is Absent) ==> t == s
            &&& t.thumb_wanted(i) == t
        }),
{
}

/// A storyboard is asked for in a view that shows one, for a clip that can be read and has
/// none, and not while streams start up or storyboards are switched off.
pub proof fn a_storyboard_is_asked_for_in_a_view(s: State, filling: bool, now: u64)
    requires
        s.refs.selected < s.clips.len(),
    ensures
        ({
            let t = s.sheet_wanted(filling, now);
            let c = s.clips[s.refs.selected as int];
            let view = s.modes.fullview || (s.modes.quickview && s.setup.tuning.seekbar_preview);
            &&& filling || s.setup.no_storyboards || !view ==> t == s
            &&& !c.readable || c.cloud || !(c.anim is Absent) || !(c.thumb is Ready) ==> t == s
            &&& !filling && !s.setup.no_storyboards && view && c.readable && !c.cloud
                && c.anim is Absent && c.thumb is Ready && !s.live() ==> t.fx == s.fx.push(
                Effect::RequestAnim { path: c.path },
            ) && t.clips[s.refs.selected as int].anim is Pending
        }),
{
}

/// A clip is shown in the shape of its thumbnail; without one in the shape known from
/// before, else as probed, else 16:9; always between 9:16 and 12:5.
pub proof fn a_clip_is_shown_in_its_shape(clips: Seq<crate::model::Clip>, i: int, probed: Option<Aspect>)
    requires
        0 <= i < clips.len(),
    ensures
        ({
            let a = chip_shape(clips, i, probed);
            let inside = |w: u32, h: u32| w > 0 && h > 0 && 9 * h <= 16 * w && 5 * w <= 12 * h;
            &&& 9 * a.h <= 16 * a.w
            &&& 5 * a.w <= 12 * a.h
            &&& (clips[i].thumb matches Thumb::Ready { tw, th, .. } && inside(tw, th)) ==> a.w
                * clips[i].thumb->th == clips[i].thumb->tw * a.h
            &&& !(clips[i].thumb is Ready) && (clips[i].aspect matches Some(b) && inside(b.w, b.h))
                ==> a.w * clips[i].aspect->0.h == clips[i].aspect->0.w * a.h
            &&& !(clips[i].thumb is Ready) && clips[i].aspect is None && (probed matches Some(b)
                && inside(b.w, b.h)) ==> a.w * probed->0.h == probed->0.w * a.h
            &&& !(clips[i].thumb is Ready) && clips[i].aspect is None && probed is None ==> a.w == 16
                && a.h == 9
        }),
{
}

/// A file as probed has its coded shape, on its side where it is turned by a quarter,
/// however often and whichever way round.
pub proof fn a_turned_file_is_on_its_side(w: u32, h: u32, turn: i64, k: int)
    requires
        w > 0,
        h > 0,
    ensures
        probed_shape(Some(w), Some(h), None) == Some(Aspect { w, h }),
        turn == 90_000 + 180_000 * k ==> probed_shape(Some(w), Some(h), Some(turn)) == Some(
            Aspect { w: h, h: w },
        ),
        turn == 180_000 * k ==> probed_shape(Some(w), Some(h), Some(turn)) == Some(Aspect { w, h }),
        probed_shape(None, Some(h), Some(turn)) is None,
        probed_shape(Some(w), None, Some(turn)) is None,
{
}

/// A picture of the grid is kept while a view is up in a window of one size, and is drawn
/// anew when the view goes or the window changes.
pub proof fn a_kept_picture_goes_with_its_view(s: State, window: Extent, cols: usize, now: u64)
    ensures
        !s.modes.quickview && !s.modes.fullview ==> s.thawed(window).scene.frozen is None,
        s.scene.frozen == Some(window) && (s.modes.quickview || s.modes.fullview) ==> s.thawed(
            window,
        ).scene.frozen == Some(window) && !s.thawed(window).draws_grid(),
        s.scene.frozen is Some && s.scene.frozen != Some(window) ==> s.thawed(
            window,
        ).scene.frozen is None,
        s.backdrop() is Blurred && s.scene.frozen is None ==> s.grid_drawn(
            window,
            cols,
            true,
            now,
        ).scene.frozen == Some(window),
{
}

/// The loop is awake while something moves, fades or is waited for, and asleep else.
pub proof fn the_loop_sleeps_when_all_rests(s: State, now: u64, ns: u64)
    requires
        now + ns <= u64::MAX,
    ensures
        s.scene.motion || s.scene.transition is Some || now < s.scene.wake_until ==> s.animating(
            now,
        ),
        !s.scene.motion && s.scene.transition is None && now >= s.scene.wake_until
            ==> !s.animating(now),
        ns > 0 ==> s.woken(now, ns).animating(now),
        s.woken(now, ns).scene.wake_until >= s.scene.wake_until,
        s.woken(now, ns).scene.wake_until >= now + ns,
        s.woken(now, ns).scene.wake_until == s.scene.wake_until || s.woken(now, ns).scene.wake_until
            == now + ns,
{
}

/// Motion eases in and out: it never turns back, is half way in the middle and mirrors
/// itself there, and begins and ends at rest.
pub proof fn motion_eases_in_and_out(x: int, y: int)
    requires
        0 <= x <= y <= 1_000_000,
    ensures
        0 <= eased(x) <= eased(y) <= 1_000_000,
        eased(0) == 0,
        eased(500_000) == 500_000,
        eased(1_000_000) == 1_000_000,
        x <= 500_000 ==> eased(x) <= x,
        x >= 500_000 ==> eased(x) >= x,
        0 <= 1_000_000 - eased(x) - eased(1_000_000 - x) + 1 <= 2,
{
    easing_rises(x, y);
    easing_rises(0, x);
    easing_rises(y, 1_000_000);
    assert(1_000_000int * 1_000_000 * 1_000_000 / 2_000_000_000_000 == 500_000);
    let z = 1_000_000 - x;
    if x < 500_000 {
        assert(4 * x * x * x / 1_000_000_000_000 <= x) by (nonlinear_arith)
            requires
                0 <= x < 500_000,
        {
            assert(x * x <= 250_000_000_000);
            assert(4 * x * x * x == 4 * (x * x) * x);
            assert((x * x) * x <= 250_000_000_000 * x);
        }
        let v = 2_000_000 - 2 * z;
        assert(v == 2 * x);
        let t = 4 * x * x * x;
        assert(v * v * v == 2 * t) by (nonlinear_arith)
            requires
                v == 2 * x,
                t == 4 * x * x * x,
        ;
        assert(2 * t / 2_000_000_000_000 == t / 1_000_000_000_000);
    } else {
        let v = 2_000_000 - 2 * x;
        assert(v * v * v / 2_000_000_000_000 <= z) by (nonlinear_arith)
            requires
                v == 2 * z,
                0 <= z <= 500_000,
        {
            assert(z * z <= 250_000_000_000);
            assert(v * v * v == 8 * ((z * z) * z));
            assert((z * z) * z <= 250_000_000_000 * z);
        }
        let t = 4 * z * z * z;
        assert(v * v * v == 2 * t) by (nonlinear_arith)
            requires
                v == 2 * z,
                t == 4 * z * z * z,
        ;
        assert(2 * t / 2_000_000_000_000 == t / 1_000_000_000_000);
    }
}

proof fn easing_rises(x: int, y: int)
    requires
        0 <= x <= y <= 1_000_000,
    ensures
        0 <= eased(x) <= eased(y) <= 1_000_000,
{
    let (p, q) = (2_000_000 - 2 * y, 2_000_000 - 2 * x);
    assert(500_000int * 500_000 * 500_000 == 125_000_000_000_000_000);
    assert(1_000_000int * 1_000_000 * 1_000_000 == 1_000_000_000_000_000_000);
    assert(4 * x * x * x == 4 * (x * x * x)) by (nonlinear_arith);
    assert(4 * y * y * y == 4 * (y * y * y)) by (nonlinear_arith);
    cubes_rise(x, y);
    cubes_rise(p, q);
    if x < 500_000 {
        cubes_rise(x, 500_000);
    } else {
        cubes_rise(q, 1_000_000);
    }
    if y < 500_000 {
        cubes_rise(y, 500_000);
    } else {
        cubes_rise(p, 1_000_000);
    }
}

proof fn cubes_rise(x: int, y: int)
    requires
        0 <= x <= y,
    ensures
        0 <= x * x * x <= y * y * y,
{
    assert(0 <= x * x <= y * y) by (nonlinear_arith)
        requires
            0 <= x <= y,
    ;
    let (a, b) = (x * x, y * y);
    assert(0 <= a * x <= b * y) by (nonlinear_arith)
        requires
            0 <= a <= b,
            0 <= x <= y,
    ;
}

/// The bar of jobs shows the share that is done, in full while there is work, and fades
/// when all is done.
pub proof fn the_bar_of_jobs_shows_what_is_done(s: State, now: u64)
    requires
        s.jobs.total > 0,
        s.jobs.done <= s.jobs.total,
    ensures
        s.jobs.done < s.jobs.total ==> (s.jobs_bar(now) matches Some(b) && b.fade == 1_000_000_000
            && b.progress * s.jobs.total <= s.jobs.done * 1_000_000_000 < (b.progress + 1)
            * s.jobs.total && s.jobs_shown(now).jobs.finished_at is None),
        s.jobs.done == s.jobs.total && s.jobs.finished_at is None ==> (s.jobs_bar(now) matches Some(
            b,
        ) && b.progress == 1_000_000_000 && b.fade == 1_000_000_000) && s.jobs_shown(
            now,
        ).jobs.finished_at == Some(now),
        s.jobs.done == s.jobs.total && (s.jobs.finished_at matches Some(at) && at + 700_000_000
            <= now) ==> s.jobs_bar(now) is None && s.jobs_shown(now).jobs.total == 0,
{
    let t = s.jobs.total as int;
    let p = s.jobs.done * 1_000_000_000;
    let q = p / t;
    vstd::arithmetic::div_mod::lemma_fundamental_div_mod(p, t);
    vstd::arithmetic::div_mod::lemma_mod_bound(p, t);
    assert(0 <= q <= 1_000_000_000 && q * t <= p < (q + 1) * t) by (nonlinear_arith)
        requires
            p == t * q + p % t,
            0 <= p % t < t,
            0 <= p <= t * 1_000_000_000,
    ;
    if s.jobs.done == s.jobs.total {
        assert(q == 1_000_000_000) by (nonlinear_arith)
            requires
                p < (q + 1) * t,
                p == t * 1_000_000_000,
                t > 0,
                q <= 1_000_000_000,
        ;
    }
}

} // verus!
