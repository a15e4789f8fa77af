//! What is drawn over what, how much is done in a frame, and what waits.

use vstd::prelude::*;

use crate::chips::{chapter_standing, middle_chapter, Standing};
use crate::grid::{Layout, Rect};
use crate::live::{retained, sight_of, unwarmed, warm_place, LaneSight};
use crate::model::SelLive;
use crate::overlay::Chip;
use crate::scene::{gathered, met, Placed, Source};
use crate::state::State;
use crate::step::{table_ticked, wrap_ticked};

verus! {

/// In the filmstrip the selection is drawn over the hovered chip and that over the others.
pub proof fn the_selected_chip_is_drawn_on_top(s: State, chips: Seq<Chip>, a: int, b: int)
    requires
        0 <= a < b < s.strip_planned(chips).len(),
    ensures
        ({
            let v = s.strip_planned(chips);
            let rank = |i: usize|
                if i == s.refs.selected {
                    2int
                } else if s.refs.strip_hover == Some(i) {
                    1int
                } else {
                    0int
                };
            rank(v[a].clip) <= rank(v[b].clip)
        }),
{
    let n = chips.len() as int;
    let v = s.strip_planned(chips);
    let p = s.chips_of(chips, Standing::Plain, n);
    let q = s.chips_of(chips, Standing::Hovered, n);
    let r = s.chips_of(chips, Standing::Chosen, n);
    chips_of_one_standing(s, chips, Standing::Plain, n);
    chips_of_one_standing(s, chips, Standing::Hovered, n);
    chips_of_one_standing(s, chips, Standing::Chosen, n);
    assert(v =~= p + q + r);
    assert forall|k: int| 0 <= k < v.len() implies s.chip_standing((#[trigger] v[k]).clip) == (if k
        < p.len() {
        Standing::Plain
    } else if k < p.len() + q.len() {
        Standing::Hovered
    } else {
        Standing::Chosen
    }) by {
        if k < p.len() {
            assert(v[k] == p[k]);
        } else if k < p.len() + q.len() {
            assert(v[k] == q[k - p.len()]);
        } else {
            assert(v[k] == r[k - p.len() - q.len()]);
        }
    }
}

proof fn chips_of_one_standing(s: State, chips: Seq<Chip>, standing: Standing, n: int)
    requires
        0 <= n <= chips.len(),
    ensures
        forall|k: int|
            0 <= k < s.chips_of(chips, standing, n).len() ==> s.chip_standing(
                (#[trigger] s.chips_of(chips, standing, n)[k]).clip,
            ) == standing,
    decreases n,
{
    if n > 0 {
        chips_of_one_standing(s, chips, standing, n - 1);
    }
}

/// A chip shows its thumbnail, and the hovered one its stream once there is a frame; it
/// stands where it was placed.
pub proof fn a_chip_shows_its_clip(s: State, c: Chip)
    requires
        c.clip < s.clips.len(),
    ensures
        ({
            let p = s.chip_plan(c);
            let t = s.clips[c.clip as int].thumb;
            &&& p.clip == c.clip
            &&& p.cx == c.cx
            &&& p.w == c.w
            &&& p.standing is Chosen <==> c.clip == s.refs.selected
            &&& p.standing is Hovered <==> c.clip != s.refs.selected && s.refs.strip_hover == Some(
                c.clip,
            )
            &&& !(p.standing is Hovered) || s.lanes.live_hover is None ==> (if t is Ready {
                p.source == (Source::Still { slot: t->slot, tw: t->tw, th: t->th })
            } else {
                p.source is Blank
            })
            &&& p.standing is Hovered && (s.lanes.live_hover matches Some(l) && l.clip == c.clip
                && l.first_frame is Some) ==> p.source == (Source::Lane {
                slot: s.lanes.live_hover->0.slot,
            })
        }),
{
}

/// The chapter in the middle of the row is the nearest to where the row stands.
pub proof fn the_middle_chapter_is_the_nearest(pos: int, k: int)
    ensures
        -500_000 <= pos - middle_chapter(pos) * 1_000_000 <= 500_000,
        pos == k * 1_000_000 ==> middle_chapter(pos) == k,
{
}

/// The chapter that plays stands out, and after it the hovered one.
pub proof fn the_chapter_that_plays_stands_out(i: usize, current: Option<usize>, hover: Option<usize>)
    ensures
        chapter_standing(i, current, hover) is Chosen <==> current == Some(i),
        chapter_standing(i, current, hover) is Hovered <==> current != Some(i) && hover == Some(i),
{
}

/// While tiles flow under the fingers the fewest pictures are taken over in a frame, then
/// while a stream is shown, and the most while nothing else moves.
pub proof fn smoothness_comes_before_pictures(s: State, t: State, u: State)
    requires
        s.scene.ribbon is Some || s.scene.settling,
        t.scene.ribbon is None,
        !t.scene.settling,
        t.lanes.live_sel matches Some(l) && l.first_frame is Some,
        !t.lanes.sel_parked,
        t.modes.focused,
        u.scene.ribbon is None,
        !u.scene.settling,
        u.lanes.live_sel is None,
    ensures
        0 < s.upload_budget() < t.upload_budget() < u.upload_budget(),
{
}

/// What is still to come is prepared where no stream is waited for: where nothing plays,
/// where playback rests, once the selected clip plays, or when it has been waited for long
/// enough.
pub proof fn what_is_to_come_is_prepared_in_time(s: State, now: u64)
    requires
        s.refs.selected < s.clips.len(),
        s.refs.sel_changed_at <= now,
    ensures
        ({
            let c = s.clips[s.refs.selected as int];
            let rests = !s.modes.focused && s.setup.tuning.pause_unfocused
                && s.modes.focus_pause_on;
            let plays = s.lanes.live_sel matches Some(l) && l.first_frame is Some && l.path == c.path;
            s.prewarmable(now) <==> (!s.live() || rests || s.setup.demo || plays || now
                - s.refs.sel_changed_at > crate::media::PREWARM_GRACE)
        }),
{
}

/// The first clip of those likely next that has no stream yet is the one to warm up.
pub proof fn the_likeliest_clip_is_warmed_first(warm: Seq<SelLive>, targets: Seq<usize>, k: int)
    requires
        0 <= k <= targets.len(),
    ensures
        match unwarmed(warm, targets, k) {
            Some(i) => exists|j: int|
                k <= j < targets.len() && #[trigger] targets[j] == i && warm_place(warm, i, 0) is None
                    && forall|h: int|
                    k <= h < j ==> warm_place(warm, #[trigger] targets[h], 0) is Some,
            None => forall|h: int|
                k <= h < targets.len() ==> warm_place(warm, #[trigger] targets[h], 0) is Some,
        },
    decreases targets.len() - k,
{
    if k < targets.len() && warm_place(warm, targets[k], 0) is Some {
        the_likeliest_clip_is_warmed_first(warm, targets, k + 1);
    }
}

/// A warm stream of a clip is found where there is one.
pub proof fn a_warm_stream_is_found(warm: Seq<SelLive>, i: usize, k: int)
    requires
        0 <= k <= warm.len(),
    ensures
        warm_place(warm, i, k) matches Some(j) ==> k <= j < warm.len() && warm[j].clip == i,
        warm_place(warm, i, k) is None ==> forall|j: int|
            k <= j < warm.len() ==> (#[trigger] warm[j]).clip != i,
    decreases warm.len() - k,
{
    if k < warm.len() && warm[k].clip != i {
        a_warm_stream_is_found(warm, i, k + 1);
    }
}

/// Warm streams of clips that are no longer likely are let go, in a grid that stands still.
pub proof fn unlikely_streams_are_let_go(s: State, lay: Layout, k: int)
    ensures
        ({
            let t = s.warm_pruned(lay);
            &&& s.scene.ribbon is Some || s.scene.settling ==> t == s
            &&& s.scene.ribbon is None && !s.scene.settling && 0 <= k < t.warm.len()
                ==> s.warm_targets(lay).contains(t.warm[k].clip) && s.warm.contains(t.warm[k])
            &&& s.scene.ribbon is None && !s.scene.settling && 0 <= k < s.warm.len()
                && s.warm_targets(lay).contains(s.warm[k].clip) ==> t.warm.contains(s.warm[k])
        }),
{
    kept_streams(s.warm, s.warm_targets(lay), s.warm.len() as int);
}

proof fn kept_streams(warm: Seq<SelLive>, targets: Seq<usize>, n: int)
    requires
        0 <= n <= warm.len(),
    ensures
        forall|k: int|
            0 <= k < retained(warm, targets, n).len() ==> targets.contains(
                (#[trigger] retained(warm, targets, n)[k]).clip,
            ) && warm.contains(retained(warm, targets, n)[k]),
        forall|k: int|
            0 <= k < n && targets.contains((#[trigger] warm[k]).clip) ==> retained(
                warm,
                targets,
                n,
            ).contains(warm[k]),
    decreases n,
{
    if n > 0 {
        kept_streams(warm, targets, n - 1);
        let (rest, all) = (retained(warm, targets, n - 1), retained(warm, targets, n));
        if targets.contains(warm[n - 1].clip) {
            assert(warm.contains(warm[n - 1]));
            assert(all[rest.len() as int] == warm[n - 1]);
        }
        assert forall|k: int| 0 <= k < n && targets.contains((#[trigger] warm[k]).clip) implies all.contains(
            warm[k],
        ) by {
            if k < n - 1 {
                assert(rest.contains(warm[k]));
                let j = choose|j: int| 0 <= j < rest.len() && rest[j] == warm[k];
                assert(all[j] == warm[k]);
            }
        }
    }
}

/// A stream is seen by its own report, and one without a report is taken to be well.
pub proof fn a_stream_has_its_own_report(seen: Seq<LaneSight>, generation: u64, k: int)
    requires
        0 <= k <= seen.len(),
    ensures
        sight_of(seen, generation, k).generation == generation,
        (forall|j: int| k <= j < seen.len() ==> (#[trigger] seen[j]).generation != generation)
            ==> !sight_of(seen, generation, k).failed,
        (exists|j: int| k <= j < seen.len() && (#[trigger] seen[j]).generation == generation)
            ==> seen.contains(sight_of(seen, generation, k)),
    decreases seen.len() - k,
{
    if k < seen.len() {
        if seen[k].generation == generation {
            assert(seen.contains(seen[k]));
        } else {
            a_stream_has_its_own_report(seen, generation, k + 1);
        }
    }
}

/// Warming starts once the selection plays and has rested, one stream at a time, and never
/// while playback rests.
pub proof fn warming_waits_for_the_selection(s: State, lay: Layout, seen: Seq<LaneSight>, now: u64)
    requires
        s.warm_spawn(lay, seen, now) is Some,
    ensures
        s.lanes.live_sel is Some,
        s.lanes.live_sel->0.first_frame is Some,
        !s.setup.demo,
        s.live(),
        s.modes.focused || !s.setup.tuning.pause_unfocused || !s.modes.focus_pause_on,
        now - s.refs.sel_changed_at >= s.setup.tuning.live_delay || s.setup.tuning.live_delay == 0,
        s.warm_targets(lay).contains(s.warm_spawn(lay, seen, now)->0.clip),
{
    let v = s.warm_targets(lay);
    the_likeliest_clip_is_warmed_first(s.warm, v, 0);
}

/// A tile that stands in two rows is drawn once, with its other part as a copy.
pub proof fn a_tile_is_drawn_once(items: Seq<(usize, Rect)>, len: int, n: int)
    requires
        0 <= n <= items.len(),
    ensures
        ({
            let v = gathered(items, len, n);
            &&& forall|a: int, b: int|
                0 <= a < b < v.len() ==> (#[trigger] v[a]).clip != (#[trigger] v[b]).clip
            &&& forall|k: int| 0 <= k < v.len() ==> (#[trigger] v[k]).clip < len
            &&& n > 0 && items[n - 1].0 < len ==> exists|k: int|
                0 <= k < v.len() && (#[trigger] v[k]).clip == items[n - 1].0 && (v[k].copy == Some(
                    items[n - 1].1,
                ) || (v[k].copy is None && v[k].rect == items[n - 1].1))
        }),
    decreases n,
{
    if n > 0 {
        a_tile_is_drawn_once(items, len, n - 1);
        let rest = gathered(items, len, n - 1);
        let (clip, rect) = items[n - 1];
        if clip < len {
            where_a_tile_was_met(rest, clip, 0);
            let v = gathered(items, len, n);
            match met(rest, clip, 0) {
                Some(k) => {
                    assert(v[k].clip == clip && v[k].copy == Some(rect));
                },
                None => {
                    assert(v[rest.len() as int] == (Placed { clip, rect, copy: None }));
                },
            }
        }
    }
}

proof fn where_a_tile_was_met(placed: Seq<Placed>, clip: usize, k: int)
    requires
        0 <= k <= placed.len(),
    ensures
        met(placed, clip, k) matches Some(j) ==> k <= j < placed.len() && placed[j].clip == clip,
        met(placed, clip, k) is None ==> forall|j: int|
            k <= j < placed.len() ==> (#[trigger] placed[j]).clip != clip,
    decreases placed.len() - k,
{
    if k < placed.len() && placed[k].clip != clip {
        where_a_tile_was_met(placed, clip, k + 1);
    }
}

/// Tiles cross rows only in the flexible grid, where that is set and no view is up; else
/// none is on its way.
pub proof fn tiles_cross_only_where_they_may(
    s: State,
    lay: Layout,
    places: Seq<usize>,
    a: i128,
    dt: u64,
    zoomed: bool,
)
    ensures
        s.modes.quickview || s.modes.fullview || !s.setup.tuning.zoom_wrap || s.setup.tuning.grid_layout
            == crate::tuning::GridStyle::Fixed ==> s.reflow_stepped(
            lay,
            places,
            a,
            dt,
            zoomed,
        ).reflow.len() == 0,
        s.scene.motion ==> s.reflow_stepped(lay, places, a, dt, zoomed).scene.motion,
{
}

/// Every tile's crossing goes on by the time of the frame.
pub proof fn crossings_go_on_together(
    table: Seq<crate::model::TileReflow>,
    n: nat,
    dt: u64,
    time: u64,
    i: int,
)
    requires
        0 <= i < n,
    ensures
        table_ticked(table, n, dt, time).len() == n,
        i < table.len() ==> table_ticked(table, n, dt, time)[i] == wrap_ticked(table[i], dt, time),
        i >= table.len() ==> !table_ticked(table, n, dt, time)[i].init && table_ticked(
            table,
            n,
            dt,
            time,
        )[i].wrap is None,
{
}

/// The filmstrip comes back to the selection when the wheel has been still for a while,
/// unless it was moved away from it by hand.
pub proof fn the_strip_comes_home(s: State, now: u64)
    requires
        s.scene.last_scroll_event <= now,
    ensures
        s.strip_homes(now) ==> s.modes.quickview,
        s.strip_homes(now) ==> now - s.scene.last_scroll_event > crate::step::STRIP_REST,
        s.modes.quickview && s.setup.tuning.strip_scroll_selects && now - s.scene.last_scroll_event
            > crate::step::STRIP_REST ==> s.strip_homes(now),
        !s.setup.tuning.strip_scroll_selects && s.refs.sel_changed_at < s.scene.last_scroll_event
            ==> !s.strip_homes(now),
{
}

/// A glance at the chapters ends in its time: not before, and the bar then goes down; a
/// bar that is down and closed is gone.
pub proof fn a_glance_at_the_chapters_ends(s: State, now: u64, until: u64)
    requires
        s.chapters matches Some(b) && b.open && b.peek_until == Some(until),
    ensures
        now < until ==> s.peek_checked(now) == s,
        now >= until ==> (s.peek_checked(now).chapters matches Some(b) && !b.open && b.peek_until
            is None && b.path == s.chapters->0.path),
        s.bar_landed(true) == s,
        now >= until ==> s.peek_checked(now).bar_landed(true).chapters is None,
        now >= until ==> s.peek_checked(now).bar_landed(false).chapters is Some,
{
}

/// A fade that has come to its end is over, and one under way goes on.
pub proof fn a_fade_ends(s: State, at: u64, now: u64)
    requires
        s.scene.transition == Some(at),
        at <= now,
        s.setup.tuning.zoom_fade >= 1_000_000,
    ensures
        now - at >= s.setup.tuning.zoom_fade ==> s.fade_checked(now).scene.transition is None,
        now - at < s.setup.tuning.zoom_fade ==> s.fade_checked(now) == s,
{
}

/// A storyboard is on its way where it was asked for or may still be; none comes for a
/// clip that has one or cannot have one.
pub proof fn a_storyboard_is_on_its_way(s: State)
    requires
        s.refs.selected < s.clips.len(),
    ensures
        ({
            let c = s.clips[s.refs.selected as int];
            &&& c.anim is Pending ==> s.sheet_coming()
            &&& c.anim is Ready || c.anim is Failed ==> !s.sheet_coming()
            &&& c.anim is Absent ==> (s.sheet_coming() <==> !(c.thumb is Failed))
        }),
{
}

/// The hovered clip plays small once the pointer has rested on it, at once in the quick
/// view, and never beside another that does.
pub proof fn the_small_stream_starts_when_the_pointer_rests(s: State, now: u64)
    requires
        s.refs.hover_changed_at <= now,
    ensures
        s.lanes.live_hover is Some ==> s.hover_spawn(now) is None,
        s.hover_spawn(now) matches Some(a) ==> s.hover_target() == Some(a.clip) && a.resume is None,
        !s.modes.quickview && now - s.refs.hover_changed_at < s.setup.tuning.live_delay
            ==> s.hover_spawn(now) is None,
        s.lanes.live_hover is None && (s.modes.quickview || now - s.refs.hover_changed_at
            >= s.setup.tuning.live_delay) && (s.hover_target() matches Some(i) && s.spawnable(
            i,
            None,
            now,
        ) is Some) ==> s.hover_spawn(now) is Some,
{
}

/// Thumbnails are asked for in order: the first that is wanted comes first, those that
/// cannot be made are passed over, and without a budget none is asked for.
pub proof fn thumbnails_are_asked_for_in_order(s: State, order: Seq<usize>, k: int, budget: int)
    requires
        0 <= k < order.len(),
        order[k] < s.clips.len(),
    ensures
        ({
            let c = s.clips[order[k] as int];
            let t = crate::media::thumbs_wanted(s, order, k, budget);
            let on = |u: State, b: int| crate::media::thumbs_wanted(u, order, k + 1, b);
            &&& !c.readable || c.thumb is Failed ==> t == on(s, budget)
            &&& c.readable && !(c.thumb is Failed) && budget <= 0 ==> t == s
            &&& c.readable && c.thumb is Absent && budget > 0 ==> exists|u: State|
                t == #[trigger] on(u, budget - 1) && u.fx == s.fx.push(
                    crate::model::Effect::RequestThumb { path: c.path },
                ) && u.clips[order[k] as int].thumb is Pending
            &&& c.readable && (c.thumb is Ready || c.thumb is Pending) && budget > 0 ==> t == on(
                s,
                budget - 1,
            )
        }),
{
    let u = s.thumb_wanted(order[k]);
    let on = |u: State, b: int| crate::media::thumbs_wanted(u, order, k + 1, b);
    assert(on(u, budget - 1) == crate::media::thumbs_wanted(u, order, k + 1, budget - 1));
}

/// A tile that has come to be shown stays shown, and where things fade in it is not shown
/// at the moment it arrives.
pub proof fn a_tile_fades_in(s: State, i: usize, now: u64, later: u64)
    requires
        i < s.clips.len(),
        now <= later,
    ensures
        s.tile_shown(i, now) ==> s.tile_shown(i, later),
        s.ui() ==> !s.tile_shown(i, s.clips[i as int].spawned),
        s.clips[i as int].spawned < now ==> s.tile_shown(i, now),
{
}

/// Rows of the ribbon move down with what they are scrolled by, each as far.
pub proof fn ribbon_rows_move_together(
    rows: Seq<crate::ribbon::RibbonRow>,
    scroll: int,
    by: int,
    r: int,
    k: int,
)
    requires
        0 <= r <= rows.len(),
        -1_000_000_000_000_000_000_000_000_000_000 <= scroll
            <= 1_000_000_000_000_000_000_000_000_000_000,
        -1_000_000_000_000_000_000_000_000_000_000 <= by
            <= 1_000_000_000_000_000_000_000_000_000_000,
        forall|j: int|
            0 <= j < rows.len() ==> -1_000_000_000_000_000_000_000_000_000_000 <= (
            #[trigger] rows[j]).y <= 1_000_000_000_000_000_000_000_000_000_000,
    ensures
        ({
            let a = crate::scene::strip_items(rows, scroll, r);
            let b = crate::scene::strip_items(rows, scroll + by, r);
            &&& a.len() == b.len()
            &&& 0 <= k < a.len() ==> b[k].0 == a[k].0 && b[k].1.y == a[k].1.y + by && b[k].1.x
                == a[k].1.x && b[k].1.w == a[k].1.w
        }),
    decreases r,
{
    if r > 0 {
        ribbon_rows_move_together(rows, scroll, by, r - 1, k);
    }
}

/// Another number of columns fades in where tiles do not flow; the same number does not,
/// and behind a view nothing does.
pub proof fn another_number_of_columns_fades_in(
    s: State,
    window: crate::model::Extent,
    cols: usize,
    tiles: bool,
    now: u64,
)
    ensures
        ({
            let t = s.grid_drawn(window, cols, tiles, now);
            let view = s.modes.quickview || s.modes.fullview;
            &&& view ==> t.scene.transition is None
            &&& !view && cols == s.scene.last_cols ==> t.scene.transition == s.scene.transition
            &&& !view && s.ui() && !s.reflowing() && cols != s.scene.last_cols && s.scene.drawn
                ==> t.scene.transition == Some(now)
            &&& t.scene.last_cols == cols
            &&& t.scene.drawn == tiles
        }),
{
}

/// The chapters of a clip in the full view are asked for once.
pub proof fn chapters_are_asked_for_once(s: State, now: u64, path: u64)
    requires
        s.modes.fullview,
        s.prewarmable(now),
        s.chaptered_clip() == Some(path),
    ensures
        s.chapter_probe.contains_key(path) ==> s.chapters_prewarmed(now) == s,
        !s.chapter_probe.contains_key(path) ==> s.chapters_prewarmed(now).fx == s.fx.push(
            crate::model::Effect::RequestChapters { path },
        ) && s.chapters_prewarmed(now).chapter_probe.contains_key(path),
{
}

/// A thumbnail gives its clip its shape; the grid is laid out anew where that is another
/// shape, and only there.
pub proof fn a_thumbnail_gives_its_clip_its_shape(s: State, i: usize, w: u32, h: u32)
    requires
        i < s.clips.len(),
        h > 0,
    ensures
        ({
            let t = s.shape_noted(i, w, h);
            let a = t.clips[i as int].aspect;
            &&& a matches Some(b) && b.w * h == w * b.h
            &&& t.clips.len() == s.clips.len()
            &&& (s.clips[i as int].aspect matches Some(b) && b.w * h == w * b.h) ==> t == s
            &&& !(s.clips[i as int].aspect matches Some(b) && b.w * h == w * b.h)
                ==> t.scene.grid_rev == s.scene.grid_rev.wrapping_add(1)
        }),
{
}

/// Another frame is asked for where the budget was used up, and the loop stays awake when
/// the last job ends.
pub proof fn a_full_frame_asks_for_another(s: State, full: bool, now: u64)
    ensures
        ({
            let t = s.drain_ended(true, full, now);
            &&& full ==> t.fx == s.fx.push(crate::model::Effect::NextFrame)
            &&& !full ==> t.fx == s.fx
            &&& s.jobs.total > 0 && s.jobs.done >= s.jobs.total && now + crate::media::JOBS_WAKE
                <= u64::MAX ==> t.scene.wake_until >= now + crate::media::JOBS_WAKE
            &&& s.jobs.done < s.jobs.total ==> t.scene.wake_until == s.scene.wake_until
        }),
{
}

/// A warm stream is filling up while it has no frame yet, and not for ever.
pub proof fn a_warm_stream_fills_up(s: State, buffered: Seq<usize>, now: u64, k: int)
    requires
        0 <= k < s.warm.len(),
        s.warm[k].spawned <= now,
    ensures
        buffered[k] > 0 ==> !crate::media::filling(s, buffered, now, k),
        now - s.warm[k].spawned >= crate::media::WARM_FILL ==> !crate::media::filling(
            s,
            buffered,
            now,
            k,
        ),
        buffered[k] == 0 && now - s.warm[k].spawned < crate::media::WARM_FILL
            ==> crate::media::filling(s, buffered, now, k),
{
}

/// When no tile is under way, each one that was seen to stands in its place, but for a
/// rest too small to see, and crosses nothing.
pub proof fn tiles_at_rest_stand_in_their_places(
    table: Seq<crate::model::TileReflow>,
    lay: Layout,
    places: Seq<usize>,
    zoomed: bool,
    a: i128,
    k: int,
)
    requires
        0 < k <= places.len(),
        places[k - 1] < crate::step::table_moved(table, lay, places, zoomed, a, k - 1).len(),
        !crate::step::any_under_way(table, lay, places, zoomed, a, k),
    ensures
        ({
            let i = places[k - 1] as int;
            let t = crate::step::table_moved(table, lay, places, zoomed, a, k)[i];
            let to = lay.rect_of(i);
            let rest = crate::step::GLIDE_REST;
            &&& t.wrap is None
            &&& t.init
            &&& -rest <= t.rect.x - to.x <= rest
            &&& -rest <= t.rect.y - to.y <= rest
            &&& -rest <= t.rect.w - to.w <= rest
            &&& -rest <= t.rect.h - to.h <= rest
        }),
{
}

} // verus!
