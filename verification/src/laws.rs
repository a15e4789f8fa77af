//! What holds across the state's operations: the views are a ladder, a mark plays
//! nothing, a placeholder is never read, and what is hidden stays still.

pub mod asking;
pub mod benches;
pub mod clicks;
pub mod drawing;
pub mod gliding;
pub mod keeping;
pub mod layout;
pub mod moves;
pub mod names;
pub mod numbers;
pub mod order;
pub mod pictures;
pub mod playing;
pub mod reports;
pub mod showing;
pub mod streams;
pub mod views;
pub mod zooming;

use vstd::prelude::*;

use crate::atlas::Zone;
use crate::chapters::{a_step_leads_to_a_chapter, chapter_at, either, step_from, step_target, usable, wrapped};
use crate::grid::Layout;
use crate::input::{Click, Pointer};
use crate::keys::Surroundings;
use crate::live::LaneSight;
use crate::media::MediaResult;
use crate::model::{Effect, SlotKind, Thumb};
use crate::state::State;

verus! {

/// Escape takes one layer away at a time: a chapter bar that is up to stay, then
/// the full view, then the quick view, then the marks. It selects nothing.
pub proof fn escape_takes_one_layer(s: State, now: u64)
    requires
        s.layered(),
    ensures
        s.bar_stays() ==> s.peeled(now).modes.fullview == s.modes.fullview && s.peeled(
            now,
        ).modes.quickview == s.modes.quickview && !s.peeled(now).bar_stays(),
        !s.bar_stays() && s.modes.fullview ==> !s.peeled(now).modes.fullview && s.peeled(
            now,
        ).modes.quickview == s.modes.quickview,
        !s.bar_stays() && !s.modes.fullview && s.modes.quickview ==> !s.peeled(now).modes.quickview
            && s.peeled(now).marked == s.marked,
        !s.bar_stays() && !s.modal() ==> s.peeled(now).marked.is_empty(),
        s.peeled(now).refs == s.refs,
{
    reveal(State::peeled);
    reveal(State::bar_closed);
}

/// Up from the quick view leads to the full view with the quick view under it,
/// and down from there leads back.
pub proof fn up_and_down_lead_back(
    s: State,
    lay: Layout,
    a: Surroundings,
    b: Surroundings,
    now: u64,
    then: u64,
)
    requires
        s.modes.quickview,
        !s.modes.fullview,
    ensures
        ({
            let up = s.directed(0, -1, lay, a, now);
            let back = up.directed(0, 1, lay, b, then);
            &&& up.modes.fullview && up.modes.quickview && up.refs == s.refs
            &&& !back.modes.fullview && back.modes.quickview && back.refs == s.refs
        }),
{
    reveal(State::directed);
    reveal(State::stepped_down);
}

/// The top of the ladder is its end: up in the full view moves no selection, and
/// without a chapter bar it does nothing at all.
pub proof fn the_full_view_is_the_top(s: State, lay: Layout, a: Surroundings, now: u64)
    requires
        s.modes.fullview,
    ensures
        s.directed(0, -1, lay, a, now).modes == s.modes,
        s.directed(0, -1, lay, a, now).refs == s.refs,
        s.chapters is None ==> s.directed(0, -1, lay, a, now) == s,
{
    reveal(State::directed);
    reveal(State::bar_closed);
}

/// Down from the quick view leads to the grid, with the selection where it was.
pub proof fn down_leads_to_the_grid(s: State, lay: Layout, a: Surroundings, now: u64)
    requires
        s.modes.quickview,
        !s.modes.fullview,
    ensures
        !s.directed(0, 1, lay, a, now).modal(),
        s.directed(0, 1, lay, a, now).refs == s.refs,
{
    reveal(State::directed);
}

/// In a view a pinch steps between the views and never zooms the grid behind.
pub proof fn a_view_keeps_the_pinch(s: State, delta: i64, now: u64)
    requires
        s.modal(),
    ensures
        !s.pinched(delta, now).fx.contains(Effect::PinchZoom) || s.fx.contains(Effect::PinchZoom),
        !s.pinched(delta, now).fx.contains(Effect::GripRibbon) || s.fx.contains(
            Effect::GripRibbon,
        ),
        s.pinched(delta, now).scene.ribbon == s.scene.ribbon,
        s.pinched(delta, now).refs == s.refs,
{
    reveal(State::pinched);
    reveal(State::pinch_kept);
    reveal(State::dived);
    reveal(State::backed_out);
    reveal(State::stepped_down);
    let t = s.pinched(delta, now);
    assert(t.fx == s.fx || t.fx == s.fx.push(Effect::SnapStrip));
    if t.fx == s.fx.push(Effect::SnapStrip) {
        if t.fx.contains(Effect::PinchZoom) {
            let k = choose|k: int| 0 <= k < t.fx.len() && t.fx[k] == Effect::PinchZoom;
            assert(s.fx[k] == Effect::PinchZoom);
        }
        if t.fx.contains(Effect::GripRibbon) {
            let k = choose|k: int| 0 <= k < t.fx.len() && t.fx[k] == Effect::GripRibbon;
            assert(s.fx[k] == Effect::GripRibbon);
        }
    }
}

/// Fingers that do not move the zoom do not keep the strip held.
pub proof fn still_fingers_hold_nothing(s: State, clip: Option<usize>, now: u64)
    requires
        s.scene.ribbon is Some,
    ensures
        s.gripped(clip, false, now).scene.ribbon == s.scene.ribbon,
{
}

/// Without the focus no strip is held, and one that was held is on its way to
/// rest.
pub proof fn losing_the_focus_lets_go(s: State)
    ensures
        s.refocused(false).scene.ribbon is None,
        s.scene.ribbon is Some ==> s.refocused(false).fx == s.fx.push(Effect::ReleaseRibbon),
{
    reveal(State::refocused);
}

/// A hold that has been quiet for long enough is let go.
pub proof fn a_quiet_hold_ends(s: State, now: u64)
    requires
        s.scene.ribbon matches Some(h) && crate::state::since(now, h.last)
            >= s.setup.tuning.zoom_ribbon_release && crate::state::since(now, h.last) >= 1_000_000,
    ensures
        s.grip_checked(now).scene.ribbon is None,
{
}

/// In the attention model a press with a modifier marks: it moves no selection,
/// opens no view and draws no stream.
pub proof fn marking_only_marks(s: State, click: Click, now: u64)
    requires
        s.attention(),
        click.cmd || click.shift,
        click.tile is Some,
    ensures
        ({
            let t = s.pressed_grid(click, now);
            &&& t.refs == s.refs && t.modes == s.modes && t.lanes == s.lanes && t.fx == s.fx
            &&& t.attention_target() == s.attention_target()
        }),
{
    reveal(State::pressed_grid);
}

/// Marking a tile twice leaves the marks as they were.
pub proof fn marking_twice_undoes_itself(s: State, click: Click, now: u64, then: u64)
    requires
        s.attention(),
        click.cmd,
        !click.shift,
        click.tile is Some,
    ensures
        s.pressed_grid(click, now).pressed_grid(click, then).marked == s.marked,
{
    reveal(State::pressed_grid);
    let i = click.tile->0;
    if s.marked.contains(i) {
        assert(s.marked.remove(i).insert(i) =~= s.marked);
    } else {
        assert(s.marked.insert(i).remove(i) =~= s.marked);
    }
}

/// A press that became a drag is no click: letting the button go opens no view.
pub proof fn a_drag_is_no_click(s: State, at: Pointer, pos: int, now: u64, then: u64)
    requires
        s.modes.press is Some,
        !s.modes.scrubbing,
        !s.modes.fullview,
        at.dragged,
    ensures
        s.pointed(at, pos, now).modes.press is None,
        s.pointed(at, pos, now).released(None, then).modes.quickview == s.modes.quickview,
{
    reveal(State::pointed);
    reveal(State::released);
}

/// A click on the selection opens the quick view, once the button is let go.
pub proof fn a_click_on_the_selection_opens_it(s: State, click: Click, now: u64, then: u64)
    requires
        click.tile == Some(s.refs.selected),
        !click.cmd && !click.shift,
        !s.modes.scrubbing,
        !s.modes.quickview,
    ensures
        !s.pressed_grid(click, now).modes.quickview,
        s.pressed_grid(click, now).released(None, then).modes.quickview,
{
    reveal(State::pressed_grid);
    reveal(State::released);
    reveal(State::chosen);
}

/// Outside the attention model the first click on another tile only selects it.
pub proof fn a_first_click_only_selects(s: State, click: Click, now: u64, then: u64)
    requires
        !s.attention(),
        click.tile is Some,
        click.tile != Some(s.refs.selected),
        !s.modes.scrubbing,
        !s.modes.quickview,
    ensures
        s.pressed_grid(click, now).refs.selected == click.tile->0,
        !s.pressed_grid(click, now).released(None, then).modes.quickview,
{
    reveal(State::pressed_grid);
    reveal(State::released);
    reveal(State::chosen);
}

/// Panning the grid leaves the selection alone.
pub proof fn panning_selects_nothing(s: State, strip: Option<usize>, now: u64)
    requires
        !s.modal(),
    ensures
        s.scrolled(strip, now).refs == s.refs,
        s.scrolled(strip, now).clips == s.clips,
{
    reveal(State::scrolled);
}

/// Nothing behind the full view is hovered.
pub proof fn the_full_view_hides_the_grid(
    s: State,
    tile: Option<usize>,
    chip: Option<usize>,
    now: u64,
)
    requires
        s.modes.fullview,
    ensures
        s.hovers(tile, chip, now).refs.hovered is None,
        s.hovers(tile, chip, now).refs.strip_hover is None,
{
}

/// Behind a view the grid stands still: once it was drawn there it is not drawn
/// anew while the view is up and the window keeps its size, whatever is selected.
pub proof fn behind_a_view_the_grid_stands_still(
    s: State,
    window: crate::model::Extent,
    cols: usize,
    tiles: bool,
    now: u64,
    selected: usize,
)
    requires
        s.modal(),
        s.scene.frozen is None || s.scene.frozen == Some(window),
    ensures
        ({
            let t = s.grid_drawn(window, cols, tiles, now);
            let u = State { refs: crate::state::Refs { selected, ..t.refs }, ..t };
            !u.thawed(window).draws_grid()
        }),
{
}

/// What waits in the background keeps nothing awake: neither jobs that are to be
/// done nor a source that is open.
pub proof fn waiting_keeps_nothing_awake(s: State, t: State, now: u64)
    requires
        s.scene == t.scene,
    ensures
        s.animating(now) == t.animating(now),
{
}

/// A chapter bar that was brought up to stay does not go by itself.
pub proof fn a_bar_that_stays_stays(s: State, now: u64)
    requires
        s.bar_stays(),
    ensures
        s.peek_checked(now) == s,
        s.bar_landed(true) == s,
{
}

/// The small stream never plays the selection, and beside the attention model's
/// large stream there is none in the grid.
pub proof fn the_small_stream_knows_its_place(s: State)
    ensures
        s.hover_target() != Some(s.refs.selected),
        s.attention() && !s.modes.quickview ==> s.hover_target() is None,
{
}

/// Without the focus no stream starts, and the large one is kept unless its
/// decoder has failed.
pub proof fn pausing_keeps_the_stream(
    s: State,
    lay: Layout,
    other: Layout,
    seen: Seq<LaneSight>,
    now: u64,
)
    requires
        s.lanes_held(),
    ensures
        s.hover_target() is None,
        s.hover_spawn(now) is None,
        s.warm_spawn(other, seen, now) is None,
        (s.lanes.live_sel matches Some(l) ==> !crate::live::failed(seen, l.generation))
            ==> s.live_begun(lay, seen, now).lanes.live_sel == s.lanes.live_sel && s.live_begun(
            lay,
            seen,
            now,
        ).sel_spawn(s.sel_target(), now) is None,
{
    if let Some(l) = s.lanes.live_sel {
        if !crate::live::failed(seen, l.generation) {
            let a = s.reaped(seen, now);
            assert(s.sel_reaped(seen, now) == s);
            assert(a.lanes.live_sel == Some(l));
            let b = a.sel_stopped(s.sel_target(), s.warm_targets(lay));
            assert(b.lanes.live_sel == Some(l));
            let c = b.resume_noted(s.sel_target(), seen);
            assert(c.lanes.live_sel == Some(l));
            let d = c.hover_stopped(s.hover_target());
            assert(d.lanes.live_sel == Some(l));
            assert(d.sel_wanted(s.sel_target()) is None);
        }
    } else {
        assert(s.sel_target() is None);
    }
}

/// A path whose stream failed is left alone for a while.
pub proof fn a_failed_path_rests(s: State, i: usize, resume: Option<i64>, now: u64)
    requires
        i < s.clips.len(),
        s.cooling(s.clips[i as int].path, now),
    ensures
        s.spawnable(i, resume, now) is None,
{
}

/// Placeholders have no picture and never get one.
pub open spec fn placeholders_unread(s: State) -> bool {
    forall|i: int|
        0 <= i < s.clips.len() && (#[trigger] s.clips[i]).cloud ==> s.clips[i].thumb is Failed
            && s.clips[i].anim is Failed
}

/// A file whose data is elsewhere becomes a clip without pictures.
pub proof fn placeholders_arrive_unread(item: crate::arrivals::Ingested, now: u64)
    requires
        item.cloud,
    ensures
        crate::arrivals::arrived(item, now).cloud,
        crate::arrivals::arrived(item, now).thumb is Failed,
        crate::arrivals::arrived(item, now).anim is Failed,
{
}

/// The path that an effect has read.
pub open spec fn read_by(e: Effect) -> Option<u64> {
    match e {
        Effect::RequestGen { path } => Some(path),
        Effect::RequestThumb { path } => Some(path),
        Effect::RequestAnim { path } => Some(path),
        Effect::RequestChapters { path } => Some(path),
        Effect::RequestReprobe { path } => Some(path),
        _ => None,
    }
}

/// What `t` asks for beyond `s` reads only files whose data is here.
pub open spec fn reads_only_what_is_here(s: State, t: State) -> bool {
    &&& s.fx.len() <= t.fx.len()
    &&& forall|j: int|
        s.fx.len() <= j < t.fx.len() ==> (read_by(#[trigger] t.fx[j]) matches Some(path)
            ==> exists|i: int|
            0 <= i < s.clips.len() && (#[trigger] s.clips[i]).path == path && !s.clips[i].cloud)
}

/// Arrivals that are read are never placeholders.
pub proof fn arrivals_read_only_what_is_here(
    s: State,
    items: Seq<crate::arrivals::Ingested>,
    k: int,
)
    requires
        0 <= k <= items.len(),
    ensures
        s.fx.len() <= crate::arrivals::with_requests(s, items, k).fx.len(),
        forall|j: int|
            s.fx.len() <= j < crate::arrivals::with_requests(s, items, k).fx.len() ==> (read_by(
                #[trigger] crate::arrivals::with_requests(s, items, k).fx[j],
            ) matches Some(path) ==> exists|i: int|
                0 <= i < k && (#[trigger] items[i]).path == path && !items[i].cloud),
    decreases k,
{
    if k > 0 {
        arrivals_read_only_what_is_here(s, items, k - 1);
        let t = crate::arrivals::with_requests(s, items, k - 1);
        let u = crate::arrivals::with_requests(s, items, k);
        assert forall|j: int| s.fx.len() <= j < u.fx.len() implies (read_by(
            #[trigger] u.fx[j],
        ) matches Some(path) ==> exists|i: int|
            0 <= i < k && (#[trigger] items[i]).path == path && !items[i].cloud) by {
            if j < t.fx.len() {
                assert(u.fx[j] == t.fx[j]);
                if let Some(path) = read_by(t.fx[j]) {
                    let i = choose|i: int|
                        0 <= i < k - 1 && (#[trigger] items[i]).path == path && !items[i].cloud;
                    assert(items[i].path == path);
                }
            } else {
                assert(items[k - 1].path == items[k - 1].path);
            }
        }
    }
}

/// Thumbnails are asked for of files whose data is here alone.
pub proof fn thumbnails_read_only_what_is_here(s: State, order: Seq<usize>, k: int, budget: int)
    requires
        placeholders_unread(s),
        0 <= k,
    ensures
        reads_only_what_is_here(s, crate::media::thumbs_wanted(s, order, k, budget)),
        placeholders_unread(crate::media::thumbs_wanted(s, order, k, budget)),
    decreases order.len() - k,
{
    if k < order.len() {
        let i = order[k];
        if i >= s.clips.len() || !s.clips[i as int].readable || s.clips[i as int].thumb is Failed {
            thumbnails_read_only_what_is_here(s, order, k + 1, budget);
        } else if budget > 0 {
            let a = s.thumb_wanted(i);
            assert(a.clips.len() == s.clips.len());
            assert forall|j: int| 0 <= j < s.clips.len() implies (#[trigger] a.clips[j]).path
                == s.clips[j].path && a.clips[j].cloud == s.clips[j].cloud && (s.clips[j].cloud
                ==> a.clips[j] == s.clips[j]) by {
                assert(s.clips[j].path == s.clips[j].path);
            }
            assert(placeholders_unread(a));
            thumbnails_read_only_what_is_here(a, order, k + 1, budget - 1);
            let t = crate::media::thumbs_wanted(a, order, k + 1, budget - 1);
            assert forall|j: int| s.fx.len() <= j < t.fx.len() implies (read_by(
                #[trigger] t.fx[j],
            ) matches Some(path) ==> exists|m: int|
                0 <= m < s.clips.len() && (#[trigger] s.clips[m]).path == path
                    && !s.clips[m].cloud) by {
                if let Some(path) = read_by(t.fx[j]) {
                    if j < a.fx.len() {
                        thumbs_only_ask(a, order, k + 1, budget - 1, j);
                        assert(s.clips[i as int].path == path && !s.clips[i as int].cloud);
                    } else {
                        let m = choose|m: int|
                            0 <= m < a.clips.len() && (#[trigger] a.clips[m]).path == path
                                && !a.clips[m].cloud;
                        assert(s.clips[m].path == path);
                    }
                }
            }
        }
    }
}

proof fn thumbs_only_ask(s: State, order: Seq<usize>, k: int, budget: int, j: int)
    requires
        0 <= j < s.fx.len(),
        0 <= k,
    ensures
        crate::media::thumbs_wanted(s, order, k, budget).fx.len() >= s.fx.len(),
        crate::media::thumbs_wanted(s, order, k, budget).fx[j] == s.fx[j],
    decreases order.len() - k,
{
    if k < order.len() {
        let i = order[k];
        if i >= s.clips.len() || !s.clips[i as int].readable || s.clips[i as int].thumb is Failed {
            thumbs_only_ask(s, order, k + 1, budget, j);
        } else if budget > 0 {
            thumbs_only_ask(s.thumb_wanted(i), order, k + 1, budget - 1, j);
        }
    }
}

/// Storyboards and chapters are asked for, and streams started, of files whose
/// data is here alone.
pub proof fn views_read_only_what_is_here(
    s: State,
    filling: bool,
    i: usize,
    resume: Option<i64>,
    now: u64,
)
    ensures
        reads_only_what_is_here(s, s.sheet_wanted(filling, now)),
        reads_only_what_is_here(s, s.chapters_prewarmed(now)),
        s.spawnable(i, resume, now) matches Some(at) ==> i < s.clips.len() && at.path
            == s.clips[i as int].path && !s.clips[i as int].cloud,
{
    let a = s.sheet_wanted(filling, now);
    assert forall|j: int| s.fx.len() <= j < a.fx.len() implies (read_by(
        #[trigger] a.fx[j],
    ) matches Some(path) ==> exists|m: int|
        0 <= m < s.clips.len() && (#[trigger] s.clips[m]).path == path && !s.clips[m].cloud) by {
        assert(s.clips[s.refs.selected as int].path == s.clips[s.refs.selected as int].path);
    }
    let b = s.chapters_prewarmed(now);
    assert forall|j: int| s.fx.len() <= j < b.fx.len() implies (read_by(
        #[trigger] b.fx[j],
    ) matches Some(path) ==> exists|m: int|
        0 <= m < s.clips.len() && (#[trigger] s.clips[m]).path == path && !s.clips[m].cloud) by {
        assert(s.clips[s.refs.selected as int].path == s.clips[s.refs.selected as int].path);
    }
}

/// Placeholders have no picture, and no slot of the atlas is theirs.
pub open spec fn placeholders_apart(s: State) -> bool {
    &&& placeholders_unread(s)
    &&& forall|j: int|
        0 <= j < s.slots.len() ==> ((#[trigger] s.slots[j]) matches Some(o) ==> o.clip
            < s.clips.len() && !s.clips[o.clip as int].cloud)
}

/// The file that an answer is about.
pub open spec fn told_of(r: MediaResult) -> u64 {
    match r {
        MediaResult::ChapterTimes { path, .. } => path,
        MediaResult::Ready { path, .. } => path,
        MediaResult::Failed { path } => path,
        MediaResult::AnimReady { path, .. } => path,
        MediaResult::AnimFailed { path } => path,
        MediaResult::GenDone { path } => path,
        MediaResult::Unplayable { path } => path,
    }
}

/// An answer leaves the placeholders without pictures, as long as it is about a
/// file whose data is here: no other is ever asked about.
pub proof fn answers_leave_placeholders_alone(
    s: State,
    r: MediaResult,
    lay: Layout,
    zone: Zone,
    pos: int,
    now: u64,
)
    requires
        s.wf(),
        s.slots.len() <= usize::MAX,
        placeholders_apart(s),
        s.index.contains_key(told_of(r)) ==> !s.clips[s.index[told_of(r)] as int].cloud,
    ensures
        placeholders_apart(s.answered(r, lay, zone, pos, now)),
{
    reveal(crate::state::tied);
    let path = told_of(r);
    match r {
        MediaResult::ChapterTimes { path, plan } => {
            reveal(State::plan_applied);
            reveal(State::bar_closed);
            assert(s.plan_applied(path, plan.times@, plan.duration, pos, now).clips == s.clips);
            assert(s.plan_applied(path, plan.times@, plan.duration, pos, now).slots == s.slots);
        },
        MediaResult::Unplayable { path } => {
            if s.setup.tuning.gatekeeper && s.index.contains_key(path) && !s.clips[s.index[path] as int].cloud {
                leaving_keeps_apart(s.job_done(true, now), s.index[path] as int, now);
            }
        },
        MediaResult::Ready { path, w, h } => {
            if s.index.contains_key(path) {
                let i = s.index[path];
                let a = s.job_done(true, now);
                let b = a.cache_noted(i);
                one_clip_keeps_apart(a, b, i as int);
                picture_keeps_apart(b, i, SlotKind::Static, w, h, lay, zone, now);
                reveal(State::thumb_arrived);
                let c = b.picture_arrived(i, SlotKind::Static, w, h, lay, zone, now);
                one_clip_keeps_apart(c, c.shape_noted(i, w, h), i as int);
            }
        },
        MediaResult::AnimReady { path, w, h } => {
            if s.index.contains_key(path) {
                picture_keeps_apart(
                    s.job_done(true, now),
                    s.index[path],
                    SlotKind::Anim,
                    w,
                    h,
                    lay,
                    zone,
                    now,
                );
            }
        },
        MediaResult::Failed { path } | MediaResult::AnimFailed { path } | MediaResult::GenDone {
            path,
        } => {
            if s.index.contains_key(path) {
                one_clip_keeps_apart(
                    s.job_done(false, now),
                    s.answered(r, lay, zone, pos, now),
                    s.index[path] as int,
                );
            }
        },
    }
}

/// A change of one clip that is no placeholder keeps the placeholders apart.
proof fn one_clip_keeps_apart(s: State, t: State, i: int)
    requires
        placeholders_apart(s),
        0 <= i < s.clips.len(),
        !s.clips[i].cloud,
        t.clips.len() == s.clips.len(),
        t.slots.len() == s.slots.len(),
        forall|k: int| 0 <= k < s.clips.len() && k != i ==> (#[trigger] t.clips[k]) == s.clips[k],
        !t.clips[i].cloud,
        forall|j: int|
            0 <= j < s.slots.len() ==> (#[trigger] t.slots[j]) == s.slots[j] || t.slots[j] is None || t.slots[j]->0.clip == i,
    ensures
        placeholders_apart(t),
{
    assert forall|k: int| 0 <= k < t.clips.len() && (#[trigger] t.clips[k]).cloud implies t.clips[k].thumb is Failed
        && t.clips[k].anim is Failed by {
        assert(t.clips[k] == s.clips[k]);
    }
    assert forall|j: int| 0 <= j < t.slots.len() implies ((#[trigger] t.slots[j]) matches Some(o)
        ==> o.clip < t.clips.len() && !t.clips[o.clip as int].cloud) by {
        if t.slots[j] == s.slots[j] {
            assert(s.slots[j] matches Some(o) ==> o.clip < s.clips.len());
        }
    }
}

/// A picture that arrives for a clip that is no placeholder keeps the
/// placeholders apart.
proof fn picture_keeps_apart(
    s: State,
    i: usize,
    kind: SlotKind,
    w: u32,
    h: u32,
    lay: Layout,
    zone: Zone,
    now: u64,
)
    requires
        s.wf(),
        s.slots.len() <= usize::MAX,
        placeholders_apart(s),
        i < s.clips.len(),
        !s.clips[i as int].cloud,
    ensures
        placeholders_apart(s.picture_arrived(i, kind, w, h, lay, zone, now)),
        s.picture_arrived(i, kind, w, h, lay, zone, now).clips.len() == s.clips.len(),
        !s.picture_arrived(i, kind, w, h, lay, zone, now).clips[i as int].cloud,
{
    reveal(crate::state::tied);
    reveal(State::picture_arrived);
    reveal(State::slot_cleared);
    let a = s.picture_freed(i, kind);
    one_clip_keeps_apart(s, a, i as int);
    crate::atlas::eviction_spares_what_is_seen(a, lay, zone, kind);
    let b = a.slot_cleared(lay, zone, kind);
    match a.slot_for(lay, zone, kind) {
        Some(j) => {
            match a.slots[j as int] {
                Some(o) => {
                    assert(o.clip < a.clips.len());
                    assert(!a.clips[o.clip as int].cloud);
                    one_clip_keeps_apart(a, b, o.clip as int);
                },
                None => {},
            }
            one_clip_keeps_apart(b, b.picture_placed(i, kind, j, w, h, now), i as int);
        },
        None => {
            one_clip_keeps_apart(b, b.picture_set(i, kind, Thumb::Absent), i as int);
        },
    }
}

/// A clip that leaves takes no placeholder's place in the atlas along.
proof fn leaving_keeps_apart(s: State, i: int, now: u64)
    requires
        s.wf(),
        placeholders_apart(s),
        0 <= i < s.clips.len(),
    ensures
        placeholders_apart(s.without(i, now)),
{
    reveal(crate::state::tied);
    let t = s.without(i, now);
    let map = crate::library::closing(s.clips.len(), i);
    assert(t.clips == s.clips.remove(i));
    assert forall|k: int| 0 <= k < t.clips.len() && (#[trigger] t.clips[k]).cloud implies t.clips[k].thumb is Failed
        && t.clips[k].anim is Failed by {
        let o = if k < i {
            k
        } else {
            k + 1
        };
        assert(t.clips[k] == s.clips[o]);
    }
    assert forall|j: int| 0 <= j < t.slots.len() implies ((#[trigger] t.slots[j]) matches Some(o)
        ==> o.clip < t.clips.len() && !t.clips[o.clip as int].cloud) by {
        assert(t.slots[j] == crate::library::moved_slot(map, s.slots[j]));
        if let Some(p) = s.slots[j] {
            assert(!s.clips[p.clip as int].cloud);
        }
    }
}

/// The slide show goes on in a view alone: in the grid it moves nothing and shows
/// no ring, and its countdown begins anew.
pub proof fn the_slide_show_waits_in_the_grid(s: State, now: u64)
    requires
        !s.modal(),
    ensures
        s.watched(now) is None,
        s.auto_skipped(now).refs == s.refs,
{
    reveal(State::auto_skipped);
}

/// A bar that is shown for no time is not shown: what there was of a bar stays as
/// it was, and only a bar that stays comes up.
pub proof fn a_peek_without_time_shows_no_bar(s: State, pos: int, now: u64)
    requires
        s.setup.tuning.chapter_peek == 0,
    ensures
        s.bar_opened(true, pos, now) == s,
        s.chaptered_clip() is Some ==> s.bar_opened(false, pos, now).chapters is Some,
{
    reveal(State::bar_opened);
    reveal(State::plan_applied);
    reveal(State::bar_closed);
}

/// The chapter that a step has led to is the one that the next step starts from,
/// also where the stream came to rest in the chapter before, and whether or not a
/// bar is shown.
pub proof fn a_step_starts_from_the_chapter_gone_to(
    s: State,
    forward: bool,
    pos: int,
    now: u64,
    then: int,
)
    requires
        s.bar_wf(),
        s.chaptered_clip() matches Some(path) && s.streams(path) && (s.known_chapters(
            path,
        ) matches Some((times, _)) && times.len() <= usize::MAX),
    ensures
        ({
            let path = s.chaptered_clip()->0;
            let (times, dur) = s.known_chapters(path)->0;
            let d = usable(either(dur, s.lanes.live_sel->0.duration));
            let p = wrapped(pos, d);
            let target = step_target(times, step_from(times, p, s.nav_on(path)), p, forward);
            let t = s.chapter_stepped(forward, pos, now);
            &&& 0 <= target < times.len()
            &&& t.nav_on(path) == Some(target as usize)
            &&& chapter_at(times, then) == target || chapter_at(times, then) + 1 == target
                ==> step_from(times, then, t.nav_on(path)) == target
        }),
{
    let path = s.chaptered_clip()->0;
    let (times, dur) = s.known_chapters(path)->0;
    let d = usable(either(dur, s.lanes.live_sel->0.duration));
    a_step_leads_to_a_chapter(times, wrapped(pos, d), s.nav_on(path), forward);
    reveal(State::chapter_stepped);
    reveal(State::navigated);
    reveal(State::bar_opened);
    reveal(State::plan_applied);
    reveal(State::bar_closed);
}

/// Tiles cycle only where they are asked to, and never while playback rests or a
/// view is up.
pub proof fn still_tiles_stay_still(s: State, i: usize)
    requires
        !s.modes.animated_thumbs || s.paused() || s.modal() || !s.live(),
    ensures
        !(s.tile_source(i) is Sheet),
{
}

/// What is switched twice is as it was: the full view, the rest without the
/// focus, the motion of the tiles, and, but for the moment at which they began, the quick view and the
/// slide show.
pub proof fn switching_twice_switches_nothing(s: State, now: u64, then: u64)
    ensures
        s.fullview_toggled().fullview_toggled() == s,
        s.focus_pause_toggled().focus_pause_toggled() == s,
        s.animated_thumbs_toggled().animated_thumbs_toggled() == s,
        s.quickview_toggled(now).quickview_toggled(then).modes.quickview == s.modes.quickview,
        s.auto_skip_toggled(now).auto_skip_toggled(then).modes.auto_skip_since is Some
            == s.modes.auto_skip_since is Some,
{
    reveal(State::fullview_toggled);
    reveal(State::focus_pause_toggled);
    reveal(State::animated_thumbs_toggled);
    reveal(State::quickview_toggled);
    reveal(State::auto_skip_toggled);
}

/// A frame brings no more pictures into the atlas than its budget, and the answers
/// that it does not take stay in their order.
pub proof fn uploads_stay_within_the_budget(
    s: State,
    results: Seq<MediaResult>,
    i: int,
    ups: Seq<crate::media::Upload>,
    budget: int,
    lay: Layout,
    zone: Zone,
    pos: int,
    now: u64,
)
    requires
        0 <= i <= results.len(),
        ups.len() <= budget,
    ensures
        ({
            let (t, taken, all) = crate::media::drained(
                s,
                results,
                i,
                ups,
                budget,
                lay,
                zone,
                pos,
                now,
            );
            &&& all.len() <= budget
            &&& i <= taken <= results.len()
            &&& taken < results.len() ==> all.len() == budget
        }),
    decreases results.len() - i,
{
    if i < results.len() && ups.len() < budget {
        uploads_stay_within_the_budget(
            s.answered(results[i], lay, zone, pos, now),
            results,
            i + 1,
            crate::media::with_upload(ups, i, results[i], s.upload_slot(results[i], lay, zone)),
            budget,
            lay,
            zone,
            pos,
            now,
        );
    }
}

/// A step to the next clip and one back lead to where they began, over the end of
/// a row as within it; and no step closes a view.
pub proof fn steps_lead_back(s: State, lay: Layout, now: u64, then: u64)
    requires
        s.refs.selected + 1 < s.clips.len() <= crate::state::MAX_CLIPS,
    ensures
        s.selection_moved(1, 0, lay, now).refs.selected == s.refs.selected + 1,
        s.selection_moved(1, 0, lay, now).selection_moved(-1, 0, lay, then).refs.selected
            == s.refs.selected,
        s.selection_moved(1, 0, lay, now).modes.quickview == s.modes.quickview,
        s.selection_moved(1, 0, lay, now).modes.fullview == s.modes.fullview,
{
    reveal(State::selection_moved);
    reveal(State::chosen);
}

} // verus!
