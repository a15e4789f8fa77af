//! What the keys do to the selection, to the views and to the world.

use vstd::prelude::*;

use crate::commands::{ActionModel, Key};
use crate::grid::Layout;
use crate::keys::Surroundings;
use crate::model::{Effect, ZoomStep};
use crate::state::State;

verus! {

/// Outside the full view a sideways move goes through the library in its order,
/// `dx` clips on or back, and stops at its ends. It leaves the library, the marks
/// and the views alone.
pub proof fn a_sideways_move_goes_through_the_library(
    s: State,
    dx: i32,
    lay: Layout,
    around: Surroundings,
    now: u64,
)
    requires
        !s.modes.fullview,
        s.refs.selected < s.clips.len() <= crate::state::MAX_CLIPS,
    ensures
        ({
            let t = s.acted(ActionModel::Move { dx, dy: 0 }, lay, around, now);
            let (sel, n) = (s.refs.selected as int, s.clips.len() as int);
            &&& 0 <= sel + dx < n ==> t.refs.selected == sel + dx
            &&& sel + dx < 0 ==> t.refs.selected == 0
            &&& sel + dx >= n ==> t.refs.selected == n - 1
            &&& t.clips == s.clips
            &&& t.marked == s.marked
            &&& t.modes.quickview == s.modes.quickview
            &&& !t.modes.fullview
            &&& t.fx == s.fx.push(Effect::ScrollToSelected)
            &&& t.refs.selected != sel ==> t.refs.sel_changed_at == now
            &&& t.refs.selected == sel ==> t.refs.sel_changed_at == s.refs.sel_changed_at
        }),
{
    reveal(State::acted);
    reveal(State::directed);
    reveal(State::selection_moved);
}

/// Right leads to the next clip and left to the one before, and either leads back
/// where the other came from.
pub proof fn right_is_on_and_left_is_back(
    s: State,
    lay: Layout,
    a: Surroundings,
    b: Surroundings,
    now: u64,
    then: u64,
)
    requires
        !s.modes.fullview,
        s.refs.selected < s.clips.len() <= crate::state::MAX_CLIPS,
    ensures
        ({
            let right = ActionModel::Move { dx: 1, dy: 0 };
            let left = ActionModel::Move { dx: (-1) as i32, dy: 0 };
            let sel = s.refs.selected;
            &&& sel + 1 < s.clips.len() ==> s.acted(right, lay, a, now).refs.selected == sel + 1
            &&& sel + 1 < s.clips.len() ==> s.acted(right, lay, a, now).acted(
                left,
                lay,
                b,
                then,
            ).refs.selected == sel
            &&& sel > 0 ==> s.acted(left, lay, a, now).refs.selected == sel - 1
            &&& sel > 0 ==> s.acted(left, lay, a, now).acted(right, lay, b, then).refs.selected
                == sel
            &&& s.directed(1, 0, lay, a, now) == s.acted(right, lay, a, now)
            &&& s.directed(-1, 0, lay, a, now) == s.acted(left, lay, a, now)
        }),
{
    a_sideways_move_goes_through_the_library(s, 1, lay, a, now);
    a_sideways_move_goes_through_the_library(s, (-1) as i32, lay, a, now);
    let r = s.acted(ActionModel::Move { dx: 1, dy: 0 }, lay, a, now);
    let l = s.acted(ActionModel::Move { dx: (-1) as i32, dy: 0 }, lay, a, now);
    if s.refs.selected + 1 < s.clips.len() {
        a_sideways_move_goes_through_the_library(r, (-1) as i32, lay, b, then);
    }
    if s.refs.selected > 0 {
        a_sideways_move_goes_through_the_library(l, 1, lay, b, then);
    }
    reveal(State::acted);
}

/// The next and the previous clip, which may be asked for in any view.
pub proof fn next_and_previous_are_neighbours(
    s: State,
    lay: Layout,
    around: Surroundings,
    now: u64,
)
    requires
        s.refs.selected < s.clips.len() <= crate::state::MAX_CLIPS,
    ensures
        ({
            let next = s.acted(ActionModel::SelectNext, lay, around, now);
            let prev = s.acted(ActionModel::SelectPrev, lay, around, now);
            let (sel, n) = (s.refs.selected, s.clips.len());
            &&& sel + 1 < n ==> next.refs.selected == sel + 1
            &&& sel + 1 == n ==> next.refs.selected == sel
            &&& sel > 0 ==> prev.refs.selected == sel - 1
            &&& sel == 0 ==> prev.refs.selected == 0
            &&& next.modes.quickview == s.modes.quickview
            &&& prev.modes.quickview == s.modes.quickview
            &&& next.modes.fullview == s.modes.fullview
            &&& prev.modes.fullview == s.modes.fullview
        }),
{
    reveal(State::acted);
    reveal(State::selection_moved);
}

/// In the grid, a move by a row leads into the row below or above, to the tile whose
/// middle is nearest to that of the tile it came from; at the outermost row it stays
/// in that row.
pub proof fn a_move_by_a_row_leads_to_the_nearest_tile(
    s: State,
    down: bool,
    lay: Layout,
    around: Surroundings,
    now: u64,
    r: int,
    k: int,
)
    requires
        !s.modes.fullview,
        !s.modes.quickview,
        lay.wf(),
        lay.len == s.clips.len(),
        s.refs.selected < s.clips.len() <= crate::state::MAX_CLIPS,
        0 <= r < lay.row_count(),
        lay.span(r).0 <= s.refs.selected < lay.span(r).1,
        ({
            let to = if down && r + 1 < lay.row_count() {
                r + 1
            } else if !down && r > 0 {
                r - 1
            } else {
                r
            };
            lay.span(to).0 <= k < lay.span(to).1
        }),
    ensures
        ({
            let dy: i32 = if down {
                1
            } else {
                (-1) as i32
            };
            let to = if down && r + 1 < lay.row_count() {
                r + 1
            } else if !down && r > 0 {
                r - 1
            } else {
                r
            };
            let t = s.acted(ActionModel::Move { dx: 0, dy }, lay, around, now).refs.selected;
            let from = lay.rect_of(s.refs.selected as int);
            let mid = from.x + from.w / 2;
            let (a, b) = (lay.rect_of(t as int), lay.rect_of(k));
            let da = 2 * a.x + a.w - 2 * mid;
            let db = 2 * b.x + b.w - 2 * mid;
            &&& lay.span(to).0 <= t < lay.span(to).1
            &&& (if da < 0 {
                -da
            } else {
                da
            }) <= (if db < 0 {
                -db
            } else {
                db
            })
        }),
{
    reveal(State::acted);
    reveal(State::directed);
    reveal(State::selection_moved);
    let sel = s.refs.selected as int;
    crate::grid::rows_partition_the_library(lay, sel, r);
    crate::grid::row_of_is_one(lay, sel, r);
    let to = if down && r + 1 < lay.row_count() {
        r + 1
    } else if !down && r > 0 {
        r - 1
    } else {
        r
    };
    let from = lay.rect_of(sel);
    assert(lay.span(to).1 <= lay.len) by {
        match lay.flex {
            Some(f) => {
                assert(f.rows@[to].end <= lay.len);
            },
            None => {},
        }
    }
    assert(0 <= lay.span(to).0) by {
        if lay.flex is None {
            assert(to * lay.cols >= 0) by (nonlinear_arith)
                requires
                    to >= 0,
                    lay.cols >= 0,
            ;
        }
    }
    crate::grid::nearest_is_nearest(lay, lay.span(to).0, lay.span(to).1, from.x + from.w / 2);
    let dy: int = if down {
        1
    } else {
        -1
    };
    assert(lay.row_beyond(sel, dy) == to);
    let b = lay.nearest(to, from.x + from.w / 2)->0;
    assert(lay.off_centre(b as int, from.x + from.w / 2) <= lay.off_centre(
        k,
        from.x + from.w / 2,
    ));
}

/// The views are a ladder: from the quick view, up leads to the full view and down to
/// the grid; from the full view, down leads to the quick view. The selection stays.
pub proof fn the_views_are_a_ladder(s: State, lay: Layout, around: Surroundings, now: u64)
    ensures
        ({
            let up = s.acted(ActionModel::Move { dx: 0, dy: (-1) as i32 }, lay, around, now);
            let down = s.acted(ActionModel::Move { dx: 0, dy: 1 }, lay, around, now);
            &&& s.modes.fullview ==> !down.modes.fullview && down.modes.quickview
                && down.chapters is None && down.refs == s.refs
            &&& s.modes.fullview ==> up.modes.fullview && up.refs == s.refs && !(up.chapters matches Some(
                b,
            ) && b.open)
            &&& s.modes.quickview && !s.modes.fullview ==> up.modes.fullview && up.modes.quickview
                && up.refs == s.refs
            &&& s.modes.quickview && !s.modes.fullview ==> !down.modes.fullview
                && !down.modes.quickview && down.refs == s.refs
        }),
{
    reveal(State::acted);
    reveal(State::directed);
    reveal(State::stepped_down);
    reveal(State::bar_closed);
}

/// What a key switches is the other way round afterwards, and nothing else of it.
pub proof fn switches_switch(s: State, lay: Layout, around: Surroundings, now: u64)
    ensures
        ({
            let t = s.acted(ActionModel::Quickview, lay, around, now);
            &&& t.modes.quickview == !s.modes.quickview
            &&& t.modes.fullview == s.modes.fullview
            &&& t.refs == s.refs
            &&& !s.modes.quickview ==> t.modes.quickview_at == now
            &&& !s.modes.quickview ==> t.fx == s.fx.push(Effect::SnapStrip)
        }),
        ({
            let t = s.acted(ActionModel::Fullview, lay, around, now);
            &&& t.modes.fullview == !s.modes.fullview
            &&& t.modes.quickview == s.modes.quickview
            &&& t.refs == s.refs
        }),
        ({
            let t = s.acted(ActionModel::ToggleFocusPause, lay, around, now);
            &&& t.modes.focus_pause_on == !s.modes.focus_pause_on
            &&& t.modes.animated_thumbs == s.modes.animated_thumbs
        }),
        ({
            let t = s.acted(ActionModel::ToggleAnimatedThumbs, lay, around, now);
            &&& t.modes.animated_thumbs == !s.modes.animated_thumbs
            &&& t.modes.focus_pause_on == s.modes.focus_pause_on
        }),
        ({
            let t = s.acted(ActionModel::ToggleAutoSkip, lay, around, now);
            &&& s.modes.auto_skip_since is None ==> t.modes.auto_skip_since == Some(now)
            &&& s.modes.auto_skip_since is Some ==> t.modes.auto_skip_since is None
        }),
{
    reveal(State::acted);
    reveal(State::quickview_toggled);
    reveal(State::fullview_toggled);
    reveal(State::focus_pause_toggled);
    reveal(State::animated_thumbs_toggled);
    reveal(State::auto_skip_toggled);
}

/// What a key asks of the world is what its name says, and of the selected clip.
pub proof fn keys_ask_for_what_they_say(
    s: State,
    program: Seq<char>,
    args: Seq<Seq<char>>,
    fast: bool,
    lay: Layout,
    around: Surroundings,
    now: u64,
)
    ensures
        s.acted(ActionModel::Quit, lay, around, now).fx == s.fx.push(Effect::Quit),
        s.acted(ActionModel::ToggleFullscreen { fast }, lay, around, now).fx == s.fx.push(
            Effect::ToggleFullscreen { fast },
        ),
        s.acted(ActionModel::ZoomIn, lay, around, now).fx == s.fx.push(
            Effect::Zoom { step: ZoomStep::In },
        ),
        s.acted(ActionModel::ZoomOut, lay, around, now).fx == s.fx.push(
            Effect::Zoom { step: ZoomStep::Out },
        ),
        s.acted(ActionModel::ZoomReset, lay, around, now).fx == s.fx.push(
            Effect::Zoom { step: ZoomStep::Reset },
        ),
        s.acted(ActionModel::ZoomIn, lay, around, now).pack is None,
        s.acted(ActionModel::ZoomOut, lay, around, now).pack is None,
        s.acted(ActionModel::ZoomReset, lay, around, now).pack is None,
        s.refs.selected < s.clips.len() ==> {
            let c = s.clips[s.refs.selected as int];
            &&& s.acted(ActionModel::CopyPath, lay, around, now).fx == s.fx.push(
                Effect::CopyPath { path: c.path },
            )
            &&& s.acted(ActionModel::Spawn { program, args }, lay, around, now).fx == s.fx.push(
                Effect::Launch { path: c.path, cloud: c.cloud },
            )
            &&& s.acted(ActionModel::CopyPath, lay, around, now).clips == s.clips
            &&& s.acted(ActionModel::Spawn { program, args }, lay, around, now).clips == s.clips
        },
        s.refs.selected >= s.clips.len() ==> {
            &&& s.acted(ActionModel::CopyPath, lay, around, now).fx == s.fx
            &&& s.acted(ActionModel::Spawn { program, args }, lay, around, now).fx == s.fx
        },
{
    reveal(State::acted);
    reveal(State::zoomed);
    reveal(State::handed_out);
}

/// Another directory takes the library's place: that of the selected clip, which is
/// waited for, or the one that the key names. Not in the demo, nor while another
/// listing is waited for.
pub proof fn another_directory_takes_the_place(
    s: State,
    dir: Seq<char>,
    lay: Layout,
    around: Surroundings,
    now: u64,
)
    requires
        s.refs.selected < s.clips.len(),
    ensures
        ({
            let c = s.clips[s.refs.selected as int];
            let waits = s.setup.demo || s.refs.pending_reselect is Some;
            let up = s.acted(ActionModel::OpenParent, lay, around, now);
            let other = s.acted(ActionModel::OpenLibrary { dir }, lay, around, now);
            &&& waits || !around.has_dir ==> up == s
            &&& waits ==> other == s
            &&& !waits && around.has_dir ==> up.fx == s.fx.push(
                Effect::ReadParent { path: c.path },
            ) && up.clips.len() == 0 && up.refs.pending_reselect == Some(c.path)
                && up.refs.selected == 0 && up.marked.is_empty() && up.chapters is None
                && up.refs.ingesting
            &&& !waits ==> other.fx == s.fx.push(Effect::ReadLibrary) && other.clips.len() == 0
                && other.refs.pending_reselect is None && other.refs.selected == 0
                && other.marked.is_empty() && other.chapters is None && other.refs.ingesting
            &&& !waits ==> forall|p: u64| !(#[trigger] other.index.contains_key(p))
            &&& !waits && around.has_dir ==> forall|p: u64| !(#[trigger] up.index.contains_key(p))
            &&& !waits ==> other.slots.len() == s.slots.len() && forall|j: int|
                0 <= j < other.slots.len() ==> (#[trigger] other.slots[j]) is None
        }),
{
    reveal(State::acted);
    reveal(State::parent_opened);
    reveal(State::library_opened);
}

/// A key does what the key map says it means; Escape, while there is a layer to take
/// away, means nothing else.
pub proof fn a_key_does_what_it_means(
    s: State,
    key: Key,
    home: Option<Seq<char>>,
    lay: Layout,
    around: Surroundings,
    now: u64,
    dx: i32,
)
    requires
        !s.modes.fullview,
        key != Key::Escape,
        s.refs.selected < s.clips.len() <= crate::state::MAX_CLIPS,
    ensures
        ({
            let t = s.keyed(key, home, lay, around, now);
            let (sel, n) = (s.refs.selected as int, s.clips.len() as int);
            &&& s.keymap.resolved(key, home) == Some(ActionModel::Move { dx, dy: 0 }) && 0 <= sel
                + dx < n ==> t.refs.selected == sel + dx
            &&& s.keymap.resolved(key, home) == Some(ActionModel::Quickview)
                ==> t.modes.quickview == !s.modes.quickview
            &&& s.keymap.resolved(key, home) == Some(ActionModel::Fullview) ==> t.modes.fullview
            &&& s.keymap.resolved(key, home) == Some(ActionModel::Quit) ==> t.fx == s.fx.push(
                Effect::Quit,
            )
            &&& s.keymap.resolved(key, home) is None ==> t.fx == s.fx && t.refs == s.refs
                && t.modes == s.modes && t.clips == s.clips
            &&& now + 600_000_000 <= u64::MAX ==> t.scene.wake_until >= now + 600_000_000
                || s.keymap.resolved(key, home) is Some
        }),
{
    let w = s.woken(now, crate::select::SETTLE_WAKE);
    a_sideways_move_goes_through_the_library(w, dx, lay, around, now);
    switches_switch(w, lay, around, now);
    keys_ask_for_what_they_say(w, Seq::empty(), Seq::empty(), false, lay, around, now);
}

/// Escape takes away the layer on top and nothing under it.
pub proof fn escape_peels(
    s: State,
    home: Option<Seq<char>>,
    lay: Layout,
    around: Surroundings,
    now: u64,
)
    ensures
        ({
            let t = s.keyed(Key::Escape, home, lay, around, now);
            let bar = s.chapters matches Some(b) && b.open && b.peek_until is None;
            &&& bar ==> t.chapters is Some && !t.chapters->0.open && t.modes.fullview
                == s.modes.fullview && t.modes.quickview == s.modes.quickview && t.marked
                == s.marked
            &&& !bar && s.modes.fullview ==> !t.modes.fullview && t.chapters is None
                && t.modes.quickview == s.modes.quickview && t.marked == s.marked
            &&& !bar && !s.modes.fullview && s.modes.quickview ==> !t.modes.quickview
                && !t.modes.fullview && t.marked == s.marked
            &&& !bar && !s.modes.fullview && !s.modes.quickview && !s.marked.is_empty()
                ==> t.marked.is_empty()
            &&& bar || s.modes.fullview || s.modes.quickview || !s.marked.is_empty() ==> t.refs
                == s.refs && t.clips == s.clips && t.fx == s.fx
        }),
{
    reveal(State::peeled);
    reveal(State::bar_closed);
}

} // verus!
