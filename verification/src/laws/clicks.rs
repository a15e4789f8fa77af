//! What the pointer, the wheel and the fingers do.

use vstd::prelude::*;

use crate::input::{Click, Input, Pointer};
use crate::model::Effect;
use crate::state::State;
use crate::tuning::{GridStyle, Interaction};

verus! {

/// A press on a tile of the grid selects its clip; let go without a drag, it opens the
/// quick view where the tile was the selection already, or where attention selects. A
/// press beside the tiles does nothing.
pub proof fn a_press_on_a_tile_selects_it(s: State, click: Click, now: u64, then: u64, i: usize)
    requires
        !s.modes.fullview,
        !s.modes.quickview,
        !s.modes.scrubbing,
        !click.cmd,
        !click.shift,
    ensures
        ({
            let t = s.pressed(click, now);
            let u = t.released(None, then);
            let on = s.setup.tuning.interaction == Interaction::Attention;
            &&& click.tile is None ==> t == s
            &&& click.tile == Some(i) ==> {
                &&& t.refs.selected == i
                &&& i != s.refs.selected ==> t.refs.sel_changed_at == now
                &&& t.marked == s.marked
                &&& !t.modes.quickview
                &&& u.refs.selected == i
                &&& u.modes.quickview == (on || i == s.refs.selected)
                &&& u.modes.press is None
            }
        }),
{
    reveal(State::pressed_grid);
    reveal(State::released);
}

/// Where attention selects, a press with the command key turns the mark of its tile and
/// of no other; with the shift key it marks all from the selection to the tile. The
/// selection stays.
pub proof fn a_press_with_a_modifier_marks(s: State, click: Click, now: u64, i: usize, m: usize)
    requires
        !s.modes.fullview,
        !s.modes.quickview,
        s.setup.tuning.interaction == Interaction::Attention,
        click.tile == Some(i),
        click.cmd || click.shift,
    ensures
        ({
            let t = s.pressed(click, now);
            let sel = s.refs.selected;
            &&& t.refs == s.refs
            &&& t.modes == s.modes
            &&& click.shift ==> (t.marked.contains(m) <==> s.marked.contains(m) || (sel <= m <= i) || (
            i <= m <= sel))
            &&& !click.shift && m != i ==> (t.marked.contains(m) <==> s.marked.contains(m))
            &&& !click.shift ==> (t.marked.contains(i) <==> !s.marked.contains(i))
        }),
{
    reveal(State::pressed_grid);
}

/// A press in the quick view goes to the seekbar, else to a chip, which is selected, else
/// to the video, which comes to fill the window; beside them it closes the view.
pub proof fn a_press_in_the_quick_view(s: State, click: Click, now: u64, i: usize)
    requires
        s.modes.quickview,
        !s.modes.fullview,
    ensures
        ({
            let t = s.pressed(click, now);
            &&& click.bar is Some ==> t.modes.scrubbing && t.refs == s.refs && t.modes.quickview
            &&& click.bar is None && click.chip == Some(i) ==> t.refs.selected == i
                && t.modes.quickview && !t.modes.fullview
            &&& click.bar is None && click.chip is None && click.video ==> t.modes.fullview
                && t.modes.quickview && t.refs == s.refs
            &&& click.bar is None && click.chip is None && !click.video ==> !t.modes.quickview
                && !t.modes.fullview && t.refs == s.refs
            &&& t.marked == s.marked
            &&& t.clips == s.clips
        }),
{
    reveal(State::pressed_quick);
    reveal(State::scrubbed);
}

/// A press in the full view goes to the chapter bar while it is up: it picks the chapter
/// that was hit, and the bar goes down. Without a bar it goes to the seekbar; beside that
/// it closes the view.
pub proof fn a_press_in_the_full_view(s: State, click: Click, now: u64)
    requires
        s.modes.fullview,
    ensures
        ({
            let t = s.pressed(click, now);
            let up = s.chapters matches Some(b) && b.open;
            &&& up ==> t.modes.fullview && (t.chapters matches Some(c) && !c.open)
            &&& up && click.chapter is None ==> t.fx == s.fx
            &&& up && click.chapter is Some ==> t.fx == s.chapter_sought(
                click.chapter->0 as int,
                now,
            ).fx
            &&& !up && click.bar is Some ==> t.modes.fullview && t.modes.scrubbing
            &&& !up && click.bar is None ==> !t.modes.fullview && t.modes.quickview
                == s.modes.quickview && t.fx == s.fx
            &&& t.refs == s.refs
            &&& t.marked == s.marked
        }),
{
    reveal(State::pressed_full);
    reveal(State::chapter_sought);
    reveal(State::scrubbed);
}

/// The seekbar, taken hold of, sends the stream where it was hit; a pointer that moves
/// takes the stream along, roughly, and letting go lands it exactly.
pub proof fn a_scrub_follows_the_pointer(s: State, f: u32, g: u32, at: Pointer, now: u64)
    requires
        s.modes.scrubbing,
        at.share == Some(f),
        !at.dragged,
        f <= 1_000_000_000,
        g <= 1_000_000_000,
    ensures
        s.bar_pointed(Some(f), at.over_video, now).fx == s.scrubbed(f as int, false, now).fx,
        s.released(Some(g), now).fx.len() >= s.fx.len(),
        !s.released(Some(g), now).modes.scrubbing,
        s.modes.press is None ==> s.released(Some(g), now).fx == s.scrubbed(
            g as int,
            true,
            now,
        ).fx,
        s.modes.press is None ==> s.released(None, now).fx == s.fx,
        s.bar_pointed(Some(f), at.over_video, now).modes.scrubbing,
{
    reveal(State::released);
    reveal(State::scrubbed);
}

/// A press that becomes a drag hands the clip's file over, once, and is no click any
/// more.
pub proof fn a_drag_hands_the_file_over(s: State, i: usize, open: bool, now: u64)
    requires
        s.modes.press == Some(crate::model::Press { clip: i, open_quickview: open }),
        i < s.clips.len(),
    ensures
        s.drag_checked(true).fx == s.fx.push(
            Effect::BeginDrag { path: s.clips[i as int].path, cloud: s.clips[i as int].cloud },
        ),
        s.drag_checked(true).modes.press is None,
        s.drag_checked(true).drag_checked(true) == s.drag_checked(true),
        s.drag_checked(true).refs == s.refs,
        s.drag_checked(false) == s,
{
}

/// The wheel moves what is in front: an open chapter bar, else, without a bar, the
/// filmstrip of the quick view or the grid; the full view has nothing to scroll.
pub proof fn the_wheel_moves_what_is_in_front(s: State, strip: Option<usize>, now: u64, k: usize)
    ensures
        ({
            let t = s.scrolled(strip, now);
            let bar = s.chapters is Some;
            &&& (s.chapters matches Some(b) && b.open && b.times is Some) ==> t.fx == s.fx.push(
                Effect::PanChapters,
            ) && t.refs == s.refs
            &&& (s.chapters matches Some(b) && !(b.open && b.times is Some)) ==> t == s
            &&& !bar && s.modes.fullview ==> t == s
            &&& !bar && !s.modes.fullview && !s.modes.quickview ==> t.fx == s.fx.push(
                Effect::PanGrid,
            ) && t.refs == s.refs && t.scene.last_scroll_event == now
            &&& !bar && !s.modes.fullview && s.modes.quickview && strip == Some(k)
                && k < s.clips.len() ==> t.scene.last_scroll_event == now && t.fx.len() > s.fx.len()
                && t.fx[s.fx.len() as int] == Effect::PanStrip && (if s.setup.tuning.strip_scroll_selects {
                t.refs.selected == k
            } else {
                t.refs == s.refs
            })
            &&& t.modes == s.modes
        }),
{
    reveal(State::scrolled);
}

/// Fingers that go apart lead a view deeper, those that close lead a view back, once they
/// have come far enough; short of that nothing changes but how far they have come.
pub proof fn a_pinch_steps_between_the_views(s: State, delta: i64, now: u64)
    requires
        s.modes.quickview || s.modes.fullview,
        s.modes.pinch_accum == 0,
    ensures
        ({
            let t = s.pinched(delta, now);
            &&& delta >= 180_000_000 && s.modes.quickview ==> t.modes.fullview
            &&& delta >= 180_000_000 && s.modes.fullview ==> t.modes.fullview
            &&& delta <= -180_000_000 && s.modes.fullview ==> !t.modes.fullview
                && t.modes.quickview
            &&& delta <= -180_000_000 && !s.modes.fullview ==> !t.modes.fullview
                && !t.modes.quickview
            &&& -180_000_000 < delta < 180_000_000 ==> t.modes.fullview == s.modes.fullview
                && t.modes.quickview == s.modes.quickview && t.modes.pinch_accum == delta
            &&& !(-180_000_000 < delta < 180_000_000) ==> t.modes.pinch_accum == 0
            &&& t.refs == s.refs
        }),
{
    reveal(State::pinched);
    reveal(State::pinch_kept);
    reveal(State::dived);
    reveal(State::backed_out);
    reveal(State::stepped_down);
}

/// A pinch that comes in parts steps as one that comes at once does; a change of
/// direction starts it anew.
pub proof fn a_pinch_adds_up(s: State, a: i64, b: i64, now: u64)
    requires
        s.modes.quickview || s.modes.fullview,
        s.modes.pinch_accum == 0,
        -180_000_000 < a < 180_000_000,
        -180_000_000 < b < 180_000_000,
        a != 0,
    ensures
        ({
            let t = s.pinched(a, now).pinched(b, now);
            &&& a > 0 && b >= 0 && a + b >= 180_000_000 && s.modes.quickview ==> t.modes.fullview
            &&& a < 0 && b < 0 && a + b <= -180_000_000 && s.modes.fullview ==> !t.modes.fullview
            &&& a > 0 && b >= 0 && a + b < 180_000_000 ==> t.modes.pinch_accum == a + b
            &&& a < 0 && b < 0 && a + b > -180_000_000 ==> t.modes.pinch_accum == a + b
            &&& a > 0 && b < 0 ==> t.modes.pinch_accum == b
            &&& a < 0 && b >= 0 ==> t.modes.pinch_accum == b
        }),
{
    reveal(State::pinched);
    reveal(State::pinch_kept);
    reveal(State::dived);
    reveal(State::backed_out);
    reveal(State::stepped_down);
}

/// In the grid a pinch takes hold of the strip where the grid is flexible, the settings
/// say so and things may move; else it zooms, and the rows are justified again.
pub proof fn a_pinch_in_the_grid(s: State, delta: i64, now: u64)
    requires
        !s.modes.quickview,
        !s.modes.fullview,
    ensures
        ({
            let t = s.pinched(delta, now);
            let holds = s.setup.tuning.zoom_ribbon && s.setup.tuning.grid_layout
                == GridStyle::Flexible && s.ui() && s.clips.len() > 0;
            &&& holds ==> t.fx.last() == Effect::GripRibbon && t.pack == s.pack
            &&& !holds ==> t.fx == s.fx.push(Effect::PinchZoom) && t.pack is None
                && t.scene.ribbon is None && !t.scene.settling
            &&& holds && s.scene.ribbon is None && s.scene.settling ==> t.fx == s.fx.push(
                Effect::InstallSettled,
            ).push(Effect::GripRibbon)
            &&& t.refs == s.refs
            &&& t.modes.pinch_accum == 0
        }),
{
    reveal(State::pinched);
}

/// A hold that has been quiet as long as the settings say is let go, and none before.
pub proof fn a_hold_is_let_go_when_quiet(s: State, now: u64)
    requires
        s.scene.ribbon is Some,
        s.setup.tuning.zoom_ribbon_release >= 1_000_000,
    ensures
        ({
            let last = s.scene.ribbon->0.last;
            let t = s.grip_checked(now);
            &&& now >= last && now - last >= s.setup.tuning.zoom_ribbon_release
                ==> t.scene.ribbon is None && t.fx == s.fx.push(Effect::ReleaseRibbon)
            &&& now < last || now - last < s.setup.tuning.zoom_ribbon_release ==> t.scene.ribbon
                == s.scene.ribbon && t.fx == s.fx && t.scene.motion
        }),
{
}

/// A strip has settled once it has come 995 of a thousand parts of its way.
pub proof fn a_strip_settles_near_its_rest(s: State, t: i128)
    requires
        s.scene.settling,
    ensures
        t >= 995_000 ==> !s.settle_checked(t).scene.settling && s.settle_checked(t).fx == s.fx.push(
            Effect::InstallSettled,
        ),
        t < 995_000 ==> s.settle_checked(t).scene.settling && s.settle_checked(t).fx == s.fx,
{
}

/// A pinch that finds a clip holds it; one that moves keeps the hold alive; one that
/// finds none zooms.
pub proof fn a_pinch_holds_what_it_finds(s: State, clip: Option<usize>, moved: bool, now: u64, i: usize)
    ensures
        ({
            let t = s.gripped(clip, moved, now);
            &&& s.scene.ribbon matches Some(h) ==> (t.scene.ribbon matches Some(g) && g.clip == h.clip
                && (moved ==> g.last == now) && (!moved ==> g.last == h.last) && t.fx == s.fx)
            &&& s.scene.ribbon is None && clip == Some(i) ==> (t.scene.ribbon matches Some(g)
                && g.clip == i && g.last == now)
            &&& s.scene.ribbon is None && clip is None ==> t.fx == s.fx.push(Effect::PinchZoom)
                && t.scene.ribbon is None
        }),
{
}

/// What happens at the window is seen to, and the loop stays awake for it. Real travel
/// of the pointer draws the attention; over the video it shows the seekbar.
pub proof fn what_happens_is_seen_to(s: State, at: Pointer, focused: bool, pos: int, now: u64)
    requires
        now <= 1_000_000_000_000_000_000,
    ensures
        ({
            let t = s.happened(Input::Focus { focused }, pos, now);
            &&& t.modes.focused == focused
            &&& t.scene.wake_until >= now + 600_000_000
            &&& !focused && s.scene.ribbon is Some ==> t.scene.ribbon is None && t.fx == s.fx.push(
                Effect::ReleaseRibbon,
            )
            &&& focused || s.scene.ribbon is None ==> t.fx == s.fx
            &&& t.refs == s.refs
        }),
        !s.modes.fullview ==> {
            let t = s.happened(Input::Cursor { at }, pos, now);
            &&& at.moved ==> t.modes.mouse_attention
            &&& !at.moved ==> t.modes.mouse_attention == s.modes.mouse_attention
            &&& at.over_video || s.modes.scrubbing ==> t.modes.seekbar_seen == Some(now)
            &&& !at.over_video && !s.modes.scrubbing ==> t.modes.seekbar_seen
                == s.modes.seekbar_seen
            &&& t.refs == s.refs
        },
{
    reveal(State::refocused);
    reveal(State::pointed);
    reveal(State::scrubbed);
}

} // verus!
