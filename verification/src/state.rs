//! The application's state.

use std::collections::HashMap;
use std::collections::HashSet;

use vstd::prelude::*;

use crate::commands::KeyMap;
use crate::model::{
    Clip, Effect, Extent, GoneTo, Held, LiveState, Press, Resume, SelLive, SlotKind, SlotOwner,
    Thumb, TileReflow,
};
use crate::tuning::{AnimLevel, GridStyle, Interaction, SortMode, Tuning};

verus! {

/// The answer to a look for a clip's chapters: where real chapters start, and
/// the container's duration.
pub struct ChapterPlan {
    pub times: Vec<i64>,
    pub duration: Option<i64>,
}

/// The chapter bar of the full view: chips, one to a chapter, at the bottom.
pub struct ChapterBar {
    /// The clip that the bar describes.
    pub path: u64,
    pub duration: Option<i64>,
    /// Where the chapters start, ascending; unknown until a plan arrives.
    pub times: Option<Vec<i64>>,
    /// The bar wants to be up.
    pub open: bool,
    /// When a bar that only shows for a moment goes down again.
    pub peek_until: Option<u64>,
    /// The chapter that was last gone to.
    pub nav: Option<usize>,
}

/// A chapter bar, its chapters as a sequence.
pub struct BarModel {
    pub path: u64,
    pub duration: Option<i64>,
    pub times: Option<Seq<i64>>,
    pub open: bool,
    pub peek_until: Option<u64>,
    pub nav: Option<usize>,
}

impl View for ChapterBar {
    type V = BarModel;

    open spec fn view(&self) -> BarModel {
        BarModel {
            path: self.path,
            duration: self.duration,
            times: match self.times {
                Some(t) => Some(t@),
                None => None,
            },
            open: self.open,
            peek_until: self.peek_until,
            nav: self.nav,
        }
    }
}

/// The rows that a pinch settled on, and the window and zoom they are for.
pub struct RibbonPack {
    pub starts: Vec<usize>,
    pub vw: i128,
    pub zoom: i128,
}

/// What holds from the start: options and settings.
#[derive(Clone, Copy, PartialEq, Eq, Structural, Debug)]
pub struct Setup {
    pub tuning: Tuning,
    pub sort: SortMode,
    pub demo: bool,
    pub no_storyboards: bool,
    /// The command line's word on how much moves.
    pub cli_animation: Option<AnimLevel>,
}

/// Which view is up and what the pointer is doing in it.
#[derive(Clone, Copy, PartialEq, Eq, Structural, Debug)]
pub struct Modes {
    pub quickview: bool,
    pub quickview_at: u64,
    pub fullview: bool,
    pub focused: bool,
    pub focus_pause_on: bool,
    /// Tiles whose clip has a storyboard cycle through it.
    pub animated_thumbs: bool,
    pub seekbar_seen: Option<u64>,
    pub scrubbing: bool,
    pub skip_flash_at: Option<u64>,
    /// Since when the clip counts as watched, while the slide show is on.
    pub auto_skip_since: Option<u64>,
    /// The pointer was used after the keyboard.
    pub mouse_attention: bool,
    /// How far a pinch on a modal view has come, in billionths.
    pub pinch_accum: i64,
    pub press: Option<Press>,
    /// The chapter last gone to while no bar was up to keep it.
    pub gone_to: Option<GoneTo>,
}

/// What refers to clips by their place.
#[derive(Clone, Copy, PartialEq, Eq, Structural, Debug)]
pub struct Refs {
    pub selected: usize,
    pub sel_changed_at: u64,
    pub hovered: Option<usize>,
    /// The filmstrip chip under the pointer.
    pub strip_hover: Option<usize>,
    pub hover_changed_at: u64,
    /// While a new listing of its directory streams in: the clip that becomes
    /// the selection again.
    pub pending_reselect: Option<u64>,
    /// The library's order is the sorted one.
    pub sort_armed: bool,
    /// A source of arrivals is open.
    pub ingesting: bool,
}

/// The streams that play.
#[derive(Clone, Copy, PartialEq, Eq, Structural, Debug)]
pub struct Lanes {
    pub live_sel: Option<SelLive>,
    pub live_hover: Option<LiveState>,
    pub hover_resume: Option<Resume>,
    /// The clip whose pixels the large texture holds.
    pub hires_shown: Option<u64>,
    /// The selected stream is not drained.
    pub sel_parked: bool,
    pub next_lane_gen: u64,
}

/// What is on the screen, and what moves there.
#[derive(Clone, Copy, PartialEq, Eq, Structural, Debug)]
pub struct Scene {
    /// The window's size when the backdrop was frozen.
    pub frozen: Option<Extent>,
    pub grid_rev: u64,
    pub last_cols: usize,
    /// The last frame drew tiles.
    pub drawn: bool,
    /// When the crossfade of the last arrangement began.
    pub transition: Option<u64>,
    pub ribbon: Option<Held>,
    /// A strip that was let go is on its way to rest.
    pub settling: bool,
    pub last_scroll_event: u64,
    pub motion: bool,
    pub wake_until: u64,
}

/// Counts of background work.
#[derive(Clone, Copy, PartialEq, Eq, Structural, Debug)]
pub struct Jobs {
    pub total: u64,
    pub done: u64,
    pub finished_at: Option<u64>,
    pub thumbs_cached: u64,
    pub evictions: u64,
    pub drain_budget_hits: u64,
}

/// The application's state. What only the drawing needs (springs, positions of
/// the camera, decoded pixels) is kept by whoever draws.
pub struct Switchblade {
    pub clips: Vec<Clip>,
    /// From a clip's path to its place.
    pub index: HashMap<u64, usize>,
    /// The atlas: for each slot, whose picture it holds.
    pub slots: Vec<Option<SlotOwner>>,
    /// Streams kept warm for likely next moves.
    pub warm: Vec<SelLive>,
    /// Clips marked beside the selection; they never play.
    pub marked: HashSet<usize>,
    pub reflow: Vec<TileReflow>,
    pub chapters: Option<ChapterBar>,
    /// For each clip that was asked about, the answer, once there is one.
    pub chapter_probe: HashMap<u64, Option<ChapterPlan>>,
    /// Paths whose stream failed, and when.
    pub live_retry: HashMap<u64, u64>,
    /// Paths whose cached probe was sent to be renewed.
    pub reprobed: HashSet<u64>,
    pub pack: Option<RibbonPack>,
    /// What is asked of the world, in order.
    pub fx: Vec<Effect>,
    pub keymap: KeyMap,
    pub setup: Setup,
    pub modes: Modes,
    pub refs: Refs,
    pub lanes: Lanes,
    pub scene: Scene,
    pub jobs: Jobs,
}

/// The state, its collections as sequences, maps and sets.
pub struct State {
    pub clips: Seq<Clip>,
    pub index: Map<u64, usize>,
    pub slots: Seq<Option<SlotOwner>>,
    pub warm: Seq<SelLive>,
    pub marked: Set<usize>,
    pub reflow: Seq<TileReflow>,
    pub chapters: Option<BarModel>,
    pub chapter_probe: Map<u64, Option<ChapterPlan>>,
    pub live_retry: Map<u64, u64>,
    pub reprobed: Set<u64>,
    pub pack: Option<RibbonPack>,
    pub fx: Seq<Effect>,
    pub keymap: KeyMap,
    pub setup: Setup,
    pub modes: Modes,
    pub refs: Refs,
    pub lanes: Lanes,
    pub scene: Scene,
    pub jobs: Jobs,
}

/// The model of a bar that may be there.
pub open spec fn bar_model(b: Option<ChapterBar>) -> Option<BarModel> {
    match b {
        Some(b) => Some(b@),
        None => None,
    }
}

impl View for Switchblade {
    type V = State;

    open spec fn view(&self) -> State {
        State {
            clips: self.clips@,
            index: self.index@,
            slots: self.slots@,
            warm: self.warm@,
            marked: self.marked@,
            reflow: self.reflow@,
            chapters: bar_model(self.chapters),
            chapter_probe: self.chapter_probe@,
            live_retry: self.live_retry@,
            reprobed: self.reprobed@,
            pack: self.pack,
            fx: self.fx@,
            keymap: self.keymap,
            setup: self.setup,
            modes: self.modes,
            refs: self.refs,
            lanes: self.lanes,
            scene: self.scene,
            jobs: self.jobs,
        }
    }
}

impl State {
    /// What refers to a clip by its place refers to one that is there.
    pub open spec fn refs_wf(self) -> bool {
        &&& self.refs.selected < self.clips.len() || (self.clips.len() == 0 && self.refs.selected == 0)
        &&& self.refs.hovered matches Some(h) ==> h < self.clips.len()
        &&& self.refs.strip_hover matches Some(h) ==> h < self.clips.len()
    }

    /// A bar whose chapters are known has at least one.
    pub open spec fn bar_wf(self) -> bool {
        self.chapters matches Some(b) ==> (b.times matches Some(ts) ==> ts.len() > 0)
    }

    /// The state is sound.
    pub open spec fn wf(self) -> bool {
        &&& self.clips.len() <= MAX_CLIPS
        &&& self.slots.len() > 0
        &&& self.refs_wf()
        &&& self.bar_wf()
        &&& tied(
            self.clips,
            self.index,
            self.slots,
            self.warm,
            self.marked,
            self.lanes.live_hover,
        )
    }

    pub open spec fn level(self) -> AnimLevel {
        match self.setup.cli_animation {
            Some(l) => l,
            None => self.setup.tuning.animation,
        }
    }

    pub open spec fn ui(self) -> bool {
        self.level() != AnimLevel::Still
    }

    pub open spec fn live(self) -> bool {
        self.level() == AnimLevel::Normal
    }

    pub open spec fn modal(self) -> bool {
        self.modes.quickview || self.modes.fullview
    }

    /// Playback rests because the window lost the focus.
    pub open spec fn paused(self) -> bool {
        !self.modes.focused && self.setup.tuning.pause_unfocused && self.modes.focus_pause_on
    }

    pub open spec fn attention(self) -> bool {
        self.setup.tuning.interaction == Interaction::Attention
    }

    /// The clip that the large stream should play.
    pub open spec fn attention_target(self) -> Option<usize> {
        if self.attention() && !self.modal() && self.modes.mouse_attention {
            self.refs.hovered
        } else {
            Some(self.refs.selected)
        }
    }

    pub open spec fn ribboning(self) -> bool {
        self.scene.ribbon is Some || self.scene.settling
    }

    /// The loop stays awake until `ns` from now.
    pub open spec fn woken(self, now: u64, ns: u64) -> State {
        State {
            scene: Scene { wake_until: later(self.scene.wake_until, soon(now, ns)), ..self.scene },
            ..self
        }
    }

    /// One thing more is asked of the world.
    pub open spec fn asked(self, e: Effect) -> State {
        State { fx: self.fx.push(e), ..self }
    }

    /// Every trace of a pinch is gone.
    pub open spec fn unribboned(self) -> State {
        State {
            scene: Scene { ribbon: None, settling: false, ..self.scene },
            pack: None,
            ..self
        }
    }

    pub open spec fn selected_clip(self) -> Option<Clip> {
        if self.refs.selected < self.clips.len() {
            Some(self.clips[self.refs.selected as int])
        } else {
            None
        }
    }
}

/// Every path in the index leads to a clip of that path.
pub open spec fn index_wf(clips: Seq<Clip>, index: Map<u64, usize>) -> bool {
    forall|p: u64| #[trigger]
        index.contains_key(p) ==> index[p] < clips.len()
            && clips[index[p] as int].path == p
}

/// Every slot's owner is a clip of the library.
pub open spec fn slots_wf(clips: Seq<Clip>, slots: Seq<Option<SlotOwner>>) -> bool {
    forall|j: int|
        0 <= j < slots.len() ==> ((#[trigger] slots[j]) matches Some(o) ==> o.clip
            < clips.len())
}

/// A picture that is in the atlas is in the slot that names its clip.
pub open spec fn thumbs_wf(clips: Seq<Clip>, slots: Seq<Option<SlotOwner>>) -> bool {
    forall|i: int|
        0 <= i < clips.len() ==> {
            &&& (#[trigger] clips[i]).thumb matches Thumb::Ready { slot, .. } ==> slot
                < slots.len() && slots[slot as int] == Some(
                SlotOwner { clip: i as usize, kind: SlotKind::Static },
            )
            &&& clips[i].anim matches Thumb::Ready { slot, .. } ==> slot
                < slots.len() && slots[slot as int] == Some(
                SlotOwner { clip: i as usize, kind: SlotKind::Anim },
            )
        }
}

/// The hovered stream has its clip and its slot.
pub open spec fn hover_wf(clips: Seq<Clip>, slots: Seq<Option<SlotOwner>>, hover: Option<LiveState>) -> bool {
    hover matches Some(l) ==> l.clip < clips.len() && l.slot < slots.len()
        && slots[l.slot as int] == Some(
        SlotOwner { clip: l.clip, kind: SlotKind::Live },
    )
}

/// The warm streams and the marks have their clips.
pub open spec fn kept_wf(clips: Seq<Clip>, warm: Seq<SelLive>, marked: Set<usize>) -> bool {
    &&& forall|k: int|
        0 <= k < warm.len() ==> (#[trigger] warm[k]).clip < clips.len()
    &&& forall|m: usize| #[trigger] marked.contains(m) ==> m < clips.len()
}

/// The library and what refers to its clips fit together.
#[verifier::opaque]
pub open spec fn tied(
    clips: Seq<Clip>,
    index: Map<u64, usize>,
    slots: Seq<Option<SlotOwner>>,
    warm: Seq<SelLive>,
    marked: Set<usize>,
    hover: Option<LiveState>,
) -> bool {
    &&& index_wf(clips, index)
    &&& slots_wf(clips, slots)
    &&& thumbs_wf(clips, slots)
    &&& hover_wf(clips, slots, hover)
    &&& kept_wf(clips, warm, marked)
}

/// Between two states the library, and what refers to it, is the same.
pub open spec fn unmoved(a: State, b: State) -> bool {
    &&& b.clips == a.clips
    &&& b.index == a.index
    &&& b.slots == a.slots
    &&& b.warm == a.warm
    &&& b.marked == a.marked
    &&& b.refs == a.refs
    &&& b.lanes == a.lanes
    &&& b.setup == a.setup
    &&& b.keymap == a.keymap
    &&& a.bar_wf() ==> b.bar_wf()
}

/// The most clips that a library may have.
pub const MAX_CLIPS: usize = 1_000_000_000;

/// The later of two moments.
pub open spec fn later(a: u64, b: u64) -> u64 {
    if a < b {
        b
    } else {
        a
    }
}

/// The moment `ns` after `now`.
pub open spec fn soon(now: u64, ns: u64) -> u64 {
    if now + ns > u64::MAX {
        u64::MAX
    } else {
        (now + ns) as u64
    }
}

/// How long ago `at` was.
pub open spec fn since(now: u64, at: u64) -> int {
    if now < at {
        0
    } else {
        now - at
    }
}

/// How long ago `at` was.
pub fn elapsed(now: u64, at: u64) -> (r: u64)
    ensures
        r == since(now, at),
{
    if now < at {
        0
    } else {
        now - at
    }
}

/// The moment `ns` after `now`.
pub fn after(now: u64, ns: u64) -> (r: u64)
    ensures
        r == soon(now, ns),
{
    if now > u64::MAX - ns {
        u64::MAX
    } else {
        now + ns
    }
}

impl Switchblade {
    /// How much moves: the command line's word counts before the settings'.
    pub fn level(&self) -> (r: AnimLevel)
        ensures
            r == self@.level(),
    {
        match self.setup.cli_animation {
            Some(l) => l,
            None => self.setup.tuning.animation,
        }
    }

    /// Whether playback rests because the window lost the focus.
    pub fn paused(&self) -> (r: bool)
        ensures
            r == self@.paused(),
    {
        !self.modes.focused && self.setup.tuning.pause_unfocused && self.modes.focus_pause_on
    }

    /// Whether the attention model of the grid is on.
    pub fn attention(&self) -> (r: bool)
        ensures
            r == self@.attention(),
    {
        self.setup.tuning.interaction == Interaction::Attention
    }

    /// The clip that the large stream should play: the selection, or in the
    /// attention model, in the grid, the hovered tile while the pointer is in
    /// use.
    pub fn attention_target(&self) -> (r: Option<usize>)
        ensures
            r == self@.attention_target(),
    {
        if self.attention() && !self.modes.quickview && !self.modes.fullview && self.modes.mouse_attention {
            self.refs.hovered
        } else {
            Some(self.refs.selected)
        }
    }

    /// Keeps the loop awake for at least `ns` more.
    pub fn wake(&mut self, now: u64, ns: u64)
        ensures
            final(self)@ == old(self)@.woken(now, ns),
    {
        let until: u64 = after(now, ns);
        self.scene.wake_until = if self.scene.wake_until < until {
            until
        } else {
            self.scene.wake_until
        };
    }

    pub(crate) fn ask(&mut self, e: Effect)
        ensures
            final(self)@ == old(self)@.asked(e),
    {
        self.fx.push(e);
    }

    /// What has been asked of the world since the last time, in order.
    pub fn take_effects(&mut self) -> (r: Vec<Effect>)
        ensures
            r@ == old(self)@.fx,
            final(self)@ == (State { fx: Seq::empty(), ..old(self)@ }),
    {
        let mut r: Vec<Effect> = Vec::new();
        r.append(&mut self.fx);
        assert(r@ =~= old(self)@.fx);
        r
    }

    /// Drops every trace of a pinch: the grid goes back to justified rows.
    pub fn ribbon_reset(&mut self)
        ensures
            final(self)@ == old(self)@.unribboned(),
    {
        self.scene.ribbon = None;
        self.scene.settling = false;
        self.pack = None;
    }

    /// Whether a pinch holds the strip instead of changing the zoom alone.
    pub fn ribbon_on(&self) -> (r: bool)
        ensures
            r == (self@.setup.tuning.zoom_ribbon && self@.setup.tuning.grid_layout == GridStyle::Flexible
                && !self@.modal() && self@.ui() && self@.clips.len() > 0),
    {
        self.setup.tuning.zoom_ribbon && self.setup.tuning.grid_layout == GridStyle::Flexible && !(
        self.modes.quickview || self.modes.fullview) && self.level().ui() && self.clips.len() > 0
    }

    /// Whether tiles slide across row boundaries this frame.
    pub fn reflow_active(&self) -> (r: bool)
        ensures
            r == (self@.setup.tuning.grid_layout == GridStyle::Flexible && self@.setup.tuning.zoom_wrap
                && !self@.modal() && self@.ui()),
    {
        self.setup.tuning.grid_layout == GridStyle::Flexible && self.setup.tuning.zoom_wrap && !(
        self.modes.quickview || self.modes.fullview) && self.level().ui()
    }

    /// How many pictures may be uploaded this frame: few while a stream plays,
    /// fewest during a pinch, which runs frames at full rate.
    pub fn media_upload_budget(&self, presenting: bool) -> (r: usize)
        ensures
            r == (if self@.ribboning() {
                MEDIA_UPLOAD_BUDGET_GESTURE
            } else if presenting {
                MEDIA_UPLOAD_BUDGET_LIVE
            } else {
                MEDIA_UPLOAD_BUDGET
            }),
    {
        if self.scene.ribbon.is_some() || self.scene.settling {
            MEDIA_UPLOAD_BUDGET_GESTURE
        } else if presenting {
            MEDIA_UPLOAD_BUDGET_LIVE
        } else {
            MEDIA_UPLOAD_BUDGET
        }
    }
}

/// Pictures uploaded per frame, at most.
pub const MEDIA_UPLOAD_BUDGET: usize = 64;

/// The same while the selected stream plays.
pub const MEDIA_UPLOAD_BUDGET_LIVE: usize = 12;

/// The same during a pinch.
pub const MEDIA_UPLOAD_BUDGET_GESTURE: usize = 4;

} // verus!
