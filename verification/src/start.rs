//! How the application starts: its options, the atlas and the first state.

use std::collections::HashMap;
use std::collections::HashSet;

use vstd::prelude::*;

use crate::arrivals::REST_SCALE;
use crate::commands::KeyMap;
use crate::flex::Aspect;
use crate::model::{Clip, Effect, SelLive, SlotOwner, Thumb, TileReflow};
use crate::state::{
    after, Jobs, Lanes, Modes, Refs, Scene, Setup, State, Switchblade,
};
use crate::tuning::{AnimLevel, SortMode, Tuning};

verus! {

/// How many tiles the demo shows.
pub const DEMO_TILES: usize = 480;

/// What the command line asks for.
pub struct Options {
    /// How much moves, in place of the configuration's word on it.
    pub animation: Option<AnimLevel>,
    /// The inputs; where there are any, the standard input is not read.
    pub inputs: Vec<String>,
    /// Show a grid of made-up tiles.
    pub demo: bool,
    /// Start in fullscreen, fast or not.
    pub fullscreen: Option<bool>,
    /// Read no configuration.
    pub no_config: bool,
    /// Run on these settings; no configuration is read.
    pub tuning: Option<Tuning>,
    /// Never make a storyboard.
    pub no_storyboards: bool,
    pub sort: Option<SortMode>,
}

impl Default for Options {
    fn default() -> (o: Self)
        ensures
            o.inputs@.len() == 0,
            o.animation is None && o.fullscreen is None && o.tuning is None && o.sort is None,
            !o.demo && !o.no_config && !o.no_storyboards,
    {
        Options {
            animation: None,
            inputs: Vec::new(),
            demo: false,
            fullscreen: None,
            no_config: false,
            tuning: None,
            no_storyboards: false,
            sort: None,
        }
    }
}

/// Where the clips come from.
#[derive(Clone, Copy, PartialEq, Eq, Structural, Debug)]
pub enum InputSource {
    /// The inputs of the command line.
    Inputs,
    /// The standard input, unless it is a terminal.
    Pipe,
    /// Nowhere: the tiles are made up.
    Demo,
}

impl Options {
    /// Where the clips come from: the demo goes before the inputs, and these
    /// before the standard input.
    pub open spec fn source(self) -> InputSource {
        if self.demo {
            InputSource::Demo
        } else if self.inputs@.len() > 0 {
            InputSource::Inputs
        } else {
            InputSource::Pipe
        }
    }

    /// Where the clips come from.
    pub fn input_source(&self) -> (r: InputSource)
        ensures
            r == self.source(),
    {
        if self.demo {
            InputSource::Demo
        } else if self.inputs.len() > 0 {
            InputSource::Inputs
        } else {
            InputSource::Pipe
        }
    }

    /// Whether a configuration is read and watched.
    pub fn reads_config(&self) -> (r: bool)
        ensures
            r == (self.tuning is None && !self.no_config),
    {
        self.tuning.is_none() && !self.no_config
    }
}

/// How thumbnails and storyboards are made.
#[derive(Clone, Copy, PartialEq, Eq, Structural, Debug)]
pub struct Recipe {
    pub thumb_w: u32,
    pub thumb_h: u32,
    /// From 2 (best) to 11.
    pub quality: u8,
    pub anim_grid: u32,
    /// In billionths of the clip.
    pub seek_fraction: u32,
}

/// `a` within `lo` and `hi`.
pub open spec fn limited(a: u32, lo: u32, hi: u32) -> u32 {
    if a < lo {
        lo
    } else if a > hi {
        hi
    } else {
        a
    }
}

fn limit(a: u32, lo: u32, hi: u32) -> (r: u32)
    ensures
        r == limited(a, lo, hi),
{
    if a < lo {
        lo
    } else if a > hi {
        hi
    } else {
        a
    }
}

/// The recipe that the settings stand for, within what is served.
pub open spec fn recipe_of(t: Tuning) -> Recipe {
    Recipe {
        thumb_w: limited(t.thumb_width, 64, 2048),
        thumb_h: limited(t.thumb_height, 36, 2048),
        quality: (12 - limited(t.thumb_quality as u32, 1, 10)) as u8,
        anim_grid: limited(t.anim_grid, 1, 4),
        seek_fraction: limited(t.thumb_seek_fraction, 0, 990_000_000),
    }
}

/// The recipe that the settings stand for.
pub fn recipe_from(t: &Tuning) -> (r: Recipe)
    ensures
        r == recipe_of(*t),
{
    let q: u32 = limit(t.thumb_quality as u32, 1, 10);
    Recipe {
        thumb_w: limit(t.thumb_width, 64, 2048),
        thumb_h: limit(t.thumb_height, 36, 2048),
        quality: (12 - q) as u8,
        anim_grid: limit(t.anim_grid, 1, 4),
        seek_fraction: limit(t.thumb_seek_fraction, 0, 990_000_000),
    }
}

/// The longest side that an atlas may have, in pixels.
pub const ATLAS_SIDE: u32 = 8192;

/// The atlas: so many columns and rows of slots, and the size of the large
/// texture.
#[derive(Clone, Copy, PartialEq, Eq, Structural, Debug)]
pub struct Atlas {
    pub slot_w: u32,
    pub slot_h: u32,
    pub cols: u32,
    pub rows: u32,
    pub hires_w: u32,
    pub hires_h: u32,
}

/// How many slots of a size fit a length, which counts up to the longest side;
/// at least one.
pub open spec fn slots_along(length: u32, slot: u32) -> int {
    let n = (if length > ATLAS_SIDE {
        ATLAS_SIDE as int
    } else {
        length as int
    }) / (slot as int);
    if n < 1 {
        1
    } else {
        n
    }
}

/// The atlas for the settings.
pub open spec fn atlas_of(t: Tuning) -> Atlas {
    let r = recipe_of(t);
    Atlas {
        slot_w: r.thumb_w,
        slot_h: r.thumb_h,
        cols: slots_along(t.atlas_width, r.thumb_w) as u32,
        rows: slots_along(t.atlas_height, r.thumb_h) as u32,
        hires_w: limited(t.quickview_max_width, 320, 4096),
        hires_h: limited(t.quickview_max_height, 180, 4096),
    }
}

fn count_slots(length: u32, slot: u32) -> (n: u32)
    requires
        slot > 0,
    ensures
        n == slots_along(length, slot),
        1 <= n <= ATLAS_SIDE,
{
    let l: u32 = if length > ATLAS_SIDE {
        ATLAS_SIDE
    } else {
        length
    };
    let n: u32 = l / slot;
    proof {
        assert(0 <= l / slot <= l) by (nonlinear_arith)
            requires
                slot >= 1,
        ;
    }
    if n < 1 {
        1
    } else {
        n
    }
}

/// The atlas for the settings.
pub fn atlas_from(t: &Tuning) -> (a: Atlas)
    ensures
        a == atlas_of(*t),
        1 <= a.cols <= ATLAS_SIDE,
        1 <= a.rows <= ATLAS_SIDE,
        a.hires_w > 0,
        a.hires_h > 0,
{
    let r = recipe_from(t);
    Atlas {
        slot_w: r.thumb_w,
        slot_h: r.thumb_h,
        cols: count_slots(t.atlas_width, r.thumb_w),
        rows: count_slots(t.atlas_height, r.thumb_h),
        hires_w: limit(t.quickview_max_width, 320, 4096),
        hires_h: limit(t.quickview_max_height, 180, 4096),
    }
}

/// The shape of the demo's tile `i`.
pub open spec fn demo_shape(i: int) -> Aspect {
    let k = i % 7;
    if k == 1 {
        Aspect { w: 9, h: 16 }
    } else if k == 3 {
        Aspect { w: 1, h: 1 }
    } else if k == 4 {
        Aspect { w: 4, h: 3 }
    } else if k == 5 {
        Aspect { w: 47, h: 20 }
    } else {
        Aspect { w: 16, h: 9 }
    }
}

/// The demo's tile `i`: its path is its number, it fades in after those before
/// it, and it has no picture to wait for.
pub open spec fn demo_clip(i: int, now: u64) -> Clip {
    Clip {
        path: i as u64,
        readable: true,
        cloud: false,
        cached: true,
        spawned: crate::state::soon(now, (i * 2_000_000) as u64),
        scale: REST_SCALE,
        emph: 0,
        thumb: Thumb::Failed,
        anim: Thumb::Failed,
        aspect: Some(demo_shape(i)),
        created: None,
    }
}

/// The demo's tiles.
pub open spec fn demo_clips(n: nat, now: u64) -> Seq<Clip> {
    Seq::new(n, |i: int| demo_clip(i, now))
}

/// The demo's tiles.
pub fn demo_library(n: usize, now: u64) -> (v: Vec<Clip>)
    requires
        n <= crate::state::MAX_CLIPS,
    ensures
        v@ == demo_clips(n as nat, now),
{
    let mut v: Vec<Clip> = Vec::new();
    let mut i: usize = 0;
    while i < n
        invariant
            i <= n,
            n <= crate::state::MAX_CLIPS,
            v@.len() == i,
            forall|k: int| 0 <= k < i ==> (#[trigger] v@[k]) == demo_clip(k, now),
        decreases n - i,
    {
        let k: usize = i % 7;
        let aspect = if k == 1 {
            Aspect { w: 9, h: 16 }
        } else if k == 3 {
            Aspect { w: 1, h: 1 }
        } else if k == 4 {
            Aspect { w: 4, h: 3 }
        } else if k == 5 {
            Aspect { w: 47, h: 20 }
        } else {
            Aspect { w: 16, h: 9 }
        };
        v.push(
            Clip {
                path: i as u64,
                readable: true,
                cloud: false,
                cached: true,
                spawned: after(now, (i as u64) * 2_000_000),
                scale: REST_SCALE,
                emph: 0,
                thumb: Thumb::Failed,
                anim: Thumb::Failed,
                aspect: Some(aspect),
                created: None,
            },
        );
        i += 1;
    }
    assert(v@ =~= demo_clips(n as nat, now));
    v
}

/// The settings that the application starts with: those of the options, else
/// those of the configuration where the options let it be read, else the built-in
/// ones.
pub open spec fn first_tuning(opts: Options, config: Option<Tuning>) -> Tuning {
    match opts.tuning {
        Some(t) => t,
        None => match config {
            Some(t) if !opts.no_config => t,
            _ => crate::tuning::default_tuning(),
        },
    }
}

/// The order in which the library starts.
pub open spec fn first_sort(opts: Options, t: Tuning) -> SortMode {
    match opts.sort {
        Some(s) => s,
        None => t.sort,
    }
}

/// The first state: `clips` are the demo's tiles, if it is one.
pub open spec fn first_state(
    opts: Options,
    tuning: Tuning,
    keymap: KeyMap,
    demo: bool,
    clips: Seq<Clip>,
    now: u64,
) -> State {
    let atlas = atlas_of(tuning);
    let s = State {
        clips,
        index: Map::empty(),
        slots: crate::arrivals::all_free((atlas.cols * atlas.rows) as nat),
        warm: Seq::empty(),
        marked: Set::empty(),
        reflow: Seq::empty(),
        chapters: None,
        chapter_probe: Map::empty(),
        live_retry: Map::empty(),
        reprobed: Set::empty(),
        pack: None,
        fx: Seq::empty(),
        keymap,
        setup: Setup {
            tuning,
            sort: first_sort(opts, tuning),
            demo,
            no_storyboards: opts.no_storyboards,
            cli_animation: opts.animation,
        },
        modes: Modes {
            quickview: false,
            quickview_at: now,
            fullview: false,
            focused: true,
            focus_pause_on: true,
            animated_thumbs: false,
            seekbar_seen: None,
            scrubbing: false,
            skip_flash_at: None,
            auto_skip_since: None,
            mouse_attention: false,
            pinch_accum: 0,
            press: None,
            gone_to: None,
        },
        refs: Refs {
            selected: 0,
            sel_changed_at: now,
            hovered: None,
            strip_hover: None,
            hover_changed_at: now,
            pending_reselect: None,
            sort_armed: first_sort(opts, tuning) != SortMode::Arrival,
            ingesting: !demo,
        },
        lanes: Lanes {
            live_sel: None,
            live_hover: None,
            hover_resume: None,
            hires_shown: None,
            sel_parked: false,
            next_lane_gen: 0,
        },
        scene: Scene {
            frozen: None,
            grid_rev: 0,
            last_cols: 0,
            drawn: false,
            transition: None,
            ribbon: None,
            settling: false,
            last_scroll_event: now,
            motion: true,
            wake_until: crate::state::soon(now, 1_000_000_000),
        },
        jobs: Jobs {
            total: 0,
            done: 0,
            finished_at: None,
            thumbs_cached: 0,
            evictions: 0,
            drain_budget_hits: 0,
        },
    };
    match opts.fullscreen {
        Some(fast) => s.asked(Effect::ToggleFullscreen { fast }),
        None => s,
    }
}

fn free_slots(n: usize) -> (v: Vec<Option<SlotOwner>>)
    ensures
        v@ == crate::arrivals::all_free(n as nat),
{
    let mut v: Vec<Option<SlotOwner>> = Vec::new();
    let mut j: usize = 0;
    while j < n
        invariant
            j <= n,
            v@.len() == j,
            forall|k: int| 0 <= k < j ==> (#[trigger] v@[k]) is None,
        decreases n - j,
    {
        v.push(None);
        j += 1;
    }
    assert(v@ =~= crate::arrivals::all_free(n as nat));
    v
}

impl Switchblade {
    /// Starts with the options and the configuration that was read, if one was;
    /// it does not count where the options leave the configuration out.
    /// `piped` says whether the standard input is something other than a
    /// terminal; without inputs or a pipe the demo is shown, of `tiles` tiles.
    pub fn with_options(
        opts: &Options,
        config: Option<(Tuning, KeyMap)>,
        piped: bool,
        tiles: usize,
        now: u64,
    ) -> (s: Self)
        requires
            tiles <= crate::state::MAX_CLIPS,
        ensures
            ({
                let tuning = first_tuning(
                    *opts,
                    match config {
                        Some((t, _)) => Some(t),
                        None => None,
                    },
                );
                let demo = opts.source() is Demo || (opts.source() is Pipe && !piped);
                &&& s@ == first_state(
                    *opts,
                    tuning,
                    s@.keymap,
                    demo,
                    if demo {
                        demo_clips(tiles as nat, now)
                    } else {
                        Seq::empty()
                    },
                    now,
                )
                &&& match config {
                    Some((_, k)) => if opts.tuning is None && !opts.no_config {
                        s@.keymap == k
                    } else {
                        crate::commands::is_default(s@.keymap)
                    },
                    None => crate::commands::is_default(s@.keymap),
                }
            }),
            s@.wf(),
    {
        let (tuning, keymap): (Tuning, KeyMap) = match opts.tuning {
            Some(t) => (t, KeyMap::default()),
            None => match config {
                Some((t, k)) if !opts.no_config => (t, k),
                _ => (Tuning::default(), KeyMap::default()),
            },
        };
        let demo = match opts.input_source() {
            InputSource::Demo => true,
            InputSource::Inputs => false,
            InputSource::Pipe => !piped,
        };
        let sort = match opts.sort {
            Some(s) => s,
            None => tuning.sort,
        };
        let atlas = atlas_from(&tuning);
        proof {
            assert(1 <= atlas.cols * atlas.rows <= 8192 * 8192) by (nonlinear_arith)
                requires
                    1 <= atlas.cols <= 8192,
                    1 <= atlas.rows <= 8192,
            ;
        }
        let slots = free_slots((atlas.cols * atlas.rows) as usize);
        let clips: Vec<Clip> = if demo {
            demo_library(tiles, now)
        } else {
            Vec::new()
        };
        let warm: Vec<SelLive> = Vec::new();
        let reflow: Vec<TileReflow> = Vec::new();
        let mut s = Switchblade {
            clips,
            index: HashMap::new(),
            slots,
            warm,
            marked: HashSet::new(),
            reflow,
            chapters: None,
            chapter_probe: HashMap::new(),
            live_retry: HashMap::new(),
            reprobed: HashSet::new(),
            pack: None,
            fx: Vec::new(),
            keymap,
            setup: Setup {
                tuning,
                sort,
                demo,
                no_storyboards: opts.no_storyboards,
                cli_animation: opts.animation,
            },
            modes: Modes {
                quickview: false,
                quickview_at: now,
                fullview: false,
                focused: true,
                focus_pause_on: true,
                animated_thumbs: false,
                seekbar_seen: None,
                scrubbing: false,
                skip_flash_at: None,
                auto_skip_since: None,
                mouse_attention: false,
                pinch_accum: 0,
                press: None,
                gone_to: None,
            },
            refs: Refs {
                selected: 0,
                sel_changed_at: now,
                hovered: None,
                strip_hover: None,
                hover_changed_at: now,
                pending_reselect: None,
                sort_armed: sort != SortMode::Arrival,
                ingesting: !demo,
            },
            lanes: Lanes {
                live_sel: None,
                live_hover: None,
                hover_resume: None,
                hires_shown: None,
                sel_parked: false,
                next_lane_gen: 0,
            },
            scene: Scene {
                frozen: None,
                grid_rev: 0,
                last_cols: 0,
                drawn: false,
                transition: None,
                ribbon: None,
                settling: false,
                last_scroll_event: now,
                motion: true,
                wake_until: after(now, 1_000_000_000),
            },
            jobs: Jobs {
                total: 0,
                done: 0,
                finished_at: None,
                thumbs_cached: 0,
                evictions: 0,
                drain_budget_hits: 0,
            },
        };
        match opts.fullscreen {
            Some(fast) => {
                s.ask(Effect::ToggleFullscreen { fast });
            },
            None => {},
        }
        proof {
            reveal(crate::state::tied);
        }
        s
    }

    /// Takes over settings and keys that were read anew.
    pub fn reload(&mut self, tuning: Tuning, keymap: KeyMap)
        requires
            old(self)@.wf(),
        ensures
            final(self)@ == (State {
                setup: Setup { tuning, ..old(self)@.setup },
                keymap,
                ..old(self)@
            }),
            final(self)@.wf(),
    {
        self.setup.tuning = tuning;
        self.keymap = keymap;
    }
}

} // verus!
