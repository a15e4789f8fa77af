use std::collections::{HashMap, HashSet};

use switchblade::arrivals::{Ingested, INGEST_DRAIN_BUDGET};
use switchblade::camera::{Camera, Chase, Scales};
use switchblade::chapters::{checkpoint_count, resolve_chapter, SECOND};
use switchblade::commands::{Key, KeyMap};
use switchblade::flex::{clamp_aspect, Aspect, FlexGrid, WHOLE};
use switchblade::grid::{layout_with, pane_of, visible_rows, Layout, Rect, Shape};
use switchblade::input::{is_drag, Click, Input, Pointer, MODAL_PINCH_STEP};
use switchblade::media::meta_aspect_of;
use switchblade::metas::{Memo, Meta};
use switchblade::model::{
    Effect, Extent, SlotKind, SlotOwner, Thumb, TileReflow, ZoomStep,
};
use switchblade::overlay::{
    chapter_chip_at, quickview_rect, strip_chip_at, strip_geom, strip_layout, ChapterRow,
};
use switchblade::ribbon::{
    ribbon_grip, ribbon_release, ribbon_rows, ribbon_walk, Release, RibbonGrip, RibbonItem,
    RibbonRow, Window,
};
use switchblade::scene::Crossing;
use switchblade::start::Options;
use switchblade::state::{
    ChapterBar, Switchblade, MEDIA_UPLOAD_BUDGET, MEDIA_UPLOAD_BUDGET_GESTURE,
    MEDIA_UPLOAD_BUDGET_LIVE,
};
use switchblade::tuning::{AnimLevel, BackdropStyle, GridStyle, Interaction, SortMode, Tuning};

const MS: u64 = 1_000_000;
const START: u64 = 1_000_000_000_000;

struct Settling {
    from: Vec<RibbonRow>,
    to: Vec<RibbonRow>,
    starts: Vec<usize>,
    scroll: i128,
    t: f64,
}

/// A window around the state: sizes, a camera without springs, and a clock.
struct Stage {
    app: Switchblade,
    now: u64,
    vw: i128,
    vh: i128,
    scroll: i128,
    zoom: i128,
    cursor: (i128, i128),
    grip: Option<RibbonGrip>,
    settling: Option<Settling>,
    blend: f64,
}

fn px(v: f64) -> i128 {
    (v * 1e6) as i128
}

fn options(animation: AnimLevel) -> Options {
    Options { animation: Some(animation), demo: true, no_config: true, ..Options::default() }
}

fn stage_with(opts: &Options) -> Stage {
    Stage {
        app: Switchblade::with_options(opts, None, false, 480, START),
        now: START,
        vw: px(1280.0),
        vh: px(800.0),
        scroll: 0,
        zoom: WHOLE,
        cursor: (0, 0),
        grip: None,
        settling: None,
        blend: 2.0,
    }
}

/// A stage over `n` clips.
fn stage_of(n: usize) -> Stage {
    let opts = options(AnimLevel::Still);
    Stage { app: Switchblade::with_options(&opts, None, false, n, START), ..stage_with(&opts) }
}

fn camera() -> Camera {
    Camera {
        scroll: 0,
        scroll_target: 0,
        scroll_vel: 0,
        zoom: WHOLE,
        zoom_target: WHOLE,
        chase: Chase::Wheel,
        strip_pos: 0,
        strip_target: 0,
    }
}

fn stage() -> Stage {
    stage_with(&options(AnimLevel::Still))
}

fn ribbon_stage() -> Stage {
    let mut s = stage_with(&options(AnimLevel::Minimal));
    s.now += 10_000 * MS;
    s
}

impl Stage {
    fn asp(&self) -> Vec<Aspect> {
        (0..self.app.clips.len()).map(|i| self.app.chip_aspect(i, None)).collect()
    }

    fn shape_at(&self, zoom: i128) -> Shape {
        Shape {
            vw: self.vw,
            gap: px(2.0),
            tile_w: px(240.0),
            tile_h: px(135.0),
            zoom,
            rmin: 620_000,
            rmax: 1_600_000,
        }
    }

    fn shape(&self) -> Shape {
        self.shape_at(self.grip.as_ref().map_or(self.zoom, |g| g.z0))
    }

    fn layout(&self) -> Layout {
        let s = self.shape();
        let flexible = self.app.setup.tuning.grid_layout == GridStyle::Flexible;
        layout_with(&s, &self.asp(), flexible, self.app.packing(s.vw, s.zoom))
    }

    fn window(&self) -> Window {
        Window { vw: self.vw, vh: self.vh, gap: px(2.0) }
    }

    fn tile_at(&self, lay: &Layout, x: i128, y: i128) -> Option<usize> {
        let yy = y + self.scroll;
        if yy < 0 {
            None
        } else {
            lay.tile_at(x, yy)
        }
    }

    fn walk(&self, all: bool) -> (Vec<RibbonRow>, usize) {
        let g = self.grip.as_ref().expect("a grip");
        ribbon_walk(&self.asp(), &self.window(), &pane_of(&self.shape_at(self.zoom)), g, all)
    }

    fn event(&mut self, input: Input) {
        self.app.event(input, 0, self.now);
    }

    fn key(&mut self, key: Key) {
        let lay = self.layout();
        self.app.key(key, None, &lay, 0, true, self.now);
    }

    fn point(&mut self, x: f64, y: f64) {
        self.cursor = (px(x), px(y));
        self.event(Input::Cursor {
            at: Pointer { moved: true, dragged: false, share: None, over_video: false, at_edge: false },
        });
    }

    fn press(&mut self, tile: Option<usize>, cmd: bool, shift: bool) {
        self.event(Input::MouseDown {
            click: Click { chapter: None, bar: None, chip: None, video: false, tile, cmd, shift },
        });
    }

    fn drag(&mut self, dx: i64) {
        let dragged = is_drag(dx, 0, 6_000_000);
        self.event(Input::Cursor {
            at: Pointer { moved: true, dragged, share: None, over_video: false, at_edge: false },
        });
    }

    fn release(&mut self) {
        self.event(Input::MouseUp { share: None });
    }

    fn install(&mut self, starts: Vec<usize>, scroll: Option<i128>) {
        self.app.ribbon_install(starts, self.vw, self.zoom);
        if let Some(s) = scroll {
            self.scroll = s;
        }
        let max = self.layout().max_scroll(self.vh);
        self.scroll = self.scroll.clamp(0, max);
    }

    fn pinch(&mut self, delta: f64) {
        self.event(Input::Pinch { delta: (delta * 1e9) as i64 });
        for e in self.app.take_effects() {
            match e {
                Effect::InstallSettled => {
                    let s = self.settling.take().expect("a settle");
                    self.install(s.starts, Some(s.scroll));
                }
                Effect::GripRibbon => {
                    if self.grip.is_none() {
                        let lay = self.layout();
                        self.grip =
                            ribbon_grip(&lay, self.cursor.0, self.cursor.1, self.scroll, self.zoom);
                    }
                    let z = (self.zoom as f64 * (1.0 + delta)) as i128;
                    let z = z.clamp(350_000, 3_000_000);
                    let moved = (z - self.zoom).abs() > 1;
                    if self.grip.is_some() {
                        self.zoom = z;
                    }
                    let blend = self.blend;
                    if let Some(g) = &mut self.grip {
                        g.zoom = z;
                        let k = (z as f64 / g.z0 as f64).ln().abs() * blend;
                        g.blend = (k.clamp(0.0, 1.0) * 1e6) as i128;
                    }
                    let clip = self.grip.as_ref().map(|g| g.clip);
                    self.app.grip(clip, moved, self.now);
                }
                _ => {}
            }
        }
    }

    fn let_go(&mut self) {
        let (from, at) = self.walk(true);
        self.grip = None;
        let pane = pane_of(&self.shape_at(self.zoom));
        match ribbon_release(&self.asp(), &self.window(), &pane, &from, at) {
            Release::Install { starts } => self.install(starts, None),
            Release::Settle { kept, to, starts, scroll } => {
                let from = from
                    .into_iter()
                    .enumerate()
                    .filter(|(k, _)| kept.contains(k))
                    .map(|(_, r)| r)
                    .collect();
                self.settling = Some(Settling { from, to, starts, scroll, t: 0.0 });
                self.app.ribbon_settle();
            }
        }
    }

    /// One frame of the strip: it is let go once the fingers have rested, and it
    /// glides on its way.
    fn step_ribbon(&mut self) {
        self.app.check_grip(self.now);
        if let Some(s) = &mut self.settling {
            s.t += (1.0 - s.t) * 0.25;
        }
        let t = self.settling.as_ref().map_or(0, |s| (s.t * 1e6) as i128);
        self.app.check_settle(t);
        for e in self.app.take_effects() {
            match e {
                Effect::ReleaseRibbon => self.let_go(),
                Effect::InstallSettled => {
                    let s = self.settling.take().expect("a settle");
                    self.install(s.starts, Some(s.scroll));
                }
                _ => {}
            }
        }
    }

    fn settling_rows(&self) -> Option<Vec<RibbonRow>> {
        self.settling
            .as_ref()
            .map(|s| ribbon_rows(&s.from, &s.to, (s.t.clamp(0.0, 1.0) * 1e6) as i128))
    }

    fn rest(&mut self) {
        self.now += 400 * MS;
        for _ in 0..200 {
            self.step_ribbon();
            if self.grip.is_none() && self.settling.is_none() {
                return;
            }
        }
        panic!("the strip never came to rest");
    }

    /// One frame of the grid behind or without a view.
    fn draw(&mut self) {
        let window = Extent { w: self.vw, h: self.vh };
        let _ = self.app.begin_frame(window);
        let cols = self.layout().cols;
        self.app.note_grid(window, cols, true, self.now);
        // Nothing springs here.
        self.app.scene.motion = false;
    }

    fn assert_rows(&self, rows: &[RibbonRow], what: &str) {
        let g = px(2.0);
        let near = 50_000;
        for (r, row) in rows.iter().enumerate() {
            assert!(!row.items.is_empty(), "{what}: row {r} is empty");
            for w in row.items.windows(2) {
                let gone = |it: &RibbonItem| it.x + it.w <= 10_000 || it.x >= self.vw - 10_000;
                if gone(&w[0]) || gone(&w[1]) {
                    continue;
                }
                let join = w[1].x - (w[0].x + w[0].w);
                assert!((join - g).abs() < near, "{what}: row {r} join {join}");
            }
            for it in &row.items {
                let a = self.app.chip_aspect(it.clip, None);
                let want = row.h * a.w as i128 / a.h as i128;
                assert!((it.w - want).abs() < near, "{what}: row {r} clip {} width", it.clip);
            }
            if r > 0 {
                let vgap = row.y - (rows[r - 1].y + rows[r - 1].h);
                assert!(vgap > -near && vgap < g + near, "{what}: rows {r} are {vgap} apart");
            }
        }
        let mut seen: HashMap<usize, usize> = HashMap::new();
        for row in rows {
            for it in &row.items {
                *seen.entry(it.clip).or_insert(0) += 1;
            }
        }
        for (clip, n) in seen {
            assert!(n <= 2, "{what}: clip {clip} drawn {n} times");
        }
    }

    fn assert_at_rest(&self, what: &str) {
        let lay = self.layout();
        let flex = lay.flex.as_ref().expect("flexible rows");
        let g = px(2.0);
        let mut count = vec![0u32; self.app.clips.len()];
        for row in &flex.rows {
            for i in row.start..row.end {
                count[i] += 1;
                let r = lay.tile_rect(i);
                assert!(
                    r.x >= g - 50_000 && r.x + r.w <= self.vw - g + 50_000,
                    "{what}: clip {i} is clipped by a window edge at rest"
                );
            }
            for j in 1..row.x.len() {
                let join = row.x[j] - (row.x[j - 1] + row.w[j - 1]);
                assert!((join - g).abs() < 50_000, "{what}: resting row join {join}");
            }
        }
        assert!(count.iter().all(|&n| n == 1), "{what}: every clip rests in exactly one row");
    }

    fn assert_fixed_point(&self, what: &str) {
        let lay = self.layout();
        let Some(g) = ribbon_grip(&lay, self.cursor.0, self.cursor.1, self.scroll, self.zoom) else {
            return;
        };
        let pane = pane_of(&self.shape_at(self.zoom));
        let (rows, _) = ribbon_walk(&self.asp(), &self.window(), &pane, &g, false);
        for row in &rows {
            for it in &row.items {
                let r = lay.tile_rect(it.clip);
                assert!(
                    (it.x - r.x).abs() < 50_000
                        && (it.w - r.w).abs() < 50_000
                        && (row.y + self.scroll - r.y).abs() < 50_000,
                    "{what}: a fresh grip moved clip {}",
                    it.clip
                );
            }
        }
    }
}

fn begun_drags(fx: &[Effect]) -> Vec<u64> {
    fx.iter()
        .filter_map(|e| match e {
            Effect::BeginDrag { path, .. } => Some(*path),
            _ => None,
        })
        .collect()
}

#[test]
fn clip_meta_memoizes_and_heal_meta_queues_the_src_heal() {
    let mut s = stage();
    let sentinel = Meta {
        src: 7,
        duration: Some(2 * SECOND),
        width: Some(1280),
        height: Some(720),
        rotation: None,
        complete: true,
    };
    let mut memo = Memo::new();
    assert_eq!(memo.recall(7), None);
    memo.note(7, Meta { complete: false, ..sentinel });
    assert_eq!(memo.recall(7), None, "an incomplete probe is read again");
    memo.note(7, sentinel);
    let got = memo.recall(7).expect("memo hit needs no disk");
    assert_eq!(got.width, Some(1280));
    let stale = Meta { src: 99, ..got };
    s.app.heal_meta(Some(stale), 7);
    assert!(s.app.reprobed.contains(&7), "stale src queues the heal");
    s.app.heal_meta(Some(stale), 7);
    assert_eq!(s.app.reprobed.len(), 1);
    s.app.heal_meta(Some(Meta { src: 8, ..got }), 8);
    assert!(!s.app.reprobed.contains(&8));
    s.app.heal_meta(None, 9);
    assert!(!s.app.reprobed.contains(&9));
    let asked: Vec<Effect> = s
        .app
        .take_effects()
        .into_iter()
        .filter(|e| matches!(e, Effect::RequestReprobe { .. }))
        .collect();
    assert_eq!(asked, vec![Effect::RequestReprobe { path: 7 }]);
}

#[test]
fn open_parent_swaps_to_siblings_and_reselects() {
    let mut s = stage_with(&Options {
        animation: Some(AnimLevel::Still),
        inputs: vec!["b.mp4".to_string()],
        demo: false,
        no_config: true,
        ..Options::default()
    });
    let item = |path: u64| Ingested { path, readable: true, cloud: false, created: None, fp: None };
    let mut items = vec![item(2)];
    s.app.drain_ingest(&mut items, true, s.now);
    assert_eq!(s.app.clips.len(), 1, "single-file ingest");
    assert_eq!(s.app.refs.selected, 0);
    s.app.take_effects();
    s.key(Key::Char('D'));
    assert_eq!(s.app.take_effects(), vec![Effect::ReadParent { path: 2 }]);
    let mut items = vec![item(1), item(2), item(3)];
    s.app.drain_ingest(&mut items, true, s.now);
    assert_eq!(s.app.clips.len(), 3, "siblings swap");
    assert!(s.app.refs.pending_reselect.is_none());
    assert_eq!(s.app.clips[s.app.refs.selected].path, 2, "the clip re-finds itself");
}

#[test]
fn tile_drag_out_matures_and_click_still_opens_quickview() {
    let mut s = stage();
    let lay = s.layout();
    let r = lay.tile_rect(0);
    let (cx, cy) = (r.x + r.w / 2, r.y + r.h / 2);
    assert_eq!(s.tile_at(&lay, cx, cy), Some(0), "test point misses tile 0");

    s.press(Some(0), false, false);
    let mut fx = s.app.take_effects();
    assert!(begun_drags(&fx).is_empty(), "the press alone must not start a drag");
    s.drag(16_000_000);
    fx.extend(s.app.take_effects());
    assert_eq!(begun_drags(&fx), vec![s.app.clips[0].path]);
    s.release();
    assert!(!s.app.modes.quickview, "a matured drag must not open quickview");
    fx.extend(s.app.take_effects());
    assert_eq!(begun_drags(&fx).len(), 1, "one gesture, one drag session");

    s.press(Some(0), false, false);
    s.drag(2_000_000);
    assert!(!s.app.modes.quickview, "quickview waits for the release");
    s.release();
    assert!(s.app.modes.quickview, "an un-dragged click on the selection quickviews");
    assert!(begun_drags(&s.app.take_effects()).is_empty(), "sub-threshold wiggle stays a click");
}

#[test]
fn background_jobs_do_not_force_continuous_animation() {
    let mut s = stage();
    s.app.jobs.total = 500;
    s.app.jobs.done = 3;
    s.app.scene.wake_until = s.now;
    s.draw();
    let _ = s.app.show_jobs(s.now);
    assert!(!s.app.is_animating(s.now), "pending background jobs alone kept the loop awake");
    assert!(s.app.jobs.total > s.app.jobs.done, "jobs still pending");
}

#[test]
fn open_ingest_pipe_does_not_force_continuous_animation() {
    let mut s = stage();
    s.app.refs.ingesting = true;
    s.app.scene.wake_until = s.now;
    let mut none: Vec<Ingested> = vec![];
    s.app.drain_ingest(&mut none, false, s.now);
    s.draw();
    assert!(!s.app.is_animating(s.now), "an open, idle ingest pipe kept the loop awake");
    let before = s.app.clips.len();
    let mut items =
        vec![Ingested { path: 9_999, readable: false, cloud: false, created: None, fp: None }];
    s.app.drain_ingest(&mut items, false, s.now);
    assert_eq!(s.app.clips.len(), before + 1, "late arrival ingested");
    s.app.drain_ingest(&mut none, true, s.now);
    assert!(!s.app.refs.ingesting, "disconnect noticed without a hot loop");
}

#[test]
fn ingest_drains_with_a_per_frame_budget() {
    let mut s = stage();
    s.app.refs.ingesting = true;
    let mut items: Vec<Ingested> = (0..1000)
        .map(|i| Ingested { path: 10_000 + i, readable: false, cloud: false, created: None, fp: None })
        .collect();
    let before = s.app.clips.len();
    s.app.drain_ingest(&mut items, false, s.now);
    assert_eq!(s.app.clips.len() - before, INGEST_DRAIN_BUDGET);
    for _ in 0..10 {
        s.app.drain_ingest(&mut items, false, s.now);
    }
    assert_eq!(s.app.clips.len() - before, 1000, "backlog fully lands");
    assert!(
        s.app.clips[before..].iter().enumerate().all(|(i, c)| c.path == 10_000 + i as u64),
        "streamed order preserved across budget boundaries"
    );
}

#[test]
fn quickview_click_video_enters_fullview_background_exits() {
    let mut s = stage();
    s.app.clips[0].thumb = Thumb::Ready { slot: 0, at: s.now, tw: 640, th: 360 };
    s.app.refs.selected = 0;
    s.app.modes.quickview = true;
    s.app.modes.quickview_at = s.now;
    let video = quickview_rect(s.vw, strip_geom(px(92.0), s.vh).y, 640, 360);
    let click = |x: i128, y: i128| Input::MouseDown {
        click: Click {
            chapter: None,
            bar: None,
            chip: None,
            video: video.has(x, y),
            tile: None,
            cmd: false,
            shift: false,
        },
    };
    s.event(click(video.x + video.w / 2, video.y + video.h / 2));
    assert!(s.app.modes.fullview, "clicking the video enters fullview");
    assert!(s.app.modes.quickview, "fullview layers over quickview, not replacing it");
    s.app.modes.fullview = false;
    s.event(click(px(4.0), px(4.0)));
    assert!(!s.app.modes.quickview, "clicking the background closes to the grid");
    assert!(!s.app.modes.fullview, "and does not enter fullview");
}

#[test]
fn filmstrip_scroll_commits_selection() {
    let mut s = stage_of(3);
    let mut cam = camera();
    s.app.modes.quickview = true;
    let step = strip_geom(px(92.0), s.vh).cw + px(10.0);
    let strip = cam.pan_strip(-(step as i64), 0, WHOLE, step, 3);
    s.event(Input::Scroll { strip });
    assert_eq!(s.app.refs.selected, 1, "one chip-step advances the selection");
    let strip = cam.pan_strip(-(step as i64) * 50, 0, WHOLE, step, 3);
    s.event(Input::Scroll { strip });
    assert_eq!(s.app.refs.selected, 2, "the strip clamps at the ends");
    assert!(!s.app.take_effects().contains(&Effect::PanGrid), "the backdrop grid never pans");
    assert_eq!(cam.scroll_target, 0, "the backdrop grid never pans");
}

#[test]
fn filmstrip_scroll_peeks_without_selecting() {
    let mut s = stage_of(3);
    let mut cam = camera();
    s.app.setup.tuning.strip_scroll_selects = false;
    s.app.modes.quickview = true;
    s.now += 1_000 * MS;
    let strip = strip_geom(px(92.0), s.vh);
    let step = strip.cw + px(10.0);
    let to = cam.pan_strip(-(step as i64) * 2, 0, WHOLE, step, 3);
    s.event(Input::Scroll { strip: to });
    assert_eq!(s.app.refs.selected, 0, "peeking never moves the selection");
    assert!(cam.strip_target > 1_500_000, "the strip itself panned to the peeked chips");
    s.now += 140 * MS;
    let home = if s.app.homes_strip(s.now) { Some(s.app.refs.selected) } else { None };
    cam.step_strip(home, WHOLE);
    assert!(cam.strip_target > 1_500_000, "a peeked strip holds until the selection moves");
    let chips = strip_layout(&s.asp(), strip.ch, px(10.0), s.vw, cam.strip_pos as i64);
    let hit = chips.iter().find(|c| c.clip == 2).expect("peeked chip on screen");
    let chip = strip_chip_at(&chips, &strip, hit.cx as i64, (strip.y + strip.ch / 2) as i64);
    s.event(Input::MouseDown {
        click: Click {
            chapter: None,
            bar: None,
            chip,
            video: false,
            tile: None,
            cmd: false,
            shift: false,
        },
    });
    assert_eq!(s.app.refs.selected, 2, "a chip click selects the peeked clip");
    s.now += 140 * MS;
    let home = if s.app.homes_strip(s.now) { Some(s.app.refs.selected) } else { None };
    cam.step_strip(home, WHOLE);
    assert!((cam.strip_target - 2_000_000).abs() < 10_000, "the strip homes onto the new selection");
}

#[test]
fn backdrop_styles_gate_the_grid() {
    let mut s = stage();
    s.draw();
    s.app.setup.tuning.quickview_backdrop = BackdropStyle::Flat;
    s.app.modes.quickview = true;
    s.draw();
    assert!(s.app.scene.frozen.is_none(), "flat quickview: the hidden grid is never frozen");
    s.app.setup.tuning.fullview_backdrop = BackdropStyle::Blur;
    s.app.modes.fullview = true;
    s.draw();
    assert!(s.app.scene.frozen.is_some(), "blurred fullview: the frozen grid backs the frost");
}

#[test]
fn shuffle_remaps_every_index_keyed_reference() {
    let mut s = stage();
    for i in 0..s.app.clips.len() {
        let path = s.app.clips[i].path;
        s.app.index.insert(path, i);
    }
    s.app.refs.selected = 5;
    let sel_path = s.app.clips[5].path;
    s.app.clips[3].thumb = Thumb::Ready { slot: 0, at: s.now, tw: 64, th: 36 };
    s.app.slots[0] = Some(SlotOwner { clip: 3, kind: SlotKind::Static });
    let uncached: Vec<u64> = [7usize, 11, 40]
        .iter()
        .map(|&i| {
            s.app.clips[i].cached = false;
            s.app.clips[i].path
        })
        .collect();
    s.app.marked = [2usize, 9, 20].into_iter().collect();
    let marked_paths: HashSet<u64> = s.app.marked.iter().map(|&i| s.app.clips[i].path).collect();

    s.app.shuffle_library(s.now);

    assert_eq!(s.app.clips[s.app.refs.selected].path, sel_path, "selection follows its clip");
    let n = s.app.clips.len();
    let tail: Vec<u64> = s.app.clips[n - 3..].iter().map(|c| c.path).collect();
    assert_eq!(tail, uncached, "uncached clips end up last, original order preserved");
    for (i, c) in s.app.clips.iter().enumerate() {
        assert_eq!(s.app.index.get(&c.path), Some(&i), "path to index stays consistent");
    }
    let owner = s.app.slots[0].expect("slot survives the shuffle").clip;
    assert!(
        matches!(s.app.clips[owner].thumb, Thumb::Ready { slot: 0, .. }),
        "the slot's owner pointer moved with its clip"
    );
    let marked_now: HashSet<u64> = s.app.marked.iter().map(|&i| s.app.clips[i].path).collect();
    assert_eq!(marked_now, marked_paths, "marks follow their clips");
}

#[test]
fn sorted_ingest_places_arrivals_by_created_date() {
    let opts = Options {
        animation: Some(AnimLevel::Still),
        inputs: vec!["x".to_string()],
        no_config: true,
        sort: Some(SortMode::Newest),
        ..Options::default()
    };
    let mut s = stage_with(&opts);
    assert_eq!(s.app.clips.len(), 0);
    let t0: i128 = 1_700_000_000_000_000_000;
    let (a, b, c, d) = (1u64, 2u64, 3u64, 4u64);
    let item = |path: u64, secs: i128| Ingested {
        path,
        readable: false,
        cloud: false,
        created: Some(t0 + secs * 1_000_000_000),
        fp: None,
    };
    let mut items = vec![item(a, 100)];
    s.app.drain_ingest(&mut items, false, s.now);
    assert_eq!(s.app.clips.len(), 1);
    assert_eq!(s.app.clips[s.app.refs.selected].path, a);
    let mut items = vec![item(b, 300), item(c, 50)];
    s.app.drain_ingest(&mut items, false, s.now);
    let order: Vec<u64> = s.app.clips.iter().map(|c| c.path).collect();
    assert_eq!(order, [b, a, c], "newest first");
    for (i, c) in s.app.clips.iter().enumerate() {
        assert_eq!(s.app.index.get(&c.path), Some(&i), "path to index stays consistent");
    }
    assert_eq!(s.app.clips[s.app.refs.selected].path, a, "the selection follows its clip");
    s.app.clips.iter_mut().for_each(|c| c.cached = true);
    s.app.shuffle_library(s.now);
    let mut items = vec![item(d, 400)];
    s.app.drain_ingest(&mut items, false, s.now);
    assert_eq!(s.app.clips.last().unwrap().path, d, "post-shuffle arrivals append");
}

#[test]
fn auto_skip_advances_and_wraps() {
    let mut s = stage();
    s.now += 120_000 * MS;
    let expired = s.now - 60_000 * MS;
    s.app.setup.tuning.auto_skip = 5_000 * MS;

    s.app.modes.quickview = true;
    s.app.refs.sel_changed_at = expired;
    s.app.tick_auto_skip(s.now);
    assert_eq!(s.app.refs.selected, 0, "auto-skip off: selection holds");
    assert_eq!(s.app.auto_skip_progress(s.now), None, "off: no timer ring");

    s.app.modes.quickview = false;
    s.app.modes.auto_skip_since = Some(expired);
    s.app.refs.sel_changed_at = expired;
    s.app.tick_auto_skip(s.now);
    assert_eq!(s.app.refs.selected, 0, "grid view: countdown suspended");
    assert_eq!(s.app.auto_skip_progress(s.now), None, "grid view: ring hidden");
    assert!(s.app.modes.auto_skip_since.unwrap() > expired, "suspension re-anchors");

    s.app.modes.quickview = true;
    s.app.modes.auto_skip_since = Some(expired);
    s.app.refs.sel_changed_at = expired;
    assert_eq!(
        s.app.auto_skip_progress(s.now),
        Some(1_000_000_000),
        "modal and armed: ring shows a spent countdown"
    );
    s.app.tick_auto_skip(s.now);
    assert_eq!(s.app.refs.selected, 1, "auto-skip on: selection advances");
    s.app.tick_auto_skip(s.now);
    assert_eq!(s.app.refs.selected, 1, "fresh selection: countdown restarts");
    assert!(s.app.auto_skip_progress(s.now).unwrap() < 1_000_000_000, "the ring starts over");

    s.app.modes.quickview = false;
    s.app.modes.fullview = true;
    s.app.refs.selected = s.app.clips.len() - 1;
    s.app.modes.auto_skip_since = Some(expired);
    s.app.refs.sel_changed_at = expired;
    s.app.tick_auto_skip(s.now);
    assert_eq!(s.app.refs.selected, 0, "wraps to the first clip");
}

fn bar(s: &Stage, n: usize, peek_until: Option<u64>) -> ChapterBar {
    ChapterBar {
        path: s.app.clips[s.app.refs.selected].path,
        duration: Some(400 * SECOND),
        times: Some((0..n).map(|k| k as i64 * 50 * SECOND).collect()),
        open: true,
        peek_until,
        nav: None,
    }
}

#[test]
fn chapter_bar_checkpoints_and_lifecycle() {
    assert_eq!(checkpoint_count(30 * SECOND), 0, "under a minute: no bar");
    assert_eq!(checkpoint_count(60 * SECOND), 4, "a minute up: every 25%");
    assert_eq!(checkpoint_count(200 * SECOND), 8, "over three minutes: 8");
    assert_eq!(checkpoint_count(700 * SECOND), 10, "over ten minutes: 10");

    let mut s = stage();
    s.app.modes.fullview = true;
    s.app.chapters = Some(bar(&s, 8, None));
    let strip = strip_geom(px(92.0), s.vh);
    let gap = px(10.0);
    let step = strip.cw + gap;
    let row = ChapterRow {
        cw: strip.cw,
        ch: strip.ch,
        gap,
        base_y: strip.y,
        slide: 1_000_000_000,
        pos: 3_500_000,
    };
    for i in 0..8usize {
        let cx = s.vw / 2 + (i as i128 * 1_000_000 - 3_500_000) * step / 1_000_000;
        let cy = strip.y + strip.ch / 2;
        assert_eq!(chapter_chip_at(&row, 8, s.vw, cx as i64, cy as i64), Some(i), "chip {i} center");
        assert_eq!(
            chapter_chip_at(&row, 8, s.vw, (cx + step / 2) as i64, cy as i64),
            None,
            "gap right of chip {i} is dead space"
        );
    }

    s.key(Key::Escape);
    assert!(s.app.chapters.as_ref().is_some_and(|b| !b.open), "Esc closes the bar first");
    assert!(s.app.modes.fullview, "fullview survives the first Esc");
    s.app.land_bar(true);
    assert!(s.app.chapters.is_none(), "landed slide drops the state");
    s.key(Key::Escape);
    assert!(!s.app.modes.fullview, "second Esc exits fullview");

    s.app.modes.fullview = true;
    s.app.chapters = Some(bar(&s, 8, None));
    s.app.modes.fullview = false;
    s.app.keep_bar();
    assert!(s.app.chapters.is_none(), "bar dies with fullview");

    s.app.modes.fullview = true;
    s.app.chapters = Some(bar(&s, 8, None));
    s.app.refs.selected += 1;
    s.app.keep_bar();
    assert!(s.app.chapters.is_none(), "bar drops when the selection moves off its clip");
}

#[test]
fn chapter_peek_auto_closes_but_g_open_stays() {
    let mut s = stage();
    s.app.modes.fullview = true;
    s.app.chapters = Some(bar(&s, 3, Some(s.now - 1_000 * MS)));
    s.app.check_peek(s.now);
    s.app.land_bar(true);
    assert!(s.app.chapters.is_none(), "an expired peek slides down and drops");
    s.app.chapters = Some(bar(&s, 3, None));
    for _ in 0..6 {
        s.now += 16 * MS;
        s.app.check_peek(s.now);
        s.app.land_bar(true);
        s.app.keep_bar();
    }
    assert!(s.app.chapters.as_ref().is_some_and(|b| b.open), "a deliberate open never auto-closes");
}

#[test]
fn vertical_keys_step_between_quickview_and_fullview() {
    let mut s = stage();
    s.key(Key::Space);
    assert!(s.app.modes.quickview && !s.app.modes.fullview, "space opens quickview");
    s.key(Key::Down);
    assert!(!s.app.modes.quickview && !s.app.modes.fullview, "down returns to the grid");
    s.key(Key::Space);
    s.key(Key::Up);
    assert!(s.app.modes.fullview, "up dives into fullview");
    assert!(s.app.modes.quickview, "quickview stays under fullview");
    let sel = s.app.refs.selected;
    s.key(Key::Up);
    assert!(s.app.modes.fullview && s.app.refs.selected == sel, "up in fullview does nothing");
    s.key(Key::Down);
    assert!(!s.app.modes.fullview, "down leaves fullview");
    assert!(s.app.modes.quickview, "down lands on the filmstrip quickview");
    s.key(Key::Escape);
    assert!(!s.app.modes.quickview && !s.app.modes.fullview, "esc returns to the grid");
    s.key(Key::Tab);
    assert!(s.app.modes.fullview && !s.app.modes.quickview, "tab enters fullview only");
    s.key(Key::Down);
    assert!(!s.app.modes.fullview && s.app.modes.quickview, "down opens the filmstrip quickview");
}

#[test]
fn fullview_up_dismisses_the_chapter_bar() {
    let mut s = stage();
    s.key(Key::Tab);
    assert!(s.app.modes.fullview, "tab enters fullview");
    s.app.chapters = Some(bar(&s, 3, None));
    s.key(Key::Up);
    assert!(s.app.chapters.as_ref().map(|b| !b.open).unwrap_or(true), "up sends the bar down");
    assert!(s.app.modes.fullview, "fullview stays");
}

#[test]
fn modal_pinch_steps_the_view_ladder() {
    let mut s = stage();
    let big = MODAL_PINCH_STEP + 10_000_000;
    s.key(Key::Space);
    assert!(s.app.modes.quickview && !s.app.modes.fullview, "space opens quickview");
    s.event(Input::Pinch { delta: big });
    assert!(s.app.modes.fullview, "pinch-in from quickview dives into fullview");
    s.event(Input::Pinch { delta: -big });
    assert!(!s.app.modes.fullview && s.app.modes.quickview, "pinch-out backs out to the strip");
    s.event(Input::Pinch { delta: -big });
    assert!(!s.app.modes.quickview && !s.app.modes.fullview, "pinch-out returns to the grid");
    s.key(Key::Space);
    s.event(Input::Pinch { delta: MODAL_PINCH_STEP * 3 / 10 });
    assert!(s.app.modes.quickview && !s.app.modes.fullview, "a sub-threshold pinch is inert");
}

#[test]
fn no_config_runs_on_internal_defaults() {
    let opts = Options { demo: true, no_config: true, ..Options::default() };
    assert!(!opts.reads_config(), "no config file is watched");
    let s = stage_with(&opts);
    assert_eq!(s.app.setup.tuning, Tuning::default(), "internal defaults apply");
}

#[test]
fn a_configuration_that_is_left_out_does_not_count() {
    let theirs = || {
        let mut keys = KeyMap::default();
        keys.keys.clear();
        (Tuning { recurse: !Tuning::default().recurse, ..Tuning::default() }, keys)
    };
    let opts = Options { demo: true, no_config: true, ..Options::default() };
    let app = Switchblade::with_options(&opts, Some(theirs()), false, 3, START);
    assert_eq!(app.setup.tuning, Tuning::default());
    assert_eq!(app.keymap.keys.len(), KeyMap::default().keys.len());
    let opts = Options { demo: true, ..Options::default() };
    let app = Switchblade::with_options(&opts, Some(theirs()), false, 3, START);
    assert_eq!(app.setup.tuning, theirs().0);
    assert!(app.keymap.keys.is_empty());
}

#[test]
fn the_bar_of_work_shows_what_was_done_of_what_was_asked() {
    let mut s = stage();
    s.app.jobs.total = 4;
    s.app.jobs.done = 1;
    let shown = s.app.show_jobs(s.now).expect("work is left");
    assert_eq!((shown.progress, shown.fade), (250_000_000, 1_000_000_000));
    s.app.jobs.done = 6;
    let shown = s.app.show_jobs(s.now).expect("the bar fades");
    assert_eq!((shown.progress, shown.fade), (1_500_000_000, 1_000_000_000));
}

#[test]
fn the_scrolling_coasts_once_no_scroll_comes() {
    let s = stage();
    let last = s.app.scene.last_scroll_event;
    assert!(!s.app.coasts(true, last + 40 * MS));
    assert!(s.app.coasts(true, last + 40 * MS + 1));
    assert!(!s.app.coasts(false, last + 1_000 * MS));
}

#[test]
fn the_zoom_is_taken_at_once_where_tiles_slide() {
    let mut s = ribbon_stage();
    assert!(s.app.zooms_at_once());
    s.app.setup.tuning.zoom_wrap = false;
    assert!(!s.app.zooms_at_once());
    s.app.setup.tuning.zoom_wrap = true;
    s.app.setup.tuning.grid_layout = GridStyle::Fixed;
    assert!(!s.app.zooms_at_once());
    assert!(!stage().app.zooms_at_once(), "nothing moves");
}

#[test]
fn a_packing_holds_for_its_window_and_zoom() {
    let mut s = stage();
    assert!(s.app.packing(s.vw, WHOLE).is_none());
    s.app.ribbon_install(vec![0, 5], s.vw, WHOLE);
    assert_eq!(s.app.packing(s.vw, WHOLE), Some(&vec![0, 5]));
    assert!(s.app.packing(s.vw + 1, WHOLE).is_none());
    assert!(s.app.packing(s.vw, WHOLE + 1).is_none());
}

#[test]
fn justified_rows_span_a_window_without_gaps() {
    let s = stage();
    let shape = Shape { gap: 0, ..s.shape_at(WHOLE) };
    let lay = layout_with(&shape, &s.asp(), true, None);
    let pane = pane_of(&shape);
    let flex = lay.flex.as_ref().expect("flexible rows");
    let mut spanning = 0;
    for row in &flex.rows {
        let lo = pane.nominal * pane.rmin / WHOLE;
        let hi = pane.nominal * pane.rmax / WHOLE;
        if lo < row.h && row.h < hi && row.end < lay.len {
            let short = s.vw - (row.x[row.x.len() - 1] + row.w[row.w.len() - 1]);
            assert!(0 <= short && 2 * short < px(1.0));
            spanning += 1;
        }
    }
    assert!(spanning > 20);
}

#[test]
fn every_tile_is_hit_at_its_middle() {
    let s = stage();
    for gap in [0, px(2.0)] {
        for flexible in [false, true] {
            let lay = layout_with(&Shape { gap, ..s.shape_at(WHOLE) }, &s.asp(), flexible, None);
            for i in 0..lay.len {
                let (x, y) = lay.tile_middle(i, px(7.0));
                assert_eq!(lay.tile_at(x, y + px(7.0)), Some(i));
            }
        }
    }
}

#[test]
fn a_clip_is_drawn_in_at_most_two_rows_of_the_strip() {
    let mut s = ribbon_stage();
    s.point(700.0, 420.0);
    let mut shared = 0;
    for step in 0..40 {
        s.pinch(if step < 20 { -0.03 } else { 0.02 });
        if s.grip.is_none() {
            continue;
        }
        let (rows, _) = s.walk(true);
        let mut of: HashMap<usize, Vec<usize>> = HashMap::new();
        for (r, row) in rows.iter().enumerate() {
            for it in &row.items {
                assert!(it.w <= s.vw - px(4.0), "no tile is wider than the window");
                of.entry(it.clip).or_default().push(r);
            }
        }
        for (clip, rs) in &of {
            assert!(rs.len() <= 2, "clip {clip} in rows {rs:?}");
            if rs.len() == 2 {
                assert_eq!(rs[0] + 1, rs[1]);
                shared += 1;
            }
        }
    }
    assert!(shared > 0, "rows share the tiles that cross their edges");
}

#[test]
fn a_grip_holds_over_the_whole_range_of_zooms() {
    let s = ribbon_stage();
    let lay = layout_with(&s.shape_at(1), &s.asp(), true, None);
    let mut g = ribbon_grip(&lay, px(300.0), px(50.0), 0, 1).expect("a grip");
    assert_eq!((g.z0, g.zoom), (10_000, 10_000), "no zoom is taken for less than a hundredth");
    let rest = g.rest_h[g.grip_row];
    g.zoom = 100 * WHOLE;
    let pane = pane_of(&s.shape_at(g.zoom));
    let (rows, at) = ribbon_walk(&s.asp(), &s.window(), &pane, &g, false);
    assert_eq!(rows[at].h, 10_000 * rest);
    assert!(rows[at].items.iter().any(|i| i.clip == g.clip));
}

#[test]
fn modal_backdrop_freezes_the_grid() {
    let mut s = stage();
    let window = Extent { w: s.vw, h: s.vh };
    let scales = Scales { selected: 1_300_000, hovered: 1_000_000 };
    s.app.spring_tiles(false, scales, WHOLE);
    assert!(s.app.begin_frame(window), "the open grid is drawn");
    s.draw();
    assert!(s.app.clips[0].scale > 1_050_000, "selected tile scaled up in the open grid");
    s.app.modes.quickview = true;
    s.app.spring_tiles(false, scales, WHOLE);
    assert!(s.app.begin_frame(window), "the first frame behind the view draws the grid");
    s.draw();
    assert!(s.app.scene.frozen.is_some(), "backdrop snapshot captured");
    s.app.refs.selected = 1;
    for _ in 0..3 {
        s.app.spring_tiles(false, scales, WHOLE);
        assert!(!s.app.begin_frame(window), "the hidden grid is not drawn anew");
        s.draw();
    }
    assert!(s.app.clips[1].scale < 1_010_000, "hidden tile never animated behind the modal");
    assert!(s.app.clips[0].scale > 1_050_000, "old selection never shrank behind the modal");
    s.app.modes.quickview = false;
    s.app.spring_tiles(false, scales, WHOLE);
    assert!(s.app.begin_frame(window), "the grid is drawn again");
    s.draw();
    assert!(s.app.scene.frozen.is_none(), "snapshot dropped on exit");
    assert!(
        s.app.clips[1].scale > 1_050_000 && s.app.clips[0].scale < 1_010_000,
        "springs resumed once the grid is visible again"
    );
}

#[test]
fn fullview_suppresses_hidden_grid_hover() {
    let mut s = stage();
    let lay = s.layout();
    let tile = s.tile_at(&lay, px(12.0), px(12.0));
    s.app.hover(tile, None, s.now);
    assert_eq!(s.app.refs.hovered, Some(0), "grid hover works normally");
    s.app.modes.fullview = true;
    s.app.hover(tile, None, s.now);
    assert_eq!(s.app.refs.hovered, None, "fullview: no hidden-tile hover");
    s.app.modes.fullview = false;
    s.app.hover(tile, None, s.now);
    assert_eq!(s.app.refs.hovered, Some(0), "hover returns with the grid");
}

#[test]
fn fullview_prewarm_waits_for_the_playing_stream() {
    let opts = Options {
        animation: Some(AnimLevel::Normal),
        inputs: vec!["a.mp4".to_string()],
        no_config: true,
        ..Options::default()
    };
    let mut s = stage_with(&opts);
    let mut items = vec![Ingested { path: 1, readable: true, cloud: false, created: None, fp: None }];
    s.app.drain_ingest(&mut items, true, s.now);
    s.app.refs.sel_changed_at = s.now;
    s.app.modes.fullview = true;
    for _ in 0..3 {
        let _ = s.app.prewarm_chapters(s.now);
    }
    assert!(s.app.chapter_probe.is_empty(), "prewarm must wait for the first frame");
    s.now += 4_000 * MS;
    let _ = s.app.prewarm_chapters(s.now);
    assert!(s.app.chapter_probe.contains_key(&1), "grace expiry lets the probe through");
}

#[test]
fn strip_chips_keep_true_aspect_at_fixed_height() {
    let mut s = stage();
    let strip = strip_geom(px(92.0), s.vh);
    let (ch, sy, gap) = (strip.ch, strip.y, px(10.0));
    for c in s.app.clips.iter_mut() {
        c.aspect = None;
    }
    s.app.clips[5].thumb = Thumb::Ready { slot: 0, at: s.now, tw: 360, th: 640 };
    let layout = strip_layout(&s.asp(), ch, gap, s.vw, 5_000_000);
    let find = |i: usize| {
        let c = layout.iter().find(|c| c.clip == i).expect("chip in layout");
        (c.cx, c.w)
    };
    let (cx5, w5) = find(5);
    let (cx6, w6) = find(6);
    let (cx4, w4) = find(4);
    let near = 500_000;
    assert!((w5 - ch * 9 / 16).abs() < near, "portrait chip is 9:16 at the fixed height");
    assert!((w6 - ch * 16 / 9).abs() < near, "thumbless neighbor stays 16:9");
    assert!((cx6 - cx5 - ((w5 + w6) / 2 + gap)).abs() < near, "neighbors space by half-widths");
    assert!((cx5 - cx4 - ((w4 + w5) / 2 + gap)).abs() < near, "left neighbor the same way");
    let cy = (sy + ch / 2) as i64;
    assert_eq!(strip_chip_at(&layout, &strip, cx5 as i64, cy), Some(5));
    assert_eq!(strip_chip_at(&layout, &strip, cx6 as i64, cy), Some(6));
    assert_eq!(
        strip_chip_at(&layout, &strip, (cx5 + w5 / 2 + gap / 2) as i64, cy),
        None,
        "the gap between chips stays dead space"
    );
    assert_eq!(s.app.chip_aspect(5, None), Aspect { w: 360, h: 640 });
    assert_eq!(s.app.chip_aspect(6, None), Aspect { w: 16, h: 9 });
    s.app.refs.selected = 5;
    assert!(
        (s.app.chapter_width(None, ch) - ch * 9 / 16).abs() < near,
        "chapter chips share the portrait clip's shape"
    );
    s.app.refs.selected = 6;
    assert!((s.app.chapter_width(None, ch) - ch * 16 / 9).abs() < near, "and a 16:9 clip's shape");
}

fn same_shape(a: Aspect, w: u32, h: u32) -> bool {
    a.w as u64 * h as u64 == a.h as u64 * w as u64
}

#[test]
fn chapter_chip_aspect_falls_back_to_meta() {
    let mut s = stage();
    s.app.clips[0].thumb = Thumb::Absent;
    s.app.clips[0].aspect = None;
    let probed = meta_aspect_of(Some(1080), Some(1920), None);
    s.app.refs.selected = 0;
    assert!(same_shape(s.app.chip_aspect(0, probed), 9, 16), "meta gives the portrait shape");
    let turned = meta_aspect_of(Some(1920), Some(1080), Some(90_000));
    assert!(same_shape(turned.unwrap(), 9, 16), "a quarter turn swaps to portrait");
    let neg = meta_aspect_of(Some(1920), Some(1080), Some(-90_000));
    assert!(same_shape(neg.unwrap(), 9, 16), "signed rotation also swaps");
    let half = meta_aspect_of(Some(1920), Some(1080), Some(180_000));
    assert!(same_shape(half.unwrap(), 16, 9), "a half turn keeps the landscape shape");
    s.app.modes.fullview = true;
    s.app.resolve_selected_aspect(probed);
    assert!(same_shape(s.app.clips[0].aspect.unwrap(), 1080, 1920), "fullview pins the aspect");
    assert!(same_shape(s.app.chip_aspect(0, None), 9, 16), "pinned aspect outlives the memo");
}

fn right_of(flex: &FlexGrid, k: usize) -> i128 {
    let row = &flex.rows[k];
    row.x[row.x.len() - 1] + row.w[row.w.len() - 1]
}

#[test]
fn flexible_rows_justify_true_aspect_tiles() {
    let mut s = stage();
    assert_eq!(s.app.setup.tuning.grid_layout, GridStyle::Flexible, "flexible is the default");
    let lay = s.layout();
    let flex = lay.flex.as_ref().expect("flexible mode builds rows");
    assert!(flex.rows.len() > 1, "the demo library spans several rows");
    let g = px(2.0);
    let nominal = px(135.0);
    let (hmin, hmax) = (nominal * 62 / 100, nominal * 160 / 100);
    let half = 500_000;
    for (k, row) in flex.rows.iter().enumerate() {
        for i in row.start..row.end {
            let r = lay.tile_rect(i);
            assert!((r.y - row.y).abs() < 10_000 && (r.h - row.h).abs() < 10_000);
            let a = s.app.chip_aspect(i, None);
            assert!((r.w - row.h * a.w as i128 / a.h as i128).abs() < half, "tile {i} aspect");
        }
        let right = right_of(flex, k);
        assert!(right <= s.vw - g + half, "row {k} never overflows the width");
        if k + 1 == flex.rows.len() {
            assert!(row.h <= nominal + half, "the last row never grows");
            continue;
        }
        assert!(row.h >= hmin - half && row.h <= hmax + half, "row {k} within the caps");
        let capped = row.h <= hmin + half || row.h >= hmax - half;
        if !capped {
            assert!((right - (s.vw - g)).abs() < half, "row {k} spans the viewport");
        }
    }
    let (r0, r1) = (lay.tile_rect(0), lay.tile_rect(1));
    assert!((r0.y - r1.y).abs() < 10_000 && (r0.h - r1.h).abs() < 10_000);
    assert!(r1.w * 2 < r0.w, "the portrait tile is narrower");
    for i in [0usize, 1, 7, 20, 33] {
        let r = lay.tile_rect(i);
        assert_eq!(s.tile_at(&lay, r.x + r.w / 2, r.y + r.h / 2 - s.scroll), Some(i));
    }
    s.app.clips[0].aspect = Some(Aspect { w: 1, h: 1 });
    let r = s.layout().tile_rect(0);
    assert!((r.w - r.h).abs() < half, "the square clip's tile follows its new aspect");
    s.app.setup.tuning.grid_layout = GridStyle::Fixed;
    let lay3 = s.layout();
    assert!(lay3.flex.is_none(), "fixed mode has no flex rows");
    let r = lay3.tile_rect(1);
    assert!(r.w == lay3.tile_w && r.h == lay3.tile_h, "fixed tiles are uniform");
}

#[test]
fn flexible_vertical_moves_land_on_the_nearest_tile() {
    let mut s = stage();
    let lay = s.layout();
    s.app.refs.selected = 2;
    let r = lay.tile_rect(2);
    let cx = r.x + r.w / 2;
    s.app.move_selection(0, 1, &lay, s.now);
    assert_eq!(lay.row_of(s.app.refs.selected), 1, "moved one row down");
    assert_eq!(Some(s.app.refs.selected), lay.nearest_in_row(1, cx), "landed on the nearest");
    let r = lay.tile_rect(s.app.refs.selected);
    let cx = r.x + r.w / 2;
    s.app.move_selection(0, -1, &lay, s.now);
    assert_eq!(lay.row_of(s.app.refs.selected), 0, "moved back to row 0");
    assert_eq!(Some(s.app.refs.selected), lay.nearest_in_row(0, cx));
}

#[test]
fn ribbon_pinch_holds_the_gripped_chip_under_the_cursor() {
    let mut s = ribbon_stage();
    assert!(s.app.ribbon_on(), "flexible and minimal animation pinches the ribbon");
    s.point(640.0, 360.0);
    let lay = s.layout();
    let gripped = s.tile_at(&lay, px(640.0), px(360.0)).expect("a chip at the cursor");
    for k in 0..40 {
        s.pinch(0.02);
        let held = s.app.scene.ribbon.expect("the gesture holds its grip");
        assert_eq!(held.clip, gripped, "the grip stays on the chip it took");
        let (rows, _) = s.walk(false);
        s.assert_rows(&rows, &format!("pinch step {k}"));
        let g = s.grip.as_ref().unwrap();
        let (hx, hy) = rows
            .iter()
            .find_map(|r| {
                r.items
                    .iter()
                    .find(|it| it.clip == gripped)
                    .map(|it| (it.x + g.fx * it.w / g.fx_of, r.y + g.fy * r.h / g.fy_of))
            })
            .expect("the gripped chip is drawn");
        assert!((hx - g.cx).abs() < 50_000 && (hy - g.cy).abs() < 50_000, "step {k}: drifted");
    }
    assert!(s.zoom > 1_500_000, "the pinch actually zoomed: {}", s.zoom);
}

#[test]
fn ribbon_release_settles_on_a_safe_layout() {
    let mut s = ribbon_stage();
    s.point(500.0, 300.0);
    for _ in 0..30 {
        s.pinch(0.02);
    }
    s.now += 400 * MS;
    s.step_ribbon();
    assert!(s.app.scene.ribbon.is_none(), "the quiet gesture ended");
    assert!(s.app.scene.settling, "a release morph runs");
    let lay = s.layout();
    let first = lay.row_at_y(s.scroll);
    let last = lay.row_at_y(s.scroll + s.vh);
    let (first, last) = visible_rows(first, last, 0, lay.rows());
    {
        let m = s.settling.as_ref().expect("a release morph runs");
        assert_eq!(m.from.len(), m.to.len(), "the morph maps rows one to one");
        assert!(m.from.len() <= last - first + 1 + 2, "the morph only carries rows on screen");
    }
    for step in 0..60 {
        let rows = s.settling_rows().expect("morph rows");
        s.assert_rows(&rows, &format!("settle step {step}"));
        s.step_ribbon();
        if s.settling.is_none() {
            break;
        }
    }
    assert!(s.settling.is_none() && !s.app.scene.settling, "the morph landed");
    let pack = s.app.pack.as_ref().expect("its packing was installed");
    assert_eq!(pack.starts.first(), Some(&0), "the packing covers clip 0");
    assert!(pack.starts.windows(2).all(|w| w[0] < w[1]), "rows partition the library in order");
    s.assert_at_rest("after the morph");
}

#[test]
fn ribbon_settled_layout_is_a_fixed_point() {
    let mut s = ribbon_stage();
    s.point(700.0, 420.0);
    for _ in 0..25 {
        s.pinch(-0.02);
    }
    s.rest();
    assert!(s.app.pack.is_some(), "a packing settled");
    for (cx, cy) in [(300.0, 200.0), (900.0, 500.0), (1270.0, 90.0)] {
        s.point(cx, cy);
        s.assert_fixed_point(&format!("grip at ({cx}, {cy})"));
    }
}

#[test]
fn taking_hold_leaves_every_tile_in_place() {
    let mut s = ribbon_stage();
    s.point(700.0, 420.0);
    for _ in 0..25 {
        s.pinch(-0.02);
    }
    s.rest();
    s.scroll = px(300.0).min(s.layout().max_scroll(s.vh));
    s.point(640.0, 400.0);
    let lay = s.layout();
    let flex = lay.flex.as_ref().expect("flexible rows");
    let right = s.vw - px(2.0);
    for k in 0..flex.rows.len() - 1 {
        let short = right - right_of(flex, k);
        assert!(0 <= short && 2 * short < px(1.0), "row {k} spans the window");
    }
    let g = ribbon_grip(&lay, s.cursor.0, s.cursor.1, s.scroll, s.zoom).expect("a grip");
    let pane = pane_of(&s.shape_at(s.zoom));
    let (rows, at) = ribbon_walk(&s.asp(), &s.window(), &pane, &g, false);
    assert!(at > 0 && at + 1 < rows.len(), "the window shows rows on both sides");
    for (k, row) in rows.iter().enumerate() {
        for it in &row.items {
            let t = lay.tile_rect(it.clip);
            let lean = if k < at { right - right_of(flex, lay.row_of(it.clip)) } else { 0 };
            assert_eq!((it.x, it.w), (t.x + lean, t.w));
            assert_eq!((row.y, row.h), (t.y - s.scroll, t.h));
        }
    }
    // Nothing that the window shows is missing.
    let shown: HashSet<usize> = rows.iter().flat_map(|r| r.items.iter().map(|i| i.clip)).collect();
    for i in 0..lay.len {
        let t = lay.tile_rect(i);
        let seen = t.y - s.scroll < s.vh && t.y + t.h - s.scroll > 0;
        assert_eq!(shown.contains(&i), seen, "clip {i}");
    }
}

#[test]
fn ribbon_survives_a_long_run_of_pinches() {
    let mut s = ribbon_stage();
    let mut seed: u32 = 0x9e37_79b9;
    let mut rnd = || {
        seed ^= seed << 13;
        seed ^= seed >> 17;
        seed ^= seed << 5;
        seed as f64 / u32::MAX as f64
    };
    for g in 0..24 {
        s.point(20.0 + rnd() * 1240.0, 20.0 + rnd() * 760.0);
        let dir = if rnd() < 0.5 { 0.02 } else { -0.02 };
        let steps = 3 + (rnd() * 20.0) as usize;
        for k in 0..steps {
            s.pinch(dir);
            if s.grip.is_some() {
                let (rows, _) = s.walk(false);
                s.assert_rows(&rows, &format!("run {g} pinch {k}"));
            }
        }
        s.now += 400 * MS;
        for _ in 0..120 {
            s.step_ribbon();
            match s.settling_rows() {
                Some(rows) => s.assert_rows(&rows, &format!("run {g} settle")),
                None => break,
            }
        }
        assert!(s.app.scene.ribbon.is_none() && !s.app.scene.settling);
        s.assert_at_rest(&format!("run {g}"));
        s.point(20.0 + rnd() * 1240.0, 20.0 + rnd() * 760.0);
        s.assert_fixed_point(&format!("run {g}"));
    }
}

#[test]
fn ribbon_handoff_does_not_move_the_grid() {
    let mut s = ribbon_stage();
    s.point(640.0, 360.0);
    for _ in 0..30 {
        s.pinch(0.02);
    }
    s.now += 400 * MS;
    s.step_ribbon();
    let mut last: HashMap<usize, (i128, i128)> = HashMap::new();
    for _ in 0..200 {
        let Some(rows) = s.settling_rows() else { break };
        last.clear();
        let mut vis: HashMap<usize, i128> = HashMap::new();
        for row in &rows {
            for it in &row.items {
                let seen = (it.x + it.w).min(s.vw) - it.x.max(0);
                if seen > 2_000_000 && seen > *vis.get(&it.clip).unwrap_or(&0) {
                    vis.insert(it.clip, seen);
                    last.insert(it.clip, (it.x, row.y));
                }
            }
        }
        s.step_ribbon();
    }
    assert!(!last.is_empty(), "the morph drew something");
    assert!(s.app.pack.is_some(), "and installed its packing");
    let lay = s.layout();
    for (&clip, &(x, y)) in &last {
        let r = lay.tile_rect(clip);
        assert!(
            (r.x - x).abs() < 1_500_000 && (r.y - s.scroll - y).abs() < 1_500_000,
            "handoff moved clip {clip}"
        );
    }
}

#[test]
fn ribbon_packing_survives_a_thumb_arrival() {
    let mut s = ribbon_stage();
    s.point(900.0, 300.0);
    for _ in 0..30 {
        s.pinch(0.02);
    }
    s.rest();
    let starts = s.app.pack.as_ref().expect("a packing settled").starts.clone();
    let indent_before = s.layout().flex.as_ref().expect("flexible rows").rows[0].x[0];
    for i in [3usize, 9, 17, 40] {
        s.app.clips[i].aspect = Some(clamp_aspect(235, 100));
    }
    assert!(s.app.pack.is_some(), "the packing survives an arrival");
    let lay = s.layout();
    let flex = lay.flex.as_ref().expect("flexible rows");
    assert_eq!(flex.rows[0].start, starts[0], "row 0 keeps its membership");
    s.assert_at_rest("after the arrival");
    let indent_after = flex.rows[0].x[0];
    assert!((indent_after - indent_before).abs() < 1_000_000, "row 0 slid on an arrival");
}

#[test]
fn ribbon_release_stays_linear_on_a_big_library() {
    let mut s = ribbon_stage();
    let shapes = [(16, 9), (9, 16), (1, 1), (235, 100), (4, 3)];
    for i in s.app.clips.len()..12_000 {
        let (w, h) = shapes[i % 5];
        let mut c = s.app.clips[0];
        c.path = i as u64;
        c.aspect = Some(clamp_aspect(w, h));
        s.app.clips.push(c);
    }
    s.scroll = px(40_000.0);
    s.point(640.0, 400.0);
    let began = std::time::Instant::now();
    for _ in 0..20 {
        s.pinch(0.02);
        let _ = s.walk(false);
    }
    let per_frame = began.elapsed().as_secs_f64() / 20.0;
    s.now += 400 * MS;
    let t0 = std::time::Instant::now();
    s.step_ribbon();
    let release = t0.elapsed();
    s.rest();
    let lay = s.layout();
    let flex = lay.flex.as_ref().expect("flexible rows");
    let gap = px(2.0);
    let mut covered = 0usize;
    for (k, row) in flex.rows.iter().enumerate() {
        assert!(row.end > row.start, "empty row");
        assert_eq!(row.start, covered, "rows must partition the library in order");
        covered = row.end;
        assert!(right_of(flex, k) <= s.vw - gap + 500_000 && row.x[0] >= gap - 500_000);
    }
    assert_eq!(covered, s.app.clips.len(), "the packing covers every clip once");
    assert!(s.app.pack.is_some(), "and installed a packing for 12k clips");
    assert!(s.settling.is_none() && !s.app.scene.settling, "the settle finished");
    assert!(release.as_millis() < 400, "the release took {release:?} on 12k clips");
    assert!(per_frame < 0.05, "gesture frames averaged {per_frame}s on 12k clips");
}

#[test]
fn ribbon_gesture_always_ends() {
    let mut s = ribbon_stage();
    s.point(640.0, 360.0);
    for _ in 0..15 {
        s.pinch(0.02);
    }
    assert!(s.app.scene.ribbon.is_some(), "the pinch took a grip");
    s.now += 220 * MS;
    for _ in 0..200 {
        s.step_ribbon();
    }
    assert!(s.settling_rows().is_none() && s.grip.is_none(), "the grid is back to its layout");
    let scales = Scales { selected: 1_100_000, hovered: 1_040_000 };
    let mut settled = false;
    for _ in 0..140 {
        s.step_ribbon();
        s.app.spring_tiles(false, scales, 250_000);
        reflow_frame(&mut s, 16 * MS, false);
        if !s.app.is_animating(s.now) {
            settled = true;
            break;
        }
    }
    assert!(settled, "the loop went back to idle after the gesture");

    let mut s = ribbon_stage();
    s.point(640.0, 360.0);
    s.pinch(0.05);
    let held = s.app.scene.ribbon.expect("a grip").last;
    s.now += 20 * MS;
    s.pinch(0.0);
    assert_eq!(s.app.scene.ribbon.map(|h| h.last), Some(held), "a still pinch does not refresh");

    let mut s = ribbon_stage();
    s.point(640.0, 360.0);
    for _ in 0..10 {
        s.pinch(0.02);
    }
    assert!(s.app.scene.ribbon.is_some(), "pinching");
    s.event(Input::Focus { focused: false });
    assert!(s.app.scene.ribbon.is_none(), "defocus ended the gesture");
    assert!(s.app.take_effects().contains(&Effect::ReleaseRibbon));
    s.let_go();
    for _ in 0..200 {
        s.step_ribbon();
    }
    assert!(s.settling_rows().is_none(), "and it settled");
}

#[test]
fn a_pinch_squeezes_the_media_upload_budget() {
    let mut s = ribbon_stage();
    assert_eq!(s.app.media_upload_budget(false), MEDIA_UPLOAD_BUDGET);
    assert_eq!(s.app.media_upload_budget(true), MEDIA_UPLOAD_BUDGET_LIVE);
    s.point(640.0, 360.0);
    s.pinch(0.02);
    assert!(s.app.scene.ribbon.is_some(), "pinching");
    assert_eq!(s.app.media_upload_budget(false), MEDIA_UPLOAD_BUDGET_GESTURE);
    s.now += 400 * MS;
    s.step_ribbon();
    assert!(s.app.scene.settling, "settling");
    assert_eq!(s.app.media_upload_budget(false), MEDIA_UPLOAD_BUDGET_GESTURE);
    s.rest();
    assert_eq!(s.app.media_upload_budget(false), MEDIA_UPLOAD_BUDGET);
}

#[test]
fn keyboard_zoom_returns_to_the_justified_grid() {
    let mut s = ribbon_stage();
    s.point(640.0, 360.0);
    for _ in 0..20 {
        s.pinch(0.02);
    }
    s.rest();
    assert!(s.app.pack.is_some(), "pinching left a packing");
    s.app.keymap.keys.push(switchblade::commands::KeyBinding {
        key: "z".to_string(),
        value: "zoom_in".to_string(),
    });
    s.key(Key::Char('z'));
    assert!(s.app.take_effects().contains(&Effect::Zoom { step: ZoomStep::In }));
    s.zoom = 1_400_000;
    assert!(s.app.pack.is_none(), "a keyboard zoom drops it");
    let lay = s.layout();
    let flex = lay.flex.as_ref().expect("flexible rows");
    for row in flex.rows.iter().take(flex.rows.len() - 1) {
        assert!((row.x[0] - px(2.0)).abs() < 50_000, "the justified packing left-aligns");
    }
}

fn reflow_frame(s: &mut Stage, dt: u64, zoomed: bool) {
    let lay = s.layout();
    let first = lay.row_at_y(s.scroll);
    let last = lay.row_at_y(s.scroll + s.vh);
    let (first, last) = visible_rows(first, last, 0, lay.rows());
    s.app.step_reflow(&lay, first, last, 400_000, dt, zoomed);
    s.now += dt;
}

fn tiles_drawn(s: &Stage) -> usize {
    let lay = s.layout();
    let first = lay.row_at_y(s.scroll);
    let last = lay.row_at_y(s.scroll + s.vh);
    let (first, last) = visible_rows(first, last, 0, lay.rows());
    let c = Crossing { vw: s.vw, gap: px(2.0), stagger: 0, time: s.app.setup.tuning.zoom_wrap_time };
    let placed = s.app.place_grid(&lay, first, last, c);
    let tiles = s.app.plan_tiles(&placed, false, s.now);
    tiles.len() + tiles.iter().filter(|t| t.copy.is_some()).count()
}

fn near_rect(a: Rect, b: Rect) -> bool {
    let near = 600_000;
    (a.x - b.x).abs() < near
        && (a.y - b.y).abs() < near
        && (a.w - b.w).abs() < near
        && (a.h - b.h).abs() < near
}

#[test]
fn flexible_zoom_wraps_tiles_across_row_boundaries() {
    let mut s = ribbon_stage();
    reflow_frame(&mut s, 16 * MS, false);
    assert!(s.app.reflow_active(), "wrap path is on for flexible and minimal animation");
    assert!(s.app.reflow.iter().any(|r| r.init), "the first frame seeded the table");
    let lay = s.layout();
    let rows0: Vec<usize> = (0..s.app.clips.len()).map(|i| lay.row_of(i)).collect();

    s.zoom = 1_700_000;
    reflow_frame(&mut s, 16 * MS, true);
    let wrapped: Vec<TileReflow> =
        s.app.reflow.iter().copied().filter(|r| r.wrap.is_some()).collect();
    assert!(!wrapped.is_empty(), "a zoom-in reflow wraps boundary-crossing tiles");
    for r in &wrapped {
        let w = r.wrap.unwrap();
        assert!(w.forward, "wraps forward on zoom-in");
        assert_ne!(w.from.x, r.rect.x, "left a slot different from where it lands");
    }
    let window = Extent { w: s.vw, h: s.vh };
    let cols = s.layout().cols;
    s.app.note_grid(window, cols, true, s.now);
    s.app.note_grid(window, cols + 1, true, s.now);
    assert!(s.app.scene.transition.is_none(), "the flexible grid wraps instead of crossfading");
    let during = tiles_drawn(&s);
    for _ in 0..60 {
        reflow_frame(&mut s, 16 * MS, false);
    }
    assert!(s.app.reflow.iter().all(|r| r.wrap.is_none()), "every wrap clears");
    assert!(during > tiles_drawn(&s), "exit copies added tiles during the wrap");

    let lay = s.layout();
    let first = lay.row_at_y(s.scroll);
    let last = lay.row_at_y(s.scroll + s.vh);
    for row in first..=last {
        let (a, b) = lay.row_range(row);
        for i in a..b {
            assert!(near_rect(s.app.reflow[i].rect, lay.tile_rect(i)), "clip {i} settles");
        }
    }
    let rows1: Vec<usize> = (0..s.app.clips.len()).map(|i| lay.row_of(i)).collect();
    assert_ne!(rows0, rows1, "the zoom-in actually changed the row packing");

    s.zoom = 2_210_000;
    let mut saw_wrap = false;
    let mut survived = false;
    for f in 0..8 {
        s.app.scene.grid_rev = s.app.scene.grid_rev.wrapping_add(1);
        reflow_frame(&mut s, 16 * MS, f == 0);
        if s.app.reflow.iter().any(|r| r.wrap.is_some()) {
            saw_wrap = true;
            survived = survived || f >= 2;
        }
    }
    assert!(saw_wrap && survived, "zoom wraps fire and outlive arrivals");

    s.app.setup.tuning.zoom_wrap = false;
    reflow_frame(&mut s, 16 * MS, false);
    assert!(s.app.reflow.is_empty(), "turning zoom_wrap off clears the table");
}

#[test]
fn resolve_chapter_pins_nav_through_keyframe_undershoot() {
    assert_eq!(resolve_chapter(0, None), 0);
    assert_eq!(resolve_chapter(2, None), 2);
    assert_eq!(resolve_chapter(1, Some(2)), 2);
    assert_eq!(resolve_chapter(2, Some(2)), 2);
    assert_eq!(resolve_chapter(3, Some(2)), 3);
    assert_eq!(resolve_chapter(0, Some(2)), 0);
}

#[test]
fn jump_random_lands_only_on_cached_clips() {
    let mut s = stage();
    for _ in 0..50 {
        let before = s.app.refs.selected;
        s.app.jump_random(s.now);
        assert_ne!(s.app.refs.selected, before, "random jump moved the selection");
    }
    for c in &mut s.app.clips {
        c.cached = false;
    }
    s.app.clips[10].cached = true;
    s.app.clips[20].cached = true;
    for _ in 0..20 {
        s.app.jump_random(s.now);
        assert!([10, 20].contains(&s.app.refs.selected), "jump landed on an uncached clip");
    }
    for c in &mut s.app.clips {
        c.cached = false;
    }
    let before = s.app.refs.selected;
    s.app.jump_random(s.now);
    assert_eq!(s.app.refs.selected, before, "nothing cached: selection holds");
}

#[test]
fn attention_click_opens_quickview_on_any_tile() {
    let mut s = stage();
    s.app.setup.tuning.interaction = Interaction::Attention;
    let lay = s.layout();
    let r = lay.tile_rect(1);
    assert_eq!(s.tile_at(&lay, r.x + r.w / 2, r.y + r.h / 2), Some(1), "misses tile 1");
    s.press(Some(1), false, false);
    assert_eq!(s.app.refs.selected, 1, "click selects the tile");
    assert!(!s.app.modes.quickview, "quickview waits for the release");
    s.release();
    assert!(s.app.modes.quickview, "a single click on any tile quickviews");

    s.app.modes.quickview = false;
    s.app.take_effects();
    s.press(Some(0), false, false);
    s.drag(16_000_000);
    s.release();
    assert!(!s.app.modes.quickview, "a matured drag must not open quickview");
    assert!(!begun_drags(&s.app.take_effects()).is_empty(), "the drag still matured");

    s.app.setup.tuning.interaction = Interaction::Classic;
    s.press(Some(1), false, false);
    s.release();
    assert!(!s.app.modes.quickview, "classic: first click only selects");
}

#[test]
fn attention_multi_select_marks_without_playing() {
    let mut s = stage();
    s.app.setup.tuning.interaction = Interaction::Attention;
    s.press(Some(2), true, false);
    s.release();
    assert!(s.app.marked.contains(&2), "cmd-click marks the tile");
    assert!(!s.app.modes.quickview, "marking never opens quickview");
    assert_eq!(s.app.refs.selected, 0, "marking never moves the selection");
    assert_eq!(s.app.attention_target(), Some(0), "a mark never becomes the target");
    s.press(Some(2), true, false);
    assert!(!s.app.marked.contains(&2), "cmd-click again unmarks");
    s.press(Some(3), false, true);
    let want: HashSet<usize> = [0usize, 1, 2, 3].into_iter().collect();
    assert_eq!(s.app.marked, want, "shift-click marks the whole range from the selection");
    assert_eq!(s.app.refs.selected, 0, "range-marking holds the selection");
    s.app.marked.clear();
    s.app.setup.tuning.interaction = Interaction::Classic;
    s.press(Some(2), true, false);
    assert!(s.app.marked.is_empty(), "classic: no marks");
    assert_eq!(s.app.refs.selected, 2, "classic: the click just selects");
}
