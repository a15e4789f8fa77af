use switchblade::arrivals::Ingested;
use switchblade::atlas::Zone;
use switchblade::commands::{Key, KeyMap};
use switchblade::flex::{Aspect, WHOLE};
use switchblade::grid::{layout_with, Layout, Rect, Shape};
use switchblade::live::LaneSight;
use switchblade::media::MediaResult;
use switchblade::model::{Effect, Extent, SelLive, SlotKind, SlotOwner, Thumb};
use switchblade::overlay::{chapter_pos_bounds, seekbar_lift};
use switchblade::ribbon::{RibbonItem, RibbonRow};
use switchblade::scene::Placed;
use switchblade::select::strip_is_far;
use switchblade::start::Options;
use switchblade::state::Switchblade;
use switchblade::tuning::{AnimLevel, SortMode, Tuning};

const MS: u64 = 1_000_000;
const START: u64 = 1_000_000_000_000;
const PX: i128 = 1_000_000;

fn library(n: u64) -> Switchblade {
    let opts = Options {
        animation: Some(AnimLevel::Normal),
        inputs: vec!["dir".to_string()],
        no_config: true,
        ..Options::default()
    };
    let mut app = Switchblade::with_options(&opts, None, false, 0, START);
    let mut items: Vec<Ingested> = (0..n)
        .map(|path| Ingested { path, readable: true, cloud: false, created: None, fp: None })
        .collect();
    app.drain_ingest(&mut items, true, START);
    for i in 0..n as usize {
        app.clips[i].thumb = Thumb::Ready { slot: i, at: START, tw: 320, th: 180 };
        app.slots[i] = Some(SlotOwner { clip: i, kind: SlotKind::Static });
    }
    app.take_effects();
    app
}

fn layout(app: &Switchblade) -> Layout {
    let s = Shape {
        vw: 1_280 * PX,
        gap: 2 * PX,
        tile_w: 240 * PX,
        tile_h: 135 * PX,
        zoom: WHOLE,
        rmin: 620_000,
        rmax: 1_600_000,
    };
    let asp: Vec<Aspect> = (0..app.clips.len()).map(|i| app.chip_aspect(i, None)).collect();
    layout_with(&s, &asp, true, None)
}

fn stream(clip: usize, generation: u64) -> SelLive {
    SelLive {
        clip,
        path: clip as u64,
        spawned: START,
        first_frame: Some(START),
        duration: Some(8_000_000_000),
        generation,
        served: 1,
    }
}

#[test]
fn likely_moves_are_kept_warm_one_at_a_time() {
    let mut app = library(20);
    app.lanes.live_sel = Some(stream(0, 7));
    let lay = layout(&app);
    let now = START + 1_000 * MS;
    let playing = LaneSight { generation: 7, failed: false, buffered: 3, position: 0 };
    let first = app.tend_warm(&lay, &vec![playing], now).expect("the next clip");
    assert_eq!(first.clip, 1);
    let generation = app.lanes.next_lane_gen;
    app.warm_live_started(first, None, now);
    assert_eq!(app.warm.len(), 1);
    assert_eq!(app.lanes.next_lane_gen, generation + 1);
    let cold = LaneSight { generation, failed: false, buffered: 0, position: 0 };
    assert!(app.tend_warm(&lay, &vec![playing, cold], now).is_none(), "it is starting up");
    assert!(app.warm_filling(&vec![0], now));
    assert!(!app.warm_filling(&vec![2], now));
    assert!(!app.warm_filling(&vec![0], now + 5_000 * MS), "a dead one blocks nothing");
    let warm = LaneSight { buffered: 2, ..cold };
    let second = app.tend_warm(&lay, &vec![playing, warm], now).expect("the clip below");
    assert_eq!(lay.row_of(second.clip), 1);
    // A selection that the warm stream is for takes it over without a decoder.
    app.refs.selected = 1;
    assert!(app.begin_live(&lay, &vec![playing, warm], now).is_none());
    assert_eq!(app.lanes.live_sel.map(|l| l.generation), Some(generation));
}

#[test]
fn a_stream_is_watched_unless_it_rests() {
    let mut app = library(2);
    assert!(!app.watching());
    app.lanes.live_sel = Some(stream(0, 7));
    assert!(app.watching());
    app.lanes.sel_parked = true;
    assert!(!app.watching());
    assert_eq!(app.next_frame_due(Some(5), None), None, "what rests is not shown");
    app.lanes.sel_parked = false;
    assert_eq!(app.next_frame_due(Some(5), Some(3)), Some(5), "no small stream plays");
    app.modes.focused = false;
    assert!(!app.watching());
}

#[test]
fn storyboards_are_asked_for_behind_the_stream() {
    let mut app = library(2);
    app.modes.quickview = true;
    let now = START + 100 * MS;
    app.refs.sel_changed_at = now;
    app.request_quickview_sheet(false, now);
    assert!(app.take_effects().is_empty(), "the stream comes first");
    assert!(app.awaits_sheet());
    app.lanes.live_sel = Some(stream(0, 7));
    app.request_quickview_sheet(true, now);
    assert!(app.take_effects().is_empty(), "so do warm streams");
    app.request_quickview_sheet(false, now);
    assert_eq!(app.take_effects(), vec![Effect::RequestAnim { path: 0 }]);
    assert_eq!(app.clips[0].anim, Thumb::Pending);
    app.request_quickview_sheet(false, now);
    assert!(app.take_effects().is_empty(), "once is enough");
    app.clips[0].anim = Thumb::Failed;
    assert!(!app.awaits_sheet());
}

#[test]
fn arrangements_fade_into_each_other() {
    let mut app = library(4);
    app.setup.cli_animation = Some(AnimLevel::Minimal);
    app.setup.tuning.zoom_wrap = false;
    let window = Extent { w: 1_280 * PX, h: 800 * PX };
    assert!(app.begin_frame(window));
    app.note_grid(window, 5, true, START);
    assert_eq!(app.fade_arrangement(START), None);
    app.note_grid(window, 4, true, START);
    assert_eq!(app.fade_arrangement(START), Some(0));
    assert_eq!(app.fade_arrangement(START + 90 * MS), Some(500_000_000));
    assert_eq!(app.fade_arrangement(START + 180 * MS), None);
    assert!(app.scene.transition.is_none());
}

#[test]
fn arrivals_wake_the_loop_where_they_are_seen() {
    let mut app = library(1);
    app.scene.wake_until = START;
    app.wake_for_arrival(3, 2, START);
    assert_eq!(app.scene.wake_until, START);
    app.wake_for_arrival(2, 2, START);
    assert_eq!(app.scene.wake_until, START + 600 * MS);
}

#[test]
fn a_strip_is_placed_with_its_copies() {
    let app = library(3);
    let item = |clip: usize, x: i128| RibbonItem { clip, x, w: 100 };
    let rows = vec![
        RibbonRow { y: 10, h: 50, items: vec![item(0, 0), item(1, 110)] },
        RibbonRow { y: 70, h: 50, items: vec![item(1, -60), item(2, 50)] },
    ];
    let placed = app.place_strip(&rows, 1_000);
    let at = |x: i128, y: i128| Rect { x, y, w: 100, h: 50 };
    assert_eq!(
        placed,
        vec![
            Placed { clip: 0, rect: at(0, 1_010), copy: None },
            Placed { clip: 1, rect: at(110, 1_010), copy: Some(at(-60, 1_070)) },
            Placed { clip: 2, rect: at(50, 1_070), copy: None },
        ]
    );
}

#[test]
fn conditions_of_a_scenario_are_looked_up() {
    let mut app = library(3);
    assert!(app.cond_met("library_count", 3, false));
    assert!(!app.cond_met("library_count", 4, false));
    assert!(app.cond_met("ingest_closed", 0, false));
    assert!(!app.cond_met("selected_served", 0, false));
    app.lanes.live_sel = Some(stream(0, 7));
    assert!(app.cond_met("selected_served", 0, false));
    assert!(!app.cond_met("grid_settled", 0, true));
    assert!(app.cond_met("grid_settled", 0, false));
    assert!(!app.cond_met("selected_anim_requested", 0, false));
    app.clips[0].anim = Thumb::Pending;
    assert!(app.cond_met("selected_anim_requested", 0, false));
    assert!(!app.cond_met("selected_anim", 0, false));
    assert!(!app.cond_met("no such condition", 0, false));
}

#[test]
fn settings_are_taken_over_while_it_runs() {
    let mut app = library(2);
    let tuning = Tuning { recurse: false, sort: SortMode::Newest, ..Tuning::default() };
    app.reload(tuning, KeyMap::default());
    assert!(!app.setup.tuning.recurse);
    assert_eq!(app.setup.sort, SortMode::Arrival, "the order is that of the start");
    assert_eq!(app.clips.len(), 2);
}

#[test]
fn the_seekbar_rides_on_the_chapter_bar() {
    assert_eq!(seekbar_lift(false, 1_000_000_000, 92 * PX), 0);
    assert_eq!(seekbar_lift(true, 0, 92 * PX), 0);
    assert_eq!(seekbar_lift(true, 500_000_000, 92 * PX), 63 * PX);
}

#[test]
fn a_long_chapter_row_shows_its_ends() {
    // Three chips fit, and stay in the middle.
    assert_eq!(chapter_pos_bounds(100 * PX, 10 * PX, 1_280 * PX, 3), (WHOLE, WHOLE));
    // Of forty the first may stand as far left as the window lets it.
    let (lo, hi) = chapter_pos_bounds(100 * PX, 10 * PX, 1_280 * PX, 40);
    assert_eq!((lo, hi), (5_145_454, 39 * WHOLE - 5_145_454));
}

#[test]
fn the_filmstrip_jumps_only_far() {
    assert!(!strip_is_far(4, 0));
    assert!(strip_is_far(5, 0));
    assert!(strip_is_far(0, 4_000_001));
}

#[test]
fn placeholders_are_never_read() {
    let mut app = library(2);
    let mut items =
        vec![Ingested { path: 9, readable: false, cloud: true, created: None, fp: None }];
    app.refs.ingesting = true;
    app.drain_ingest(&mut items, true, START);
    assert_eq!(app.clips[2].thumb, Thumb::Failed);
    assert_eq!(app.clips[2].anim, Thumb::Failed);
    assert!(app.take_effects().is_empty(), "no thumbnail is made of it");
    app.request_thumbs(&vec![0, 1, 2]);
    app.refs.selected = 2;
    app.modes.quickview = true;
    app.request_quickview_sheet(false, START + 10_000 * MS);
    let lay = layout(&app);
    assert!(app.begin_live(&lay, &vec![], START + 10_000 * MS).is_none());
    app.modes.fullview = true;
    app.prewarm_chapters(START + 10_000 * MS);
    let reads = app
        .take_effects()
        .into_iter()
        .filter(|e| {
            matches!(
                e,
                Effect::RequestThumb { path: 9 }
                    | Effect::RequestAnim { path: 9 }
                    | Effect::RequestChapters { path: 9 }
            )
        })
        .count();
    assert_eq!(reads, 0);
}

#[test]
fn steps_and_switches_lead_back() {
    let mut app = library(30);
    let lay = layout(&app);
    let last_of_row = lay.row_range(0).1 - 1;
    app.refs.selected = last_of_row;
    app.move_selection(1, 0, &lay, START);
    assert_eq!(lay.row_of(app.refs.selected), 1, "over the end of the row");
    app.move_selection(-1, 0, &lay, START);
    assert_eq!(app.refs.selected, last_of_row);
    let press = |app: &mut Switchblade, c: char| {
        let lay = layout(app);
        app.key(Key::Char(c), None, &lay, 0, true, START);
    };
    let paused = app.modes.focus_pause_on;
    press(&mut app, 'p');
    assert_eq!(app.modes.focus_pause_on, !paused);
    press(&mut app, 'p');
    assert_eq!(app.modes.focus_pause_on, paused);
}

#[test]
fn a_frame_takes_no_more_pictures_than_its_budget() {
    let mut app = library(0);
    let mut items: Vec<Ingested> = (0..100)
        .map(|path| Ingested { path, readable: true, cloud: false, created: None, fp: None })
        .collect();
    app.refs.ingesting = true;
    app.drain_ingest(&mut items, true, START);
    let lay = layout(&app);
    let mut answers: Vec<MediaResult> =
        (0..100).map(|path| MediaResult::Ready { path, w: 320, h: 180 }).collect();
    let zone = Zone { first: 0, last: 0, center: 0 };
    let budget = app.media_upload_budget(false);
    let ups = app.drain_media(&mut answers, &lay, zone, 0, START);
    assert_eq!(ups.len(), budget);
    assert_eq!(answers.len(), 100 - budget, "the rest waits");
    assert!(app.take_effects().contains(&Effect::NextFrame));
}
