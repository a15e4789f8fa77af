use switchblade::arrivals::Ingested;
use switchblade::atlas::Zone;
use switchblade::chapters::{synth_checkpoints, SECOND};
use switchblade::chips::Standing;
use switchblade::commands::Key;
use switchblade::flex::{Aspect, WHOLE};
use switchblade::grid::{layout_with, Layout, Shape};
use switchblade::input::{Click, Input, Pointer};
use switchblade::live::{decode_size, start_position, LaneSight, LIVE_RETRY_COOLDOWN};
use switchblade::media::MediaResult;
use switchblade::model::{Effect, GoneTo, LiveState, SlotKind, SlotOwner, Thumb};
use switchblade::overlay::{
    chapter_chip_at, fullview_rect, over_video, quickview_rect, seekbar_frac, seekbar_hit, seekbar_line, storyboard_cell,
    strip_geom, ChapterRow, Chip,
};
use switchblade::rng::{next_rand, odd, rng_seed};
use switchblade::scene::{cell_of, Backdrop, Placed, Source, SHEET_STEP};
use switchblade::start::{atlas_from, recipe_from, InputSource, Options};
use switchblade::state::{ChapterPlan, Switchblade};
use switchblade::stats::{title, update_title, Causes, RedrawStats};
use switchblade::tuning::{AnimLevel, Interaction, Tuning};

const MS: u64 = 1_000_000;
const START: u64 = 1_000_000_000_000;

/// A library of `n` clips that were read, with a thumbnail each.
fn playing(n: u64) -> Switchblade {
    let opts = Options {
        animation: Some(AnimLevel::Normal),
        inputs: vec!["dir".to_string()],
        no_config: true,
        ..Options::default()
    };
    let mut app = Switchblade::with_options(&opts, None, false, 0, START);
    let mut items: Vec<Ingested> = (0..n)
        .map(|path| Ingested { path, readable: true, cloud: false, created: None, fp: None })
        .collect();
    app.drain_ingest(&mut items, true, START);
    for i in 0..n as usize {
        app.clips[i].thumb = Thumb::Ready { slot: i, at: START, tw: 320, th: 180 };
        app.slots[i] = Some(SlotOwner { clip: i, kind: SlotKind::Static });
    }
    app.take_effects();
    app
}

fn layout(app: &Switchblade) -> Layout {
    let s = Shape {
        vw: 1_280_000_000,
        gap: 2_000_000,
        tile_w: 240_000_000,
        tile_h: 135_000_000,
        zoom: WHOLE,
        rmin: 620_000,
        rmax: 1_600_000,
    };
    let asp: Vec<Aspect> = (0..app.clips.len()).map(|i| app.chip_aspect(i, None)).collect();
    layout_with(&s, &asp, true, None)
}

fn zone() -> Zone {
    Zone { first: 0, last: 0, center: 0 }
}

fn sight(generation: u64, failed: bool, position: i64) -> LaneSight {
    LaneSight { generation, failed, buffered: 3, position }
}

/// Starts the selected stream and shows its first frame.
fn started(app: &mut Switchblade, now: u64) {
    let lay = layout(app);
    let spawn = app.begin_live(&lay, &vec![], now).expect("the selection plays");
    app.sel_live_started(spawn, Some(8 * SECOND), now);
    app.serve_sel(now);
    assert!(app.lanes.live_sel.unwrap().first_frame.is_some());
}

#[test]
fn the_selection_plays_once_it_has_rested() {
    let mut app = playing(3);
    app.refs.sel_changed_at = START;
    let lay = layout(&app);
    assert!(app.begin_live(&lay, &vec![], START + 50 * MS).is_none(), "not before the delay");
    let spawn = app.begin_live(&lay, &vec![], START + 100 * MS).expect("then it plays");
    assert_eq!((spawn.clip, spawn.path, spawn.tw, spawn.th), (0, 0, 320, 180));
    assert_eq!(spawn.resume, None);
}

#[test]
fn failed_live_lane_is_reaped_with_cooldown() {
    let mut app = playing(1);
    let now = START + 1_000 * MS;
    started(&mut app, now);
    let lane = app.lanes.live_sel.unwrap();
    let lay = layout(&app);
    assert!(app.begin_live(&lay, &vec![sight(lane.generation, true, 0)], now).is_none());
    assert!(app.lanes.live_sel.is_none(), "failed lane reaped");
    assert!(app.live_retry.contains_key(&0), "failure recorded for cooldown");
    assert!(app.live_cooling(0, now));
    for k in 0..50 {
        assert!(app.begin_live(&lay, &vec![], now + k * 16 * MS).is_none(), "no respawn");
    }
    let later = now + LIVE_RETRY_COOLDOWN;
    assert!(!app.live_cooling(0, later));
    assert!(app.begin_live(&lay, &vec![], later).is_some(), "the cooldown ends");
}

#[test]
fn offscreen_selection_parks_and_resumes_without_respawn() {
    let mut app = playing(140);
    let now = START + 1_000 * MS;
    started(&mut app, now);
    let spawned0 = app.lanes.live_sel.unwrap().spawned;
    let lay = layout(&app);
    app.park(&lay, 5, 8);
    assert!(app.lanes.sel_parked, "offscreen selection parks");
    assert!(app.lanes.live_sel.is_some(), "parked stream survives");
    app.scene.motion = false;
    app.scene.wake_until = now;
    assert!(!app.is_animating(now), "a parked lane does not keep the loop awake");
    app.park(&lay, 0, 3);
    assert!(!app.lanes.sel_parked, "back on screen it goes on");
    assert!(app.begin_live(&lay, &vec![], now).is_none(), "no respawn");
    assert_eq!(app.lanes.live_sel.unwrap().spawned, spawned0);
}

#[test]
fn focus_pause_parks_and_resumes_the_same_stream() {
    let mut app = playing(3);
    let now = START + 1_000 * MS;
    started(&mut app, now);
    let lane = app.lanes.live_sel.unwrap();
    let lay = layout(&app);
    app.event(Input::Focus { focused: false }, 0, now);
    assert!(app.paused());
    assert!(app.begin_live(&lay, &vec![], now).is_none());
    app.park(&lay, 0, 0);
    assert!(app.lanes.sel_parked, "focus loss parks the stream");
    assert_eq!(app.lanes.live_sel, Some(lane), "the stream survives");
    app.event(Input::Focus { focused: true }, 0, now);
    assert!(app.begin_live(&lay, &vec![], now).is_none());
    app.park(&lay, 0, 0);
    assert!(!app.lanes.sel_parked, "refocus resumes");
    assert_eq!(app.lanes.live_sel, Some(lane), "the same stream");
}

#[test]
fn hover_click_continues_from_the_preview_position() {
    let mut app = playing(3);
    let now = START + 1_000 * MS;
    started(&mut app, now);
    let lay = layout(&app);
    app.hover(Some(2), None, now);
    let now = now + 2_000 * MS;
    let (spawn, slot) = app.begin_hover(&lay, zone(), now).expect("the hovered tile previews");
    assert_eq!(spawn.clip, 2);
    app.hover_live_started(spawn.clip, slot);
    assert_eq!(app.serve_hover(now), Some(slot));
    let hover = app.lanes.live_hover.unwrap();
    app.event(
        Input::MouseDown {
            click: Click {
                chapter: None,
                bar: None,
                chip: None,
                video: false,
                tile: Some(2),
                cmd: false,
                shift: false,
            },
        },
        0,
        now,
    );
    assert_eq!(app.refs.selected, 2, "click selects the hovered tile");
    let now = now + 2_000 * MS;
    let seen = vec![sight(hover.generation, false, 1_600_000_000)];
    let spawn = app.begin_live(&lay, &seen, now).expect("the selection opens");
    assert_eq!(spawn.clip, 2);
    assert_eq!(spawn.resume, Some(1_600_000_000), "it continues from the preview");
    assert_eq!(start_position(spawn.resume, Some(8 * SECOND), 100_000_000), 1_600_000_000);
    assert_eq!(start_position(None, Some(8 * SECOND), 100_000_000), 800_000_000);
}

#[test]
fn attention_lane_follows_hover_then_keyboard() {
    let mut app = playing(2);
    app.setup.tuning.interaction = Interaction::Attention;
    let now = START + 1_000 * MS;
    started(&mut app, now);
    let lay = layout(&app);
    app.event(
        Input::Cursor {
            at: Pointer {
                moved: true,
                dragged: false,
                share: None,
                over_video: false,
                at_edge: false,
            },
        },
        0,
        now,
    );
    app.hover(Some(1), None, now);
    let now = now + 300 * MS;
    let spawn = app.begin_live(&lay, &vec![], now).expect("the lane follows the hover");
    assert_eq!(spawn.clip, 1);
    app.sel_live_started(spawn, None, now);
    assert_eq!(app.refs.selected, 0, "hover-attention must not move the selection");
    assert!(app.begin_hover(&lay, zone(), now + 9_000 * MS).is_none(), "no hover lane");
    app.move_selection(1, 0, &lay, now);
    assert_eq!(app.refs.selected, 1);
    assert!(!app.modes.mouse_attention, "keyboard move reclaims attention");
    assert_eq!(app.attention_target(), Some(1));
}

#[test]
fn skip_seeks_the_selected_stream_in_place() {
    let mut app = playing(1);
    let now = START + 1_000 * MS;
    started(&mut app, now);
    let lane = app.lanes.live_sel.unwrap();
    app.take_effects();
    app.skip(true, Some(250_000_000), SECOND, now);
    assert_eq!(app.take_effects(), vec![Effect::Seek { to: 3 * SECOND, exact: false }]);
    assert_eq!(app.lanes.live_sel, Some(lane), "no respawn");
    assert!(app.skip_bar(3 * SECOND, now).is_some(), "the flash bar arms on skip");
    app.skip(true, Some(250_000_000), 3 * SECOND, now);
    assert_eq!(app.take_effects(), vec![Effect::Seek { to: 5 * SECOND, exact: false }]);
}

#[test]
fn seekbar_click_and_drag_scrubs_the_stream() {
    let mut app = playing(1);
    let now = START + 1_000 * MS;
    started(&mut app, now);
    app.modes.quickview = true;
    app.take_effects();
    let strip = strip_geom(92_000_000, 800_000_000);
    let video = quickview_rect(1_280_000_000, strip.y, 320, 180);
    let line = seekbar_line(video, 0);
    let at = |share: i128| line.x + line.w * share / 100;
    let y = line.bottom - 3_000_000;
    // Motion over the video reveals the bar.
    assert_eq!(app.seekbar_alpha(now), 0, "nothing has shown the bar yet");
    let over = over_video(&video, video.x + video.w / 2, video.y + video.h / 2);
    let motion = |share: Option<u32>| Input::Cursor {
        at: Pointer { moved: true, dragged: false, share, over_video: over, at_edge: false },
    };
    app.event(motion(None), 0, now);
    assert!(app.seekbar_alpha(now) > 900_000_000, "motion over the video reveals the bar");
    let grab = seekbar_hit(&line, at(75), y, true);
    assert!(grab.is_some(), "the bar is hit");
    app.event(
        Input::MouseDown {
            click: Click {
                chapter: None,
                bar: grab,
                chip: None,
                video: true,
                tile: None,
                cmd: false,
                shift: false,
            },
        },
        0,
        now,
    );
    assert!(app.modes.scrubbing, "press on the bar starts a scrub");
    match app.take_effects()[..] {
        [Effect::Seek { to, exact }] => {
            assert!((to - 6 * SECOND).abs() < SECOND / 100 && !exact);
        }
        _ => panic!("one seek to the grab point"),
    }
    app.event(motion(Some(seekbar_frac(&line, at(25)))), 0, now);
    match app.take_effects()[..] {
        [Effect::Seek { to, exact }] => {
            assert!((to - 2 * SECOND).abs() < SECOND / 100 && !exact);
        }
        _ => panic!("a drag tracks the pointer"),
    }
    app.event(Input::MouseUp { share: Some(seekbar_frac(&line, at(25))) }, 0, now);
    assert!(!app.modes.scrubbing, "release ends the scrub");
    match app.take_effects()[..] {
        [Effect::Seek { to, exact }] => {
            assert!((to - 2 * SECOND).abs() < SECOND / 100 && exact);
        }
        _ => panic!("one exact seek"),
    }
    assert!(
        app.lanes.live_sel.is_some_and(|l| l.first_frame.is_some()),
        "scrubbing never respawns the decoder"
    );
    assert!(app.seekbar_alpha(now) > 0);
    assert_eq!(app.seekbar_pos(2 * SECOND), Some(250_000_000));
}

fn plan() -> ChapterPlan {
    ChapterPlan { times: vec![0, 3 * SECOND, 6 * SECOND], duration: Some(8 * SECOND) }
}

#[test]
fn chapter_click_seeks_the_stream() {
    let mut app = playing(1);
    let now = START + 1_000 * MS;
    started(&mut app, now);
    let lay = layout(&app);
    app.toggle_chapters(0, now);
    assert!(app.modes.fullview, "g enters fullview");
    assert!(app.chapters.as_ref().is_some_and(|b| b.open), "the bar opens");
    let mut results = vec![MediaResult::ChapterTimes { path: 0, plan: plan() }];
    app.drain_media(&mut results, &lay, zone(), 0, now);
    let times = app.chapters.as_ref().and_then(|b| b.times.clone()).unwrap();
    assert_eq!(times.len(), 3, "the file's real chapters, not checkpoints");
    assert_eq!(times[1], 3 * SECOND, "second chapter at 3s");
    app.take_effects();

    // The third chip, of a bar that has slid up.
    let strip = strip_geom(90_000_000, 720_000_000);
    let gap: i128 = 6_000_000;
    let row = ChapterRow {
        cw: strip.cw,
        ch: strip.ch,
        gap,
        base_y: strip.y,
        slide: 1_000_000_000,
        pos: 0,
    };
    let x = 640_000_000 + 2 * (strip.cw + gap);
    let y = strip.y + strip.ch / 2;
    let chapter = chapter_chip_at(&row, times.len(), 1_280_000_000, x as i64, y as i64);
    assert_eq!(chapter, Some(2));
    let click = Click {
        chapter,
        bar: None,
        chip: None,
        video: false,
        tile: None,
        cmd: false,
        shift: false,
    };
    app.event(Input::MouseDown { click }, 0, now);
    assert!(app.lanes.live_sel.unwrap().first_frame.is_some(), "no respawn");
    assert!(app
        .take_effects()
        .iter()
        .any(|e| matches!(e, Effect::Seek { to, .. } if *to == 6 * SECOND)));
    assert!(app.chapters.as_ref().is_none_or(|b| !b.open), "the bar slides down after the click");
    assert!(app.modes.fullview, "fullview stays");
}

#[test]
fn fullview_arrows_step_chapters() {
    let mut app = playing(1);
    let now = START + 1_000 * MS;
    started(&mut app, now);
    let lay = layout(&app);
    app.key(Key::Tab, None, &lay, 0, true, now);
    assert!(app.modes.fullview, "tab enters fullview");
    app.take_effects();
    app.key(Key::Right, None, &lay, SECOND, true, now);
    assert!(app
        .take_effects()
        .contains(&Effect::Seek { to: SECOND + 800_000_000, exact: false }));
    let mut results = vec![MediaResult::ChapterTimes { path: 0, plan: plan() }];
    app.drain_media(&mut results, &lay, zone(), 0, now);
    app.take_effects();
    let seeks = |app: &mut Switchblade| -> Vec<i64> {
        app.take_effects()
            .iter()
            .filter_map(|e| match e {
                Effect::Seek { to, .. } => Some(*to),
                _ => None,
            })
            .collect()
    };
    app.key(Key::Right, None, &lay, SECOND / 2, true, now);
    assert_eq!(seeks(&mut app), vec![3 * SECOND], "right to chapter 2");
    assert!(
        app.chapters.as_ref().is_some_and(|b| b.open && b.peek_until.is_some()),
        "a fullview chapter step peeks the chapter bar open"
    );
    app.key(Key::Right, None, &lay, 3 * SECOND, true, now);
    assert_eq!(seeks(&mut app), vec![6 * SECOND], "right to chapter 3");
    app.key(Key::Right, None, &lay, 6 * SECOND, true, now);
    assert_eq!(seeks(&mut app), vec![0], "right past the last chapter wraps");
    app.chapters = None;
    app.key(Key::Left, None, &lay, 6 * SECOND, true, now);
    assert_eq!(seeks(&mut app), vec![3 * SECOND], "left at a start steps back");
    app.chapters = None;
    app.key(Key::Left, None, &lay, 5 * SECOND + SECOND / 2, true, now);
    assert_eq!(seeks(&mut app), vec![3 * SECOND], "left mid-chapter restarts it");
    app.key(Key::Escape, None, &lay, 0, true, now);
    assert!(!app.modes.fullview, "a peek does not intercept");
    app.key(Key::Right, None, &lay, 0, true, now);
    assert_eq!(app.refs.selected, 0, "one clip: selection clamps in place");
    assert!(seeks(&mut app).is_empty(), "grid movement never seeks the stream");
}

#[test]
fn chapter_steps_advance_after_keyframe_undershoot_settles() {
    let mut app = playing(1);
    let now = START + 1_000 * MS;
    started(&mut app, now);
    let lay = layout(&app);
    app.key(Key::Tab, None, &lay, 0, true, now);
    let mut results = vec![MediaResult::ChapterTimes {
        path: 0,
        plan: ChapterPlan {
            times: vec![0, 2_700_000_000, 5_300_000_000],
            duration: Some(8 * SECOND),
        },
    }];
    app.drain_media(&mut results, &lay, zone(), 0, now);
    app.key(Key::Right, None, &lay, 0, true, now);
    assert_eq!(app.current_chapter(2 * SECOND), Some(1), "the highlight tracks the step");
    app.take_effects();
    app.key(Key::Right, None, &lay, 2 * SECOND, true, now);
    assert!(
        app.take_effects().contains(&Effect::Seek { to: 5_300_000_000, exact: false }),
        "the second step advances"
    );
}

#[test]
fn unplayable_clip_is_removed_from_the_grid() {
    let mut app = playing(2);
    let lay = layout(&app);
    let mut results = vec![MediaResult::Unplayable { path: 1 }];
    app.drain_media(&mut results, &lay, zone(), 0, START);
    assert_eq!(app.clips.len(), 1, "the unplayable clip leaves the grid");
    assert_eq!(app.clips[0].path, 0, "the real clip survives");
    assert_eq!(app.index.get(&0), Some(&0), "indices remapped");
    assert!(!app.index.contains_key(&1), "the dropped path unindexed");
}

#[test]
fn a_picture_is_uploaded_into_a_slot() {
    let mut app = playing(2);
    app.clips[1].thumb = Thumb::Pending;
    app.slots[1] = None;
    let lay = layout(&app);
    let mut results = vec![MediaResult::Ready { path: 1, w: 100, h: 50 }];
    let ups = app.drain_media(&mut results, &lay, zone(), 0, START);
    assert_eq!(ups.len(), 1);
    assert_eq!((ups[0].from, ups[0].w, ups[0].h), (0, 100, 50));
    assert!(matches!(app.clips[1].thumb, Thumb::Ready { tw: 100, th: 50, .. }));
    assert_eq!(app.slots[ups[0].slot].unwrap().clip, 1);
}

#[test]
fn thumbnails_are_asked_for_once() {
    let mut app = playing(3);
    app.clips[0].thumb = Thumb::Absent;
    app.request_visible_thumbs(&layout(&app), zone());
    assert!(app.take_effects().contains(&Effect::RequestThumb { path: 0 }));
    app.request_visible_thumbs(&layout(&app), zone());
    assert!(!app.take_effects().contains(&Effect::RequestThumb { path: 0 }));
}

#[test]
fn decoders_fit_the_box_they_are_shown_in() {
    assert_eq!(decode_size(Some(3840), Some(2160), None, 320, 180, 1920, 1080), (1920, 1080));
    let (w, h) = decode_size(Some(1080), Some(1920), None, 320, 180, 1920, 1080);
    assert!(w < h && h <= 1080);
}

#[test]
fn checkpoints_stand_in_for_chapters() {
    assert_eq!(synth_checkpoints(100 * SECOND), vec![0, 25 * SECOND, 50 * SECOND, 75 * SECOND]);
    assert!(synth_checkpoints(30 * SECOND).is_empty());
}

#[test]
fn views_have_what_lies_behind_them() {
    let mut app = playing(1);
    assert_eq!(app.backdrop(), Backdrop::Grid);
    app.modes.quickview = true;
    assert_eq!(app.backdrop(), Backdrop::Blurred);
    app.modes.fullview = true;
    assert_eq!(app.backdrop(), Backdrop::Stage);
    assert_eq!(app.selected_video_src(), Source::Still { slot: 0, tw: 320, th: 180 });
    let r = fullview_rect(1_600_000_000, 900_000_000, 320, 180);
    assert_eq!((r.x, r.y, r.w, r.h), (0, 0, 1_600_000_000, 900_000_000));
    assert_eq!(storyboard_cell(5, 10, 3), (1, 1));
}

#[test]
fn numbers_are_drawn_from_an_odd_seed() {
    assert_eq!(rng_seed() % 2, 1);
    assert_eq!(odd(6), 7);
    let mut a: u64 = 7;
    let mut b: u64 = 7;
    assert_eq!(next_rand(&mut a), next_rand(&mut b));
    assert_ne!(a, 7);
}

#[test]
fn redraws_are_counted_second_by_second() {
    let mut r = RedrawStats::new(START);
    r.slots(3, 10);
    let quiet =
        Causes { motion: true, transition: false, live: false, timer: false, animating: true };
    assert!(r.record(quiet, START + 10 * MS).is_none());
    let line = r.record(quiet, START + 1_500 * MS).expect("a line each second");
    assert!(line.contains("motion 2"), "{line}");
    assert_eq!(update_title(3, "a.mp4", &title(3, "a.mp4")), None);
    assert!(update_title(4, "a.mp4", &title(3, "a.mp4")).is_some());
}

#[test]
fn settings_become_a_recipe_and_an_atlas() {
    let mut t = Tuning::default();
    let a = atlas_from(&t);
    assert_eq!((a.cols * a.rows) as usize, 144);
    t.thumb_quality = 99;
    assert_eq!(recipe_from(&t).quality, 2);
    let piped = Options::default();
    assert_eq!(piped.input_source(), InputSource::Pipe);
}

#[test]
fn an_atlas_is_no_longer_than_its_longest_side() {
    let t = Tuning { atlas_width: 16384, atlas_height: 16384, ..Tuning::default() };
    let a = atlas_from(&t);
    assert_eq!((a.slot_w, a.slot_h, a.cols, a.rows), (640, 360, 12, 22));
    let opts = Options { demo: true, tuning: Some(t), ..Options::default() };
    let app = Switchblade::with_options(&opts, None, false, 3, START);
    assert_eq!(app.slots.len(), 12 * 22);
}

#[test]
fn a_peek_without_time_shows_no_bar() {
    let mut app = playing(1);
    let now = START + 1_000 * MS;
    started(&mut app, now);
    app.modes.fullview = true;
    app.setup.tuning.chapter_peek = 0;
    app.open_chapter_bar(true, 0, now);
    assert!(app.chapters.is_none(), "no time, no peek");
    app.open_chapter_bar(false, 0, now);
    assert!(app.chapters.as_ref().is_some_and(|b| b.open && b.peek_until.is_none()));
    app.chapters = None;
    app.setup.tuning.chapter_peek = 2_000 * MS;
    app.open_chapter_bar(true, 0, now);
    let until = app.chapters.as_ref().and_then(|b| b.peek_until);
    assert_eq!(until, Some(now + 2_000 * MS));
}

#[test]
fn steps_go_on_from_chapter_to_chapter_without_a_bar() {
    let mut app = playing(1);
    let now = START + 1_000 * MS;
    started(&mut app, now);
    app.setup.tuning.chapter_peek = 0;
    let lay = layout(&app);
    app.key(Key::Tab, None, &lay, 0, true, now);
    let mut results = vec![MediaResult::ChapterTimes {
        path: 0,
        plan: ChapterPlan {
            times: vec![0, 2_700_000_000, 5_300_000_000],
            duration: Some(8 * SECOND),
        },
    }];
    app.drain_media(&mut results, &lay, zone(), 0, now);
    app.key(Key::Right, None, &lay, 0, true, now);
    assert!(app.take_effects().contains(&Effect::Seek { to: 2_700_000_000, exact: false }));
    assert!(app.chapters.is_none(), "no bar comes up");
    assert_eq!(app.modes.gone_to, Some(GoneTo { path: 0, chapter: 1 }));
    app.keep_bar();
    // The stream came to rest short of the chapter.
    app.key(Key::Right, None, &lay, 2 * SECOND, true, now);
    assert!(
        app.take_effects().contains(&Effect::Seek { to: 5_300_000_000, exact: false }),
        "the second step advances"
    );
    app.open_chapter_bar(false, 5 * SECOND, now);
    assert_eq!(app.chapters.as_ref().and_then(|b| b.nav), Some(2), "a bar takes it over");
    assert_eq!(app.modes.gone_to, None);
    assert_eq!(app.pickable_chapters(), 3);
    app.toggle_chapters(5 * SECOND, now);
    assert_eq!(app.pickable_chapters(), 0, "nothing is picked from a bar that goes down");
    app.land_bar(true);
    app.key(Key::Right, None, &lay, 6 * SECOND, true, now);
    assert_eq!(app.modes.gone_to, Some(GoneTo { path: 0, chapter: 0 }), "round the end");
    app.key(Key::Escape, None, &lay, 0, true, now);
    assert_eq!(app.modes.gone_to, None, "it goes with the full view");
}

#[test]
fn any_key_keeps_the_loop_awake() {
    let mut app = playing(2);
    let lay = layout(&app);
    let now = START + 60_000 * MS;
    app.key(Key::Char('y'), None, &lay, 0, true, now);
    assert_eq!(app.scene.wake_until, now + 600 * MS);
    assert!(app.is_animating(now + 599 * MS));
}

#[test]
fn storyboards_cycle_in_the_tiles_once_asked() {
    let mut app = playing(3);
    let lay = layout(&app);
    let now = START + 60_000 * MS;
    app.clips[2].anim = Thumb::Ready { slot: 9, at: START, tw: 960, th: 540 };
    let placed: Vec<Placed> = (0..3)
        .map(|clip| Placed { clip, rect: lay.tile_rect(clip), copy: None })
        .collect();
    let source = |app: &Switchblade| app.plan_tiles(&placed, false, now)[1].source;
    assert_eq!(source(&app), Source::Still { slot: 2, tw: 320, th: 180 });
    app.key(Key::Char('a'), None, &lay, 0, true, now);
    assert!(app.modes.animated_thumbs);
    assert_eq!(source(&app), Source::Sheet { slot: 9, tw: 960, th: 540 });
    app.scene.wake_until = 0;
    let plans = app.plan_tiles(&placed, false, now);
    app.keep_cycling(&plans, now);
    assert_eq!(app.scene.wake_until, now + SHEET_STEP);
    app.modes.focused = false;
    assert_eq!(source(&app), Source::Still { slot: 2, tw: 320, th: 180 }, "all rests");
    app.modes.focused = true;
    app.key(Key::Char('a'), None, &lay, 0, true, now);
    assert_eq!(source(&app), Source::Still { slot: 2, tw: 320, th: 180 });
    assert_eq!(cell_of(2, 9, 0), 2, "each tile is a cell on");
    assert_eq!(cell_of(2, 9, 7 * SHEET_STEP), 0);
}

#[test]
fn chips_are_drawn_with_the_chosen_one_on_top() {
    let mut app = playing(3);
    app.modes.quickview = true;
    app.refs.selected = 0;
    app.refs.strip_hover = Some(1);
    app.clips[2].thumb = Thumb::Absent;
    app.lanes.live_hover = Some(LiveState {
        clip: 1,
        slot: 8,
        first_frame: Some(START),
        generation: 4,
        served: 1,
    });
    let chips: Vec<Chip> = (0..4)
        .map(|clip| Chip { clip, cx: clip as i128 * 100_000_000, w: 90_000_000 })
        .collect();
    let plan = app.plan_strip(&chips);
    let seen: Vec<(usize, Standing, Source)> =
        plan.iter().map(|c| (c.clip, c.standing, c.source)).collect();
    assert_eq!(
        seen,
        vec![
            (2, Standing::Plain, Source::Blank),
            (1, Standing::Hovered, Source::Lane { slot: 8 }),
            (0, Standing::Chosen, Source::Still { slot: 0, tw: 320, th: 180 }),
        ]
    );
    assert_eq!((plan[1].cx, plan[1].w), (100_000_000, 90_000_000));
}

#[test]
fn the_chapter_row_draws_what_is_in_sight() {
    let mut app = playing(1);
    let now = START + 1_000 * MS;
    started(&mut app, now);
    app.open_chapter_bar(false, 0, now);
    app.clips[0].anim = Thumb::Pending;
    let bar = app.chapters.as_mut().unwrap();
    bar.times = Some((0..20).map(|k| k * SECOND).collect());
    bar.duration = Some(20 * SECOND);
    // Chips of a hundred pixels in a window of five hundred: three either side.
    let row = ChapterRow {
        cw: 90_000_000,
        ch: 50_000_000,
        gap: 10_000_000,
        base_y: 0,
        slide: 1_000_000_000,
        pos: 10_400_000,
    };
    let vw = 500_000_000;
    let plan = app.plan_chapters(&row, vw, Some(9), Some(12), 3);
    let order: Vec<usize> = plan.iter().map(|c| c.chapter).collect();
    assert_eq!(order, vec![7, 8, 10, 11, 13, 12, 9]);
    assert_eq!(plan[6].standing, Standing::Chosen);
    assert_eq!(plan[5].standing, Standing::Hovered);
    assert_eq!(plan[2].cx, 250_000_000 - 40_000_000);
    assert!(plan.iter().all(|c| c.waits && c.cell.is_none()), "the storyboard may still come");
    app.clips[0].anim = Thumb::Ready { slot: 9, at: START, tw: 960, th: 540 };
    let plan = app.plan_chapters(&row, vw, None, None, 3);
    // Half of the clip is gone at chapter ten: the middle one of nine frames.
    assert_eq!((plan[3].chapter, plan[3].cell, plan[3].waits), (10, Some((1, 1)), false));
    app.chapters = None;
    assert!(app.plan_chapters(&row, vw, None, None, 3).is_empty());
}

#[test]
fn rows_are_found_up_to_the_last() {
    let app = playing(30);
    let asp: Vec<Aspect> = (0..30).map(|i| app.chip_aspect(i, None)).collect();
    let s = Shape {
        vw: 1_280_000_000,
        gap: 2_000_000,
        tile_w: 240_000_000,
        tile_h: 135_000_000,
        zoom: WHOLE,
        rmin: 620_000,
        rmax: 1_600_000,
    };
    for flexible in [false, true] {
        let lay = layout_with(&s, &asp, flexible, None);
        let n = lay.rows();
        assert!(n > 2);
        assert_eq!(lay.row_at_y(-5), 0);
        assert_eq!(lay.row_at_y(0), 0);
        let second = lay.tile_rect(lay.row_range(1).0);
        assert_eq!(lay.row_at_y(second.y), 1);
        assert_eq!(lay.row_at_y(second.y - 1), 0);
        assert_eq!(lay.row_at_y(i128::MAX), n - 1);
        let t = lay.tile_rect(7);
        assert_eq!(lay.tile_middle(7, 5_000_000), (t.x + t.w / 2, t.y + t.h / 2 - 5_000_000));
    }
}
