use switchblade::camera::{pan_chapters, BarMotion, Camera, Chase, Scales, REACH};
use switchblade::grid::Rect;
use switchblade::model::ZoomStep;
use switchblade::overlay::{at_lower_edge, over_video};
use switchblade::start::Options;
use switchblade::state::Switchblade;

const PX: i128 = 1_000_000;
const ONE: i128 = 1_000_000;

fn camera() -> Camera {
    Camera {
        scroll: 0,
        scroll_target: 0,
        scroll_vel: 0,
        zoom: ONE,
        zoom_target: ONE,
        chase: Chase::Wheel,
        strip_pos: 0,
        strip_target: 0,
    }
}

#[test]
fn keys_zoom_in_steps_within_bounds() {
    let mut c = camera();
    c.zoom_by(ZoomStep::In, 350_000, 3_000_000);
    assert_eq!(c.zoom_target, 1_150_000);
    c.zoom_by(ZoomStep::Out, 350_000, 3_000_000);
    assert_eq!(c.zoom_target, ONE);
    for _ in 0..20 {
        c.zoom_by(ZoomStep::In, 350_000, 3_000_000);
    }
    assert_eq!(c.zoom_target, 3_000_000);
    for _ in 0..40 {
        c.zoom_by(ZoomStep::Out, 350_000, 3_000_000);
    }
    assert_eq!(c.zoom_target, 350_000);
    c.zoom_by(ZoomStep::Reset, 350_000, 3_000_000);
    assert_eq!(c.zoom_target, ONE);
    assert_eq!(c.zoom, ONE, "the zoom itself follows frame by frame");
}

#[test]
fn pinches_multiply_the_zoom() {
    let mut c = camera();
    c.pinch(250_000_000, ONE, 350_000, 3_000_000);
    assert_eq!(c.zoom_target, 1_250_000);
    c.pinch(-2_000_000_000, ONE, 1_000, 3_000_000);
    assert_eq!(c.zoom_target, 12_500, "no pinch goes below a hundredth");
    let mut c = camera();
    assert!(c.pinch_held(100_000_000, 2 * ONE, 350_000, 3_000_000));
    assert_eq!((c.zoom, c.zoom_target), (1_200_000, 1_200_000));
    assert!(!c.pinch_held(0, ONE, 350_000, 3_000_000));
    let mut c = Camera { zoom: 3_000_000, zoom_target: 3_000_000, ..camera() };
    assert!(!c.pinch_held(100_000_000, ONE, 350_000, 3_000_000), "at the bound nothing moves");
}

#[test]
fn a_tile_is_brought_to_the_middle() {
    let mut c = Camera { scroll_vel: 5, ..camera() };
    c.scroll_to(1_000 * PX, 100 * PX, 600 * PX, 5_000 * PX);
    assert_eq!(c.scroll_target, 750 * PX);
    assert_eq!((c.scroll_vel, c.chase), (0, Chase::Keys));
    c.scroll_to(0, 100 * PX, 600 * PX, 5_000 * PX);
    assert_eq!(c.scroll_target, 0);
    c.scroll_to(9_000 * PX, 100 * PX, 600 * PX, 5_000 * PX);
    assert_eq!(c.scroll_target, 5_000 * PX);
}

#[test]
fn the_wheel_pans_against_its_turn() {
    let mut c = camera();
    c.pan(-30_000_000, 2 * ONE);
    assert_eq!(c.scroll_target, 60 * PX);
    assert_eq!(c.scroll_vel, 1_080 * PX);
    c.pan(-30_000_000, 2 * ONE);
    assert_eq!(c.scroll_target, 120 * PX);
    assert_eq!(c.scroll_vel, 756 * PX + 1_080 * PX);
    assert_eq!(c.chase, Chase::Wheel);
    let mut far = Camera { scroll_target: REACH, ..camera() };
    far.pan(-30_000_000, 2 * ONE);
    assert_eq!(far.scroll_target, REACH);
}

#[test]
fn zoom_glides_snaps_or_is_held() {
    let start = Camera { zoom_target: 2 * ONE, ..camera() };
    let mut c = start;
    assert!(c.step_zoom(false, false, 250_000));
    assert_eq!(c.zoom, 1_250_000);
    let mut c = start;
    assert!(c.step_zoom(false, true, 250_000));
    assert_eq!(c.zoom, 2 * ONE);
    let mut c = start;
    assert!(!c.step_zoom(true, true, 250_000));
    assert_eq!(c.zoom, ONE);
    let mut c = start;
    assert!(c.step_zoom(false, false, ONE));
    assert_eq!(c.zoom, 2 * ONE, "a whole step arrives");
}

#[test]
fn what_is_in_the_middle_stays_there() {
    let mut c = Camera { scroll: 700 * PX, scroll_target: 700 * PX, ..camera() };
    c.anchor(2_000 * PX, 4_000 * PX, 600 * PX);
    assert_eq!(c.scroll, 1_700 * PX);
    assert_eq!(c.scroll_target, 1_700 * PX);
    let before = c;
    c.anchor(0, 4_000 * PX, 600 * PX);
    assert_eq!(c, before);
}

#[test]
fn a_target_beyond_the_bounds_is_drawn_back() {
    let mut c = Camera { scroll_target: -100 * PX, scroll_vel: 9, ..camera() };
    c.band(false, 500 * PX, 500_000);
    assert_eq!((c.scroll_target, c.scroll_vel), (-50 * PX, 0));
    let mut c = Camera { scroll_target: -PX / 2, ..camera() };
    c.band(false, 500 * PX, 900_000);
    assert_eq!(c.scroll_target, 0);
    let mut c = Camera { scroll_target: 600 * PX, ..camera() };
    c.band(false, 500 * PX, 250_000);
    assert_eq!(c.scroll_target, 525 * PX);
    let mut c = Camera { scroll_target: 300 * PX, scroll_vel: 9, ..camera() };
    let before = c;
    c.band(false, 500 * PX, 250_000);
    assert_eq!(c, before);
    let mut c = Camera { scroll: 7, scroll_target: -100 * PX, scroll_vel: 9, ..camera() };
    c.band(true, 500 * PX, 250_000);
    assert_eq!((c.scroll_target, c.scroll_vel), (7, 0));
}

#[test]
fn the_camera_coasts_and_slows_down() {
    let mut c = Camera { scroll_vel: 600 * PX, ..camera() };
    c.coast(500_000_000, 900_000);
    assert_eq!(c.scroll_target, 300 * PX);
    assert_eq!(c.scroll_vel, 540 * PX);
}

#[test]
fn the_camera_chases_its_target() {
    let mut c = Camera { scroll_target: 100 * PX, ..camera() };
    assert!(c.chase_target(false, 500_000));
    assert_eq!(c.scroll, 50 * PX);
    assert!(!c.chase_target(true, 500_000), "behind a view nothing is on its way");
    assert_eq!(c.scroll, 100 * PX);
    let mut c = Camera { scroll_target: 100_000, ..camera() };
    assert!(!c.chase_target(false, 0), "a third of a pixel counts as rest");
}

#[test]
fn the_filmstrip_pans_and_homes() {
    let mut c = camera();
    // A wheel turn of two chips and a half to the left.
    assert_eq!(c.pan_strip(-250_000_000, 10, ONE, 100 * PX, 10), Some(3));
    assert_eq!(c.strip_target, 2_500_000);
    assert_eq!(c.pan_strip(0, -2_000_000_000, ONE, 100 * PX, 10), Some(9));
    assert_eq!(c.strip_target, 9 * ONE);
    assert_eq!(c.pan_strip(0, 5, ONE, 100 * PX, 0), None);
    assert_eq!(c.pan_strip(0, 5, ONE, PX, 10), None);
    assert!(c.step_strip(Some(4), 500_000));
    assert_eq!((c.strip_target, c.strip_pos), (4 * ONE, 2 * ONE));
    assert!(!c.step_strip(None, ONE));
    assert_eq!(c.strip_pos, 4 * ONE);
    c.put_strip(7);
    assert_eq!((c.strip_target, c.strip_pos), (7 * ONE, 7 * ONE));
}

#[test]
fn the_chapter_row_pans_within_its_bounds() {
    assert_eq!(pan_chapters(3 * ONE, 0, -100_000_000, ONE, 100 * PX, (ONE, 6 * ONE)), 4 * ONE);
    assert_eq!(pan_chapters(3 * ONE, 900_000_000, 0, ONE, 100 * PX, (ONE, 6 * ONE)), ONE);
    assert_eq!(pan_chapters(3 * ONE, 900_000_000, 0, ONE, PX, (ONE, 6 * ONE)), 3 * ONE);
}

#[test]
fn springs_follow_selection_and_hover() {
    let opts = Options { demo: true, no_config: true, ..Options::default() };
    let mut app = Switchblade::with_options(&opts, None, false, 3, 0);
    app.refs.selected = 1;
    app.refs.hovered = Some(2);
    let scales = Scales { selected: 1_200_000, hovered: 1_100_000 };
    let at = |app: &Switchblade, i: usize| (app.clips[i].scale, app.clips[i].emph);
    app.spring_tiles(false, scales, 500_000);
    assert!(app.scene.motion);
    assert_eq!(at(&app, 0), (1_000_000, 0));
    assert_eq!(at(&app, 1), (1_100_000, 500_000));
    assert_eq!(at(&app, 2), (1_050_000, 500_000));
    app.spring_tiles(false, scales, ONE);
    assert!(app.scene.motion, "it was on its way");
    app.spring_tiles(false, scales, ONE);
    assert!(!app.scene.motion);
    assert_eq!(at(&app, 1), (1_200_000, 1_000_000));
    app.spring_tiles(true, scales, ONE);
    assert!(app.scene.motion, "the camera is");
    app.refs.selected = 0;
    app.modes.quickview = true;
    app.spring_tiles(false, scales, ONE);
    assert!(!app.scene.motion);
    assert_eq!(at(&app, 1), (1_200_000, 1_000_000), "behind a view the tiles rest");
}

#[test]
fn a_closing_bar_lands() {
    let mut b = BarMotion { slide: 0, pos: 0, target: 2 * ONE };
    assert_eq!(b.step(true, 500_000), (true, false));
    assert_eq!((b.slide, b.pos), (500_000, ONE));
    assert_eq!(b.step(true, ONE), (false, false));
    assert_eq!(b.step(false, ONE), (false, true));
    assert_eq!(b.slide, 0);
}

#[test]
fn the_pointer_reaches_a_little_below_the_video() {
    let r = Rect { x: 10 * PX, y: 20 * PX, w: 100 * PX, h: 50 * PX };
    assert!(over_video(&r, 10 * PX, 20 * PX));
    assert!(over_video(&r, 110 * PX, 82 * PX));
    assert!(!over_video(&r, 110 * PX, 82 * PX + 1));
    assert!(!over_video(&r, 9 * PX, 30 * PX));
    assert!(at_lower_edge(594 * PX, 600 * PX, 6 * PX));
    assert!(!at_lower_edge(593 * PX, 600 * PX, 6 * PX));
    assert!(!at_lower_edge(600 * PX, 600 * PX, 0));
}
