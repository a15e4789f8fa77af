use switchblade::handoff::{frame_name, pixmap_header, plain_stem, rgb_pixels};

#[test]
fn names_are_made_plain_and_short() {
    assert_eq!(plain_stem("My clip (1)-ü"), "My_clip__1__ü");
    let long = "x".repeat(20) + &"y".repeat(48);
    assert_eq!(plain_stem(&long), "y".repeat(48));
    assert_eq!(plain_stem(""), "");
}

#[test]
fn frames_are_named_after_where_they_come_from() {
    assert_eq!(
        frame_name("clip", "hover", 12, 3, 1_234_567_890),
        "clip__hover_g12_f3_pts1.235.ppm"
    );
    assert_eq!(frame_name("c", "sel", 0, 0, 0), "c__sel_g0_f0_pts0.000.ppm");
}

#[test]
fn pixels_lose_their_fourth_channel() {
    assert_eq!(pixmap_header(640, 360), "P6\n640 360\n255\n");
    let rgba = vec![1, 2, 3, 4, 5, 6, 7, 8, 9];
    assert_eq!(rgb_pixels(&rgba, 2, 1), Some(vec![1, 2, 3, 5, 6, 7]));
    assert_eq!(rgb_pixels(&rgba, 3, 1), None);
    assert_eq!(rgb_pixels(&rgba, 0, 9), Some(vec![]));
}
