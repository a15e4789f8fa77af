use switchblade::grid::Rect;
use switchblade::picture::{crop, emphasised};

const PX: i128 = 1_000_000;

#[test]
fn the_middle_of_a_picture_is_shown() {
    assert_eq!(
        crop(1920, 1080, 100 * PX, 100 * PX),
        Rect { x: 420 * PX, y: 0, w: 1080 * PX, h: 1080 * PX }
    );
    assert_eq!(
        crop(1080, 1920, 160 * PX, 90 * PX),
        Rect { x: 0, y: 656_250_000, w: 1080 * PX, h: 607_500_000 }
    );
    assert_eq!(
        crop(640, 360, 160 * PX, 90 * PX),
        Rect { x: 0, y: 0, w: 640 * PX, h: 360 * PX }
    );
}

#[test]
fn a_tile_that_stands_out_grows_to_its_shape() {
    // Half way from a square to 16:9.
    assert_eq!(
        emphasised(90 * PX, 90 * PX, 1600, 900, 2 * PX, 500_000),
        (125 * PX, 90 * PX)
    );
    assert_eq!(
        emphasised(90 * PX, 90 * PX, 900, 1600, 2 * PX, 1_000_000),
        (90 * PX, 160 * PX)
    );
    assert_eq!(emphasised(90 * PX, 90 * PX, 900, 1600, 2 * PX, 0), (90 * PX, 90 * PX));
    assert_eq!(
        emphasised(90 * PX, 90 * PX, 3000, 1000, 2 * PX, 1_000_000),
        (180 * PX, 90 * PX),
        "no wider than it may be"
    );
}
