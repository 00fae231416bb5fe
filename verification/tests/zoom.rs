use snapr::geometry::Rect;
use snapr::projection::Coord;
use snapr::projection::WORLD_UNITS;
use snapr::zoom::select_zoom;
use snapr::zoom::DEFAULT_MAX_ZOOM;
use snapr::Zoom;

fn span(width: i64, height: i64) -> Rect {
    Rect { min: Coord { x: 1000, y: -2000 }, max: Coord { x: 1000 + width, y: -2000 + height } }
}

#[test]
fn the_default_policy_is_automatic_up_to_seventeen() {
    assert_eq!(DEFAULT_MAX_ZOOM, 17);
    assert_eq!(Zoom::default(), Zoom::Automatic(17));
}

#[test]
fn a_single_position_takes_the_highest_level() {
    assert_eq!(select_zoom(&span(0, 0), 256, 800, 600, 17), 17);
    assert_eq!(select_zoom(&span(0, 0), 256, 800, 600, 0), 0);
    assert_eq!(select_zoom(&span(0, 0), 256, 0, 0, 30), 30);
}

#[test]
fn the_highest_fitting_level_is_selected() {
    // A 1024th of the world is 2^(level - 2) pixels wide with tiles of 256.
    let bounds = span(WORLD_UNITS / 1024, 0);
    assert_eq!(select_zoom(&bounds, 256, 800, 600, 17), 11);
    assert_eq!(select_zoom(&bounds, 256, 512, 600, 17), 11);
    assert_eq!(select_zoom(&bounds, 256, 511, 600, 17), 10);
    assert_eq!(select_zoom(&bounds, 256, 800, 600, 9), 9);
}

#[test]
fn both_axes_must_fit() {
    let bounds = span(WORLD_UNITS / 1024, WORLD_UNITS / 256);
    // The height is 2^level pixels: 512 at level 9.
    assert_eq!(select_zoom(&bounds, 256, 800, 600, 17), 9);
    assert_eq!(select_zoom(&bounds, 256, 800, 100, 17), 6);
}

#[test]
fn level_one_is_the_fallback() {
    let bounds = span(8 * WORLD_UNITS, 0);
    assert_eq!(select_zoom(&bounds, 256, 800, 600, 17), 1);
    assert_eq!(select_zoom(&bounds, 256, 800, 600, 0), 1);
}

#[test]
fn shrinking_the_output_does_not_raise_the_level() {
    let bounds = span(WORLD_UNITS / 1024, WORLD_UNITS / 2048);
    let mut last = select_zoom(&bounds, 256, 2000, 2000, 17);
    for size in (1..2000u32).rev().step_by(7) {
        let zoom = select_zoom(&bounds, 256, size, size, 17);
        assert!(zoom <= last, "{} at {} after {}", zoom, size, last);
        last = zoom;
    }
}

#[test]
fn the_fallback_can_raise_level_zero() {
    // 700 pixels wide at level 0.
    let bounds = span(700 * (WORLD_UNITS / 256), 0);
    assert_eq!(select_zoom(&bounds, 256, 800, 600, 17), 0);
    assert_eq!(select_zoom(&bounds, 256, 600, 600, 17), 1);
}

#[test]
fn a_box_turned_inside_out_fits_everywhere() {
    let bounds = Rect { min: Coord { x: 5, y: 5 }, max: Coord { x: -5, y: -5 } };
    assert_eq!(select_zoom(&bounds, 256, 800, 600, 17), 17);
}
