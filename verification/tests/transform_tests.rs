use dataviewer::canvas::Canvas;
use dataviewer::chart::ViewRect;

const S: i64 = 100_000_000;

fn canvas(width: i64, height: i64) -> Canvas {
    let view = ViewRect { x_min: 0, x_max: 10 * S, y_min: 0, y_max: 10 * S };
    Canvas::new(width, height, 0, 0, &view)
}

#[test]
fn x_min_maps_to_pixel_zero() {
    let c = canvas(100, 50);
    assert_eq!(c.x_pixel(0), 0);
}

#[test]
fn x_max_maps_to_pixel_width() {
    let c = canvas(100, 50);
    assert_eq!(c.x_pixel(10 * S), 100);
}

#[test]
fn y_min_maps_to_pixel_height() {
    let c = canvas(100, 50);
    assert_eq!(c.y_pixel(0), 50);
}

#[test]
fn y_max_maps_to_pixel_zero() {
    let c = canvas(100, 50);
    assert_eq!(c.y_pixel(10 * S), 0);
}

#[test]
fn midpoint_maps_to_half_surface() {
    let c = canvas(100, 50);
    assert_eq!(c.x_pixel(5 * S), 50);
    assert_eq!(c.y_pixel(5 * S), 25);
}

#[test]
fn points_outside_the_view_map_outside_the_surface() {
    let c = canvas(100, 50);
    assert_eq!(c.x_pixel(-5 * S), -50);
    assert_eq!(c.x_pixel(20 * S), 200);
}

#[test]
fn negative_view_bounds_map_linearly() {
    let view = ViewRect { x_min: -10 * S, x_max: 10 * S, y_min: -S, y_max: S };
    let c = Canvas::new(200, 100, 0, 0, &view);
    assert_eq!(c.x_pixel(-10 * S), 0);
    assert_eq!(c.x_pixel(0), 100);
    assert_eq!(c.x_pixel(10 * S), 200);
    assert_eq!(c.y_pixel(0), 50);
}
