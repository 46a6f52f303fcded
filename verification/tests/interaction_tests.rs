use dataviewer::chart::ViewRect;
use dataviewer::dataview::File;
use dataviewer::dataviewer::DataViewer;
use dataviewer::xy::XY;

const S: i64 = 100_000_000;

fn viewer(view: ViewRect, width: i64, height: i64) -> DataViewer {
    DataViewer {
        file: File::default(),
        chart: Some(XY),
        view,
        width,
        height,
        mouse_is_pressed: false,
        mouse_xref: 0,
        mouse_yref: 0,
        redraw_timer: None,
        autoview: true,
    }
}

#[test]
fn zoom_in_shrinks_span_ten_percent_each_side() {
    // {0,10,0,10} zoomed in becomes {1,9,1,9}
    let mut dv = viewer(ViewRect { x_min: 0, x_max: 10 * S, y_min: 0, y_max: 10 * S }, 100, 100);
    dv.mouse_scroll(1);
    assert_eq!(dv.view, ViewRect { x_min: S, x_max: 9 * S, y_min: S, y_max: 9 * S });
}

#[test]
fn zoom_out_grows_span_ten_percent_each_side() {
    let mut dv = viewer(ViewRect { x_min: 0, x_max: 10 * S, y_min: 0, y_max: 10 * S }, 100, 100);
    dv.mouse_scroll(-1);
    assert_eq!(dv.view, ViewRect { x_min: -S, x_max: 11 * S, y_min: -S, y_max: 11 * S });
}

#[test]
fn zoom_disables_autoview() {
    let mut dv = viewer(ViewRect { x_min: 0, x_max: 10 * S, y_min: 0, y_max: 10 * S }, 100, 100);
    assert!(dv.autoview);
    dv.mouse_scroll(1);
    assert!(!dv.autoview);
}

#[test]
fn full_width_drag_shifts_by_one_span() {
    // a drag of (width, 0) moves x_min and x_max by exactly -span
    let mut dv = viewer(ViewRect { x_min: 0, x_max: 10 * S, y_min: 0, y_max: 10 * S }, 100, 50);
    dv.mouse_clicked(0, 0);
    dv.mouse_moved(100, 0);
    assert_eq!(dv.view, ViewRect { x_min: -10 * S, x_max: 0, y_min: 0, y_max: 10 * S });
}

#[test]
fn half_width_drag_shifts_by_half_a_span() {
    let mut dv = viewer(ViewRect { x_min: 0, x_max: 10 * S, y_min: 0, y_max: 10 * S }, 100, 50);
    dv.mouse_clicked(10, 20);
    dv.mouse_moved(60, 20);
    assert_eq!(dv.view, ViewRect { x_min: -5 * S, x_max: 5 * S, y_min: 0, y_max: 10 * S });
}

#[test]
fn vertical_drag_shifts_y_with_flip() {
    // dragging down (pixel y grows) moves the view window up in data space
    let mut dv = viewer(ViewRect { x_min: 0, x_max: 10 * S, y_min: 0, y_max: 10 * S }, 100, 100);
    dv.mouse_clicked(0, 0);
    dv.mouse_moved(0, 50);
    assert_eq!(dv.view, ViewRect { x_min: 0, x_max: 10 * S, y_min: 5 * S, y_max: 15 * S });
}

#[test]
fn pan_disables_autoview_and_updates_reference() {
    let mut dv = viewer(ViewRect { x_min: 0, x_max: 10 * S, y_min: 0, y_max: 10 * S }, 100, 100);
    dv.mouse_clicked(3, 4);
    assert!(dv.mouse_is_pressed());
    dv.mouse_moved(13, 24);
    assert!(!dv.autoview);
    assert_eq!(dv.mouse_xref, 13);
    assert_eq!(dv.mouse_yref, 24);
}

#[test]
fn moving_without_press_only_tracks_the_pointer() {
    let mut dv = viewer(ViewRect { x_min: 0, x_max: 10 * S, y_min: 0, y_max: 10 * S }, 100, 100);
    dv.mouse_moved(42, 17);
    assert_eq!(dv.view, ViewRect { x_min: 0, x_max: 10 * S, y_min: 0, y_max: 10 * S });
    assert!(dv.autoview);
    assert_eq!(dv.mouse_xref, 42);
    assert_eq!(dv.mouse_yref, 17);
}

#[test]
fn release_leaves_dragging_state() {
    let mut dv = viewer(ViewRect { x_min: 0, x_max: 10 * S, y_min: 0, y_max: 10 * S }, 100, 100);
    dv.mouse_clicked(0, 0);
    dv.mouse_released();
    assert!(!dv.mouse_is_pressed());
}

#[test]
fn redraw_timer_is_cancelled_and_replaced() {
    let mut dv = viewer(ViewRect { x_min: 0, x_max: 10 * S, y_min: 0, y_max: 10 * S }, 100, 100);
    assert_eq!(dv.set_redraw_timer(Some(7)), None);
    assert_eq!(dv.set_redraw_timer(Some(8)), Some(7));
    assert_eq!(dv.set_redraw_timer(None), Some(8));
    assert_eq!(dv.redraw_timer, None);
}

#[test]
fn autoview_reenable_recomputes_the_view() {
    let mut dv = viewer(ViewRect { x_min: 0, x_max: 10 * S, y_min: 0, y_max: 10 * S }, 100, 100);
    dv.file.data.push(("a".to_string(), vec![0, 0, 10 * S, 10 * S]));
    dv.mouse_scroll(1);
    assert!(!dv.autoview);
    dv.set_autoview(true);
    assert!(dv.autoview);
    assert_eq!(
        dv.view,
        ViewRect {
            x_min: -70_000_000,
            x_max: 1_070_000_000,
            y_min: -70_000_000,
            y_max: 1_070_000_000,
        }
    );
}
