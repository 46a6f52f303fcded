use dataviewer::chart::ViewRect;
use dataviewer::dataview::{DataView, File};
use dataviewer::xy::XY;

const S: i64 = 100_000_000;

fn doc(values: Vec<i64>) -> File {
    File {
        dataview: DataView::default(),
        chart: Vec::new(),
        data: vec![("a".to_string(), values)],
    }
}

#[test]
fn autoscale_single_series_bbox() {
    let file = doc(vec![0, 0, 10 * S, 10 * S]);
    let bb = ViewRect::xy_minmax(&file);
    assert_eq!(bb, ViewRect { x_min: 0, x_max: 10 * S, y_min: 0, y_max: 10 * S });
}

#[test]
fn autoscale_bbox_unchanged_by_origin_inclusion() {
    let bb = ViewRect { x_min: 0, x_max: 10 * S, y_min: 0, y_max: 10 * S };
    assert_eq!(bb.show_axis(), bb);
}

#[test]
fn autoscale_margin_seven_percent() {
    let bb = ViewRect { x_min: 0, x_max: 10 * S, y_min: 0, y_max: 10 * S };
    let m = bb.margin();
    assert_eq!(
        m,
        ViewRect {
            x_min: -7 * S / 10,
            x_max: 10 * S + 7 * S / 10,
            y_min: -7 * S / 10,
            y_max: 10 * S + 7 * S / 10,
        }
    );
}

#[test]
fn autoscale_full_pipeline() {
    let file = doc(vec![0, 0, 10 * S, 10 * S]);
    let v = XY.view(&file);
    assert_eq!(
        v,
        ViewRect {
            x_min: -70_000_000,
            x_max: 1_070_000_000,
            y_min: -70_000_000,
            y_max: 1_070_000_000,
        }
    );
}

#[test]
fn degenerate_empty_series_falls_back() {
    let file = doc(vec![]);
    let v = ViewRect::xy_minmax(&file).sanity_check(&file);
    assert_eq!(v, ViewRect { x_min: -S, x_max: S, y_min: -S, y_max: S });
}

#[test]
fn degenerate_length_one_falls_back() {
    let file = doc(vec![5 * S]);
    let v = ViewRect::xy_minmax(&file).sanity_check(&file);
    assert_eq!(v, ViewRect { x_min: -S, x_max: S, y_min: -S, y_max: S });
}

#[test]
fn degenerate_single_pair_falls_back() {
    let file = doc(vec![3 * S, 4 * S]);
    let v = ViewRect::xy_minmax(&file).sanity_check(&file);
    assert_eq!(v, ViewRect { x_min: -S, x_max: S, y_min: -S, y_max: S });
}

#[test]
fn equal_nonzero_points_keep_their_rectangle() {
    // origin inclusion gives both zero spans their width back, so the
    // tight rectangle survives the guard
    let file = doc(vec![3 * S, 4 * S, 3 * S, 4 * S]);
    let v = ViewRect::xy_minmax(&file).sanity_check(&file);
    assert_eq!(v, ViewRect { x_min: 3 * S, x_max: 3 * S, y_min: 4 * S, y_max: 4 * S });
    let full = XY.view(&file);
    assert_eq!(
        full,
        ViewRect { x_min: -21_000_000, x_max: 3 * S + 21_000_000, y_min: -28_000_000, y_max: 4 * S
            + 28_000_000 }
    );
}

#[test]
fn vertical_line_stays_in_view() {
    // two points sharing one x: the view keeps them, via origin inclusion
    let file = doc(vec![5 * S, 1 * S, 5 * S, 9 * S]);
    let v = XY.view(&file);
    assert_eq!(
        v,
        ViewRect { x_min: -35_000_000, x_max: 5 * S + 35_000_000, y_min: -63_000_000, y_max: 9 * S
            + 63_000_000 }
    );
    assert!(v.x_min <= 5 * S && 5 * S <= v.x_max);
    assert!(v.y_min <= 1 * S && 9 * S <= v.y_max);
}

#[test]
fn flat_signal_stays_in_view() {
    // a horizontal line at a nonzero height keeps its points in view
    let file = doc(vec![1 * S, 5 * S, 9 * S, 5 * S]);
    let v = XY.view(&file);
    assert!(v.x_min <= 1 * S && 9 * S <= v.x_max);
    assert!(v.y_min <= 5 * S && 5 * S <= v.y_max);
    assert!(v.y_min <= 0 && 0 <= v.y_max);
}

#[test]
fn axis_constant_at_zero_falls_back() {
    // x is zero everywhere: origin inclusion cannot give the x axis a
    // span, so the fixed fallback is used
    let file = doc(vec![0, 1 * S, 0, 9 * S]);
    let v = ViewRect::xy_minmax(&file).sanity_check(&file);
    assert_eq!(v, ViewRect { x_min: -S, x_max: S, y_min: -S, y_max: S });
}

#[test]
fn origin_inclusion_extends_toward_zero() {
    let bb = ViewRect { x_min: 5 * S, x_max: 10 * S, y_min: -8 * S, y_max: -2 * S };
    let a = bb.show_axis();
    assert_eq!(a, ViewRect { x_min: 0, x_max: 10 * S, y_min: -8 * S, y_max: 0 });
}

#[test]
fn margin_of_zero_span_axis_is_zero() {
    let bb = ViewRect { x_min: 3 * S, x_max: 3 * S, y_min: 0, y_max: 10 * S };
    let m = bb.margin();
    assert_eq!(m.x_min, 3 * S);
    assert_eq!(m.x_max, 3 * S);
    assert_eq!(m.y_min, -7 * S / 10);
    assert_eq!(m.y_max, 10 * S + 7 * S / 10);
}

#[test]
fn autoscale_spans_several_series() {
    let file = File {
        dataview: DataView::default(),
        chart: Vec::new(),
        data: vec![
            ("a".to_string(), vec![-2 * S, 0, S, S]),
            ("b".to_string(), vec![0, -5 * S, 4 * S, 3 * S]),
        ],
    };
    let bb = ViewRect::xy_minmax(&file);
    assert_eq!(bb, ViewRect { x_min: -2 * S, x_max: 4 * S, y_min: -5 * S, y_max: 3 * S });
}

#[test]
fn pairs_drops_odd_trailing_value() {
    let p = dataviewer::chart::pairs(&vec![1, 2, 3, 4, 5]);
    assert_eq!(p, vec![(1, 2), (3, 4)]);
}
