use dataviewer::canvas::DrawCmd;
use dataviewer::chart::ViewRect;
use dataviewer::dataview::{Chart, DataView, File};
use dataviewer::dataviewer::DataViewer;
use dataviewer::xy::XY;

const S: i64 = 100_000_000;

/// A viewer over a 100x100 surface showing [0,100]x[0,100] in data units,
/// so one data unit is one pixel, with the pointer at pixel (50,50).
fn viewer(data: Vec<(String, Vec<i64>)>) -> DataViewer {
    DataViewer {
        file: File { dataview: DataView::default(), chart: Vec::new(), data },
        chart: Some(XY),
        view: ViewRect { x_min: 0, x_max: 100 * S, y_min: 0, y_max: 100 * S },
        width: 100,
        height: 100,
        mouse_is_pressed: false,
        mouse_xref: 50,
        mouse_yref: 50,
        redraw_timer: None,
        autoview: false,
    }
}

/// Data point that lands on the given pixel (y axis flipped, height 100).
fn at_pixel(px: i64, py: i64) -> (i64, i64) {
    (px * S, (100 - py) * S)
}

#[test]
fn tooltip_picks_the_nearer_of_two_points() {
    // squared pixel distances 50 and 145 from the pointer at (50,50)
    let a = at_pixel(55, 55);
    let b = at_pixel(58, 59);
    let data = vec![("a".to_string(), vec![a.0, a.1, b.0, b.1])];
    let mut dv = viewer(data);
    let (_, tooltip) = dv.draw(100, 100);
    let t = tooltip.expect("a point within the threshold");
    assert_eq!(t.key, "a");
    assert_eq!(t.xpixel, 55);
    assert_eq!(t.ypixel, 55);
    assert_eq!(t.x, 55 * S);
    assert_eq!(t.y, 45 * S);
}

#[test]
fn tooltip_spans_all_series() {
    let a = at_pixel(58, 59);
    let b = at_pixel(55, 55);
    let data = vec![
        ("far".to_string(), vec![a.0, a.1, 0, 0]),
        ("near".to_string(), vec![b.0, b.1, 0, 0]),
    ];
    let mut dv = viewer(data);
    let (_, tooltip) = dv.draw(100, 100);
    let t = tooltip.expect("a point within the threshold");
    assert_eq!(t.key, "near");
}

#[test]
fn no_tooltip_beyond_the_threshold() {
    // a single point at squared distance 250: over the 200 px² threshold
    let a = at_pixel(65, 55);
    let data = vec![("a".to_string(), vec![a.0, a.1, 0, 0])];
    let mut dv = viewer(data);
    let (_, tooltip) = dv.draw(100, 100);
    assert!(tooltip.is_none());
}

#[test]
fn no_tooltip_at_exactly_the_threshold() {
    // squared distance exactly 200 does not qualify
    let a = at_pixel(60, 60);
    let data = vec![("a".to_string(), vec![a.0, a.1, 0, 0])];
    let mut dv = viewer(data);
    let (_, tooltip) = dv.draw(100, 100);
    assert!(tooltip.is_none());
}

#[test]
fn single_point_series_contributes_no_tooltip() {
    // fewer than two points: drawn not at all, no tooltip candidate
    let a = at_pixel(50, 50);
    let data = vec![("a".to_string(), vec![a.0, a.1])];
    let mut dv = viewer(data);
    let (_, tooltip) = dv.draw(100, 100);
    assert!(tooltip.is_none());
}

#[test]
fn empty_document_draws_axes_only() {
    let mut dv = viewer(Vec::new());
    let (cmds, tooltip) = dv.draw(100, 100);
    assert!(tooltip.is_none());
    assert!(matches!(cmds[0], DrawCmd::SetColor { .. }));
    assert!(cmds.iter().any(|c| matches!(c, DrawCmd::Stroke)));
}

#[test]
fn series_are_drawn_as_polylines_with_markers() {
    let data = vec![("a".to_string(), vec![0, 0, 50 * S, 50 * S, 100 * S, 100 * S])];
    let mut dv = viewer(data);
    dv.mouse_xref = 0;
    dv.mouse_yref = 0;
    let (cmds, _) = dv.draw(100, 100);
    let lines: Vec<(i64, i64)> = cmds
        .iter()
        .filter_map(|c| match c {
            DrawCmd::LineTo { x, y } => Some((*x, *y)),
            _ => None,
        })
        .collect();
    // the axis lines contribute two LineTo, the series two more
    assert!(lines.contains(&(50, 50)));
    assert!(lines.contains(&(100, 0)));
    let circles = cmds
        .iter()
        .filter(|c| matches!(c, DrawCmd::Circle { .. }))
        .count();
    assert_eq!(circles, 3);
}

#[test]
fn tick_labels_appear_with_span_precision() {
    let mut dv = viewer(Vec::new());
    dv.view = ViewRect { x_min: 0, x_max: 10 * S, y_min: 0, y_max: 10 * S };
    let (cmds, _) = dv.draw(100, 100);
    let texts: Vec<String> = cmds
        .iter()
        .filter_map(|c| match c {
            DrawCmd::Text { text, .. } => Some(text.clone()),
            _ => None,
        })
        .collect();
    assert!(texts.iter().any(|t| t == "0.0000"));
    assert!(texts.iter().any(|t| t == "1.0000"));
    assert!(texts.iter().any(|t| t == "10.0000"));
}

#[test]
fn tooltip_text_uses_metadata_and_trimmed_values() {
    let a = at_pixel(55, 55);
    let mut dv = viewer(vec![("a".to_string(), vec![a.0, a.1, 0, 0])]);
    dv.file.chart.push((
        "a".to_string(),
        Chart { title: Some("Temp".to_string()), description: None },
    ));
    dv.file.dataview.x_title = Some("time".to_string());
    dv.file.dataview.x_unit = Some("s".to_string());
    let (cmds, tooltip) = dv.draw(100, 100);
    assert!(tooltip.is_some());
    let texts: Vec<String> = cmds
        .iter()
        .filter_map(|c| match c {
            DrawCmd::Text { text, .. } => Some(text.clone()),
            _ => None,
        })
        .collect();
    assert!(texts.iter().any(|t| t == "[Temp]"));
    assert!(texts.iter().any(|t| t == "time: 55 s"));
    assert!(texts.iter().any(|t| t == "y: 45 "));
}

#[test]
fn no_chart_draws_nothing() {
    let mut dv = DataViewer::new();
    let (cmds, tooltip) = dv.draw(100, 100);
    assert!(cmds.is_empty());
    assert!(tooltip.is_none());
}
