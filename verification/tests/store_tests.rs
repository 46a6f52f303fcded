use dataviewer::dataview::{Chart, DataView, File, Type};
use dataviewer::dataviewer::{DataViewer, LoadError};
use dataviewer::server::{classify_message, MessageAction};

const S: i64 = 100_000_000;

fn empty_file() -> File {
    File { dataview: DataView::default(), chart: Vec::new(), data: Vec::new() }
}

#[test]
fn append_to_existing_series_concatenates_in_order() {
    let mut dv = DataViewer::new();
    let mut file = empty_file();
    file.data.push(("a".to_string(), vec![S, 2 * S, 3 * S, 4 * S]));
    dv.load(file).unwrap();

    let mut update = empty_file();
    update.data.push(("a".to_string(), vec![5 * S, 6 * S]));
    dv.update(update);

    assert_eq!(dv.file.data.len(), 1);
    assert_eq!(dv.file.data[0].1, vec![S, 2 * S, 3 * S, 4 * S, 5 * S, 6 * S]);
}

#[test]
fn append_to_unknown_series_is_a_no_op() {
    let mut dv = DataViewer::new();
    let mut file = empty_file();
    file.data.push(("a".to_string(), vec![S, 2 * S, 3 * S, 4 * S]));
    dv.load(file).unwrap();

    let mut update = empty_file();
    update.data.push(("nobody".to_string(), vec![9 * S]));
    dv.update(update);

    assert_eq!(dv.file.data.len(), 1);
    assert_eq!(dv.file.data[0].0, "a");
    assert_eq!(dv.file.data[0].1, vec![S, 2 * S, 3 * S, 4 * S]);
}

#[test]
fn append_recomputes_view_under_autoview() {
    let mut dv = DataViewer::new();
    let mut file = empty_file();
    file.data.push(("a".to_string(), vec![0, 0, S, S]));
    dv.load(file).unwrap();
    let before = dv.view;

    let mut update = empty_file();
    update.data.push(("a".to_string(), vec![10 * S, 10 * S]));
    dv.update(update);

    assert_ne!(dv.view, before);
    assert_eq!(dv.view.x_max, 10 * S + 7 * S / 10);
}

#[test]
fn load_gives_every_chart_key_a_series() {
    let mut dv = DataViewer::new();
    let mut file = empty_file();
    file.chart.push(("named".to_string(), Chart::default()));
    dv.load(file).unwrap();
    assert_eq!(dv.file.data.len(), 1);
    assert_eq!(dv.file.data[0].0, "named");
    assert!(dv.file.data[0].1.is_empty());
}

#[test]
fn load_rejects_the_line_chart_type() {
    let mut dv = DataViewer::new();
    let mut file = empty_file();
    file.dataview.chart_type = Type::Line;
    let r = dv.load(file);
    assert_eq!(r, Err(LoadError::UnsupportedChartType(Type::Line)));
    assert!(dv.chart.is_none());
}

#[test]
fn load_of_degenerate_data_uses_the_fallback_view() {
    let mut dv = DataViewer::new();
    let mut file = empty_file();
    file.data.push(("a".to_string(), vec![3 * S]));
    dv.load(file).unwrap();
    // fallback [-1,1]x[-1,1], origin already included, 7% margin applied
    assert_eq!(dv.view.x_min, -S - 7 * 2 * S / 100);
    assert_eq!(dv.view.x_max, S + 7 * 2 * S / 100);
}

#[test]
fn message_with_chart_opens_a_view() {
    let mut file = empty_file();
    file.chart.push(("k".to_string(), Chart::default()));
    assert_eq!(classify_message(&file), MessageAction::OpenView);
}

#[test]
fn message_with_only_data_is_an_append() {
    let mut file = empty_file();
    file.data.push(("k".to_string(), vec![S]));
    assert_eq!(classify_message(&file), MessageAction::Append);
}

#[test]
fn empty_message_is_ignored() {
    assert_eq!(classify_message(&empty_file()), MessageAction::Ignore);
}

#[test]
fn lookup_finds_keys_by_name() {
    let mut file = empty_file();
    file.data.push(("a".to_string(), vec![]));
    file.data.push(("b".to_string(), vec![S]));
    assert_eq!(file.data_index_of(&"b".to_string()), Some(1));
    assert_eq!(file.data_index_of(&"zzz".to_string()), None);
}
