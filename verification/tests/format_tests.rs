use dataviewer::canvas::Canvas;
use dataviewer::num::{decimals_for_span, format_fixed, format_trim};

const S: i64 = 100_000_000;

#[test]
fn wide_spans_get_few_decimals() {
    assert_eq!(decimals_for_span(20_000 * S), 0);
    assert_eq!(decimals_for_span(5_000 * S), 1);
    assert_eq!(decimals_for_span(500 * S), 2);
    assert_eq!(decimals_for_span(50 * S), 3);
}

#[test]
fn narrow_spans_get_many_decimals() {
    assert_eq!(decimals_for_span(5 * S), 4);
    assert_eq!(decimals_for_span(S / 200), 5);
    assert_eq!(decimals_for_span(S / 2_000), 6);
    assert_eq!(decimals_for_span(S / 20_000), 7);
    assert_eq!(decimals_for_span(S / 200_000), 8);
}

#[test]
fn format_fixed_renders_exact_decimals() {
    assert_eq!(format_fixed(123 * S + 45_600_000, 3), "123.456");
    assert_eq!(format_fixed(10 * S + 50_000_000, 4), "10.5000");
    assert_eq!(format_fixed(0, 0), "0");
    assert_eq!(format_fixed(42 * S, 0), "42");
}

#[test]
fn format_fixed_renders_signs() {
    assert_eq!(format_fixed(-7 * S / 10, 1), "-0.7");
    assert_eq!(format_fixed(-3 * S, 2), "-3.00");
}

#[test]
fn format_fixed_rounds_to_nearest() {
    // 1.98765432 at two decimals rounds up to 1.99
    assert_eq!(format_fixed(S + 98_765_432, 2), "1.99");
    // 1.98265432 rounds down
    assert_eq!(format_fixed(S + 98_265_432, 2), "1.98");
}

#[test]
fn format_fixed_rounding_carries_into_the_integer_part() {
    // 0.96 at one decimal is 1.0
    assert_eq!(format_fixed(96_000_000, 1), "1.0");
    // 9.995 at two decimals is 10.00
    assert_eq!(format_fixed(9 * S + 99_500_000, 2), "10.00");
}

#[test]
fn format_fixed_rounds_halves_away_from_zero() {
    assert_eq!(format_fixed(2 * S + 50_000_000, 0), "3");
    assert_eq!(format_fixed(-(2 * S + 50_000_000), 0), "-3");
}

#[test]
fn format_fixed_rounds_negative_magnitudes() {
    // -0.07 at one decimal is -0.1, and a magnitude that rounds to zero
    // keeps its sign
    assert_eq!(format_fixed(-7_000_000, 1), "-0.1");
    assert_eq!(format_fixed(-4_000_000, 1), "-0.0");
}

#[test]
fn format_trim_drops_trailing_zeros() {
    assert_eq!(format_trim(10 * S + 50_000_000), "10.5");
    assert_eq!(format_trim(S), "1");
    assert_eq!(format_trim(-S / 2), "-0.5");
    assert_eq!(format_trim(S / 100_000_000), "0.00000001");
}

#[test]
fn tick_labels_follow_the_span_precision() {
    assert_eq!(Canvas::fmtfloat(S, 10 * S), "1.0000");
    assert_eq!(Canvas::fmtfloat(25_000 * S, 20_000 * S), "25000");
    assert_eq!(Canvas::fmtfloat(-S / 2, 10 * S), "-0.5000");
}
