use dioxus_charts::charts::bar::{bar_layout, Bar, BarChartProps};
use dioxus_charts::charts::line::{line_layout, LineChartProps};
use dioxus_charts::charts::pie::{pie_layout, LabelPosition, PieChartProps};
use dioxus_charts::types::{ChartError, Point, Rect};

fn bar_props(series: Vec<Vec<i64>>, labels: &[&str]) -> BarChartProps {
    BarChartProps {
        series,
        labels: Some(labels.iter().map(|s| s.to_string()).collect()),
        viewbox_width: 600,
        viewbox_height: 400,
        padding_top: 0,
        padding_bottom: 0,
        padding_left: 0,
        padding_right: 0,
        lowest: None,
        highest: None,
        max_ticks: 8,
        show_grid_ticks: false,
        label_size: 60,
        bar_distance: 30_000,
        horizontal_bars: false,
        stacked_bars: false,
    }
}

fn pie_props(series: Vec<i64>) -> PieChartProps {
    PieChartProps {
        series,
        viewbox_width: 600,
        viewbox_height: 400,
        label_position: LabelPosition::Inside,
        label_offset: 0,
        start_angle: 0,
        total: None,
        show_ratio: None,
        padding: 0,
        donut: false,
        donut_width: 40_000,
    }
}

fn line_props(series: Vec<Vec<i64>>) -> LineChartProps {
    LineChartProps {
        series,
        labels: None,
        series_labels: None,
        viewbox_width: 600,
        viewbox_height: 400,
        padding_top: 0,
        padding_bottom: 0,
        padding_left: 0,
        padding_right: 0,
        show_grid_ticks: false,
        show_dots: true,
        lowest: None,
        highest: None,
        max_ticks: 8,
    }
}

#[test]
fn stacked_bar_example() {
    let mut p = bar_props(vec![vec![10_000, 20_000], vec![5_000, 5_000]], &["a", "b"]);
    p.stacked_bars = true;
    let l = bar_layout(&p).unwrap();
    let va = l.grid.y;
    assert_eq!(va.world_start, 0);
    assert_eq!(va.world, 25_000);
    // the value axis maps 0..25 onto 400..0
    assert_eq!(va.world_to_view(10_000, 0), 240_000);
    assert_eq!(va.world_to_view(15_000, 0), 160_000);
    assert_eq!(l.bars.len(), 2);
    assert_eq!(l.bars[0][0].segment, Rect::new(150_000, 400_000, 150_000, 240_000));
    // the second series sits on the first: from 10 up to 15, and from 20 up to 25
    assert_eq!(l.bars[1][0].segment, Rect::new(150_000, 240_000, 150_000, 160_000));
    assert_eq!(l.bars[1][1].segment, Rect::new(450_000, va.world_to_view(20_000, 0), 450_000, va.world_to_view(25_000, 0)));
    assert_eq!(l.bars[1][1].segment.max.y, 0);
    assert_eq!(l.bars[1][0].label, None);
}

#[test]
fn grouped_bars_are_offset_per_series() {
    let p = bar_props(vec![vec![10_000, 20_000], vec![5_000, 5_000]], &["a", "b"]);
    let l = bar_layout(&p).unwrap();
    let va = l.grid.y;
    let end = va.world_to_view(10_000, 0);
    assert_eq!(
        l.bars[0][0],
        Bar {
            segment: Rect::new(135_000, 400_000, 135_000, end),
            label: l.bars[0][0].label,
        }
    );
    let label = l.bars[0][0].label.unwrap();
    assert_eq!((label.x, label.y), (135_000, end - 5_000));
    assert_eq!(l.bars[1][1].segment.min.x, 450_000 + 15_000);
    assert_eq!(l.category_rects.len(), 2);
    assert_eq!(l.category_rects[0], Rect::new(0, 406_000, 300_000, 60_000));
    assert_eq!(l.label_values.len() as i64, va.steps + 1);
    assert_eq!(l.value_labels.len() as i64, va.steps);
    assert_eq!(l.grid_lines.len() as i64, l.grid.x.steps + l.grid.y.steps);
}

#[test]
fn grouped_offsets_are_symmetric() {
    let mut p = bar_props(vec![vec![1_000], vec![2_000], vec![3_000]], &["a"]);
    p.bar_distance = 1;
    let l = bar_layout(&p).unwrap();
    let xs: Vec<i128> = l.bars.iter().map(|b| b[0].segment.min.x).collect();
    assert_eq!(xs, vec![300_000 - 1, 300_000, 300_000 + 1]);
    let mut p = bar_props(vec![vec![1_000], vec![2_000]], &["a"]);
    p.bar_distance = 1;
    let l = bar_layout(&p).unwrap();
    assert_eq!(l.bars[0][0].segment.min.x, 300_000);
    assert_eq!(l.bars[1][0].segment.min.x, 300_000);
}

#[test]
fn horizontal_bars_swap_axes() {
    let mut p = bar_props(vec![vec![10_000, 20_000]], &["a", "b"]);
    p.horizontal_bars = true;
    let l = bar_layout(&p).unwrap();
    let va = l.grid.x;
    assert_eq!(va.world, 20_000);
    let end = va.world_to_view(10_000, 0);
    assert_eq!(end, 300_000);
    // categories run top to bottom
    assert_eq!(l.bars[0][0].segment, Rect::new(0, 100_000, end, 100_000));
    let label = l.bars[0][0].label.unwrap();
    assert_eq!((label.x, label.anchor.as_str(), label.baseline.as_str()), (305_000, "start", "middle"));
}

#[test]
fn bars_without_labels_have_no_categories() {
    let mut p = bar_props(vec![vec![10_000, 20_000]], &[]);
    p.labels = None;
    let l = bar_layout(&p).unwrap();
    assert_eq!(l.bars[0].len(), 0);
    assert!(l.category_rects.is_empty());
}

#[test]
fn bar_errors() {
    let p = bar_props(vec![vec![10_000], vec![]], &["a"]);
    assert_eq!(bar_layout(&p), Err(ChartError::InvalidInput));
    let p = bar_props(vec![], &["a"]);
    assert_eq!(bar_layout(&p), Err(ChartError::InvalidInput));
    let mut p = bar_props(vec![vec![1_000, 2_000], vec![1_000]], &["a", "b"]);
    p.stacked_bars = true;
    assert_eq!(bar_layout(&p), Err(ChartError::InvalidInput));
    let mut p = bar_props(vec![vec![1_000]], &["a"]);
    p.bar_distance = i64::MAX;
    assert_eq!(bar_layout(&p), Err(ChartError::InvalidInput));
}

#[test]
fn bar_layout_is_repeatable() {
    let mut p = bar_props(vec![vec![12_500, 3_000, 7_700], vec![1_000, 9_000, 4_200]], &["x", "y", "z"]);
    assert_eq!(bar_layout(&p), bar_layout(&p));
    p.stacked_bars = true;
    assert_eq!(bar_layout(&p), bar_layout(&p));
}

#[test]
fn pie_normalization_example() {
    let l = pie_layout(&pie_props(vec![50_000, 25_000, 25_000])).unwrap();
    assert_eq!(l.center, Point::new(300_000, 200_000));
    assert_eq!(l.radius, 170_000);
    assert_eq!(l.label_radius, 85_000);
    assert_eq!(l.inner_radius, None);
    let first = l.slices[0].unwrap();
    assert_eq!(first.end_angle - first.start_angle, 180_000);
    assert!(!first.large_arc);
    assert_eq!(first.label_angle, 90_000);
    let second = l.slices[1].unwrap();
    assert_eq!((second.class_index, second.start_angle, second.end_angle), (1, 179_600, 270_000));
    let third = l.slices[2].unwrap();
    assert_eq!((third.start_angle, third.end_angle), (269_600, 360_000));
}

#[test]
fn pie_zero_values_keep_their_place() {
    let l = pie_layout(&pie_props(vec![0, 10_000, 0, 40_000])).unwrap();
    assert_eq!(l.slices.len(), 4);
    assert_eq!(l.slices[0], None);
    assert_eq!(l.slices[2], None);
    assert_eq!(l.slices[1].unwrap().class_index, 0);
    assert_eq!(l.slices[3].unwrap().class_index, 1);
    assert_eq!(l.slices[1].unwrap().end_angle, 72_000);
}

#[test]
fn pie_tiny_values_keep_a_slice() {
    let l = pie_layout(&pie_props(vec![1, 200_000])).unwrap();
    let tiny = l.slices[0].unwrap();
    assert_eq!((tiny.class_index, tiny.start_angle, tiny.end_angle), (0, 0, 0));
    assert_eq!(l.slices[1].unwrap().class_index, 1);
}

#[test]
fn pie_single_value_stops_short_of_a_full_turn() {
    let l = pie_layout(&pie_props(vec![42_000])).unwrap();
    let s = l.slices[0].unwrap();
    assert_eq!((s.start_angle, s.end_angle), (0, 359_990));
    assert!(s.large_arc);
}

#[test]
fn pie_gauge_ratio_and_total() {
    let mut p = pie_props(vec![10_000]);
    p.show_ratio = Some(5_000);
    let s = pie_layout(&p).unwrap().slices[0].unwrap();
    assert_eq!(s.end_angle, 180_000);
    p.show_ratio = Some(0);
    let s = pie_layout(&p).unwrap().slices[0].unwrap();
    assert_eq!(s.end_angle, 36);
    let mut p = pie_props(vec![10_000, 10_000]);
    p.total = Some(40_000);
    let s = pie_layout(&p).unwrap().slices[0].unwrap();
    assert_eq!(s.end_angle, 90_000);
    p.total = Some(1_000);
    let s = pie_layout(&p).unwrap().slices[0].unwrap();
    assert_eq!(s.end_angle, 180_000);
}

#[test]
fn donut_inner_radius() {
    let mut p = pie_props(vec![1_000, 2_000]);
    p.donut = true;
    let l = pie_layout(&p).unwrap();
    assert_eq!(l.inner_radius, Some(130_000));
    assert!(l.inner_radius.unwrap() < l.radius);
}

#[test]
fn pie_label_positions_and_start() {
    let mut p = pie_props(vec![1_000]);
    p.label_position = LabelPosition::Outside;
    p.label_offset = 35_000;
    p.padding = 20_000;
    p.start_angle = -60_000;
    let l = pie_layout(&p).unwrap();
    assert_eq!(l.radius, 150_000);
    assert_eq!(l.label_radius, 185_000);
    assert_eq!(l.slices[0].unwrap().start_angle, -60_000);
    p.label_position = LabelPosition::Center;
    assert_eq!(pie_layout(&p).unwrap().label_radius, 35_000);
}

#[test]
fn pie_errors() {
    assert_eq!(pie_layout(&pie_props(vec![])), Err(ChartError::InvalidInput));
    assert_eq!(pie_layout(&pie_props(vec![0, 0])), Err(ChartError::InvalidInput));
    assert_eq!(pie_layout(&pie_props(vec![5_000, -1])), Err(ChartError::InvalidInput));
}

#[test]
fn pie_layout_is_repeatable() {
    let p = pie_props(vec![59_540, 17_200, 9_590, 7_600, 5_530, 550]);
    assert_eq!(pie_layout(&p), pie_layout(&p));
}

#[test]
fn line_points_follow_the_data() {
    let l = line_layout(&line_props(vec![vec![0, 50_000, 100_000]])).unwrap();
    assert_eq!(l.grid.x.steps, 3);
    let pts = &l.series[0].points;
    assert_eq!(pts.len(), 3);
    assert_eq!(pts[0], Point::new(0, 400_000));
    assert_eq!(pts[1], Point::new(300_000, 200_000));
    assert_eq!(pts[2], Point::new(600_000, 0));
    assert_eq!(l.series[0].dots[1], Rect::new(300_000, 200_000, 300_100, 200_000));
    assert_eq!(l.series[0].path, "M0,400 L300,200 L600,0");
    assert_eq!(l.series[0].label_anchor, None);
}

#[test]
fn line_labels_and_truncation() {
    let mut p = line_props(vec![vec![1_000, 2_000, 3_000], vec![4_000]]);
    p.labels = Some(vec!["a".into(), "b".into()]);
    p.series_labels = Some(vec!["first".into(), String::new()]);
    p.show_dots = false;
    let l = line_layout(&p).unwrap();
    assert_eq!(l.series[0].points.len(), 2);
    assert!(l.series[0].dots.is_empty());
    let last = l.series[0].points[1];
    assert_eq!(l.series[0].label_anchor, Some(Point::new(last.x + 10_000, last.y)));
    assert_eq!(l.series[1].label_anchor, None);
    assert_eq!(l.axis_labels.len() as i64, 2 + l.grid.y.steps);
}

#[test]
fn line_errors_and_repeatability() {
    assert_eq!(line_layout(&line_props(vec![vec![1_000], vec![]])), Err(ChartError::InvalidInput));
    let p = line_props(vec![vec![29_000, 30_500, 32_600], vec![20_000, 25_100, 26_000]]);
    assert_eq!(line_layout(&p), line_layout(&p));
}

#[test]
fn default_settings() {
    let b = BarChartProps::default();
    assert_eq!((b.viewbox_width, b.viewbox_height, b.max_ticks, b.label_size, b.bar_distance), (600, 400, 8, 60, 30_000));
    let l = LineChartProps::default();
    assert!(l.show_dots && l.series.is_empty());
    let p = PieChartProps::default();
    assert_eq!((p.donut_width, p.label_position), (40_000, LabelPosition::Inside));
    let mut p = PieChartProps::default();
    p.series = vec![2_000, 2_000];
    let layout = pie_layout(&p).unwrap();
    assert_eq!(layout.slices[1].unwrap().end_angle, 360_000);
}
