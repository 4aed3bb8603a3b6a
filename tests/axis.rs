use dioxus_charts::format::{format_fixed, path_of};
use dioxus_charts::grid::{Axis, Direction};
use dioxus_charts::scale::{nice_step, stack_ok, stacked_highest, values_ok};
use dioxus_charts::types::{ChartError, Point, Rect};
use dioxus_charts::utils::{floor_div, magnitude, max_of, min_of, normalize_series, series_color};

fn view() -> Rect {
    Rect::new(0, 0, 600_000, 400_000)
}

#[test]
fn nice_tick_example() {
    let series = vec![vec![0, 100_000]];
    let axis = Axis::builder().with_view(view()).with_max_ticks(8).with_series(&series).build().unwrap();
    assert_eq!(magnitude(100_000 / 6), 10_000);
    assert_eq!(axis.step_len, 20_000);
    assert_eq!(axis.world_start, 0);
    assert_eq!(axis.world, 100_000);
    assert_eq!(axis.steps, 6);
}

#[test]
fn nice_step_snaps_up() {
    assert_eq!(nice_step(100_000, 6), 20_000);
    assert_eq!(nice_step(25_000, 6), 5_000);
    assert_eq!(nice_step(10_000, 1), 10_000);
    assert_eq!(nice_step(10_100, 1), 15_000);
    assert_eq!(nice_step(9_100, 1), 10_000);
    assert_eq!(nice_step(1, 6), 1);
    // a magnitude of one unit cannot hold 1.5 units
    assert_eq!(nice_step(12, 10), 2);
    assert_eq!(nice_step(22, 10), 3);
}

#[test]
fn continuous_axis_widens_to_whole_steps() {
    let series = vec![vec![3_000, 97_000], vec![-12_000]];
    let axis = Axis::builder().with_view(view()).with_max_ticks(8).with_series(&series).build().unwrap();
    // range 109, raw step 18.17, magnitude 10, snapped to 20
    assert_eq!(axis.step_len, 20_000);
    assert_eq!(axis.world_start, -20_000);
    assert_eq!(axis.world, 120_000);
    assert_eq!(axis.steps, 7);
    assert!(axis.world_start <= -12_000);
    assert!(axis.world_start + axis.step_len * (axis.steps - 1) >= 97_000);
}

#[test]
fn small_ranges_get_fine_steps() {
    let series = vec![vec![0, 6]];
    let axis = Axis::builder().with_view(view()).with_max_ticks(8).with_series(&series).build().unwrap();
    assert_eq!(axis.step_len, 1);
    assert_eq!(axis.world, 6);
    assert_eq!(axis.steps, 7);
}

#[test]
fn last_tick_can_fall_short_when_only_lowest_is_given() {
    let series = vec![vec![15_000, 100_000]];
    let axis = Axis::builder()
        .with_view(view())
        .with_max_ticks(7)
        .with_series(&series)
        .with_lowest(Some(15_000))
        .build()
        .unwrap();
    assert!(axis.world_start + axis.world >= 100_000);
    assert_eq!(axis.world_start + axis.step_len * (axis.steps - 1), 95_000);
}

#[test]
fn given_bounds_are_kept() {
    let series = vec![vec![5_000, 50_000]];
    let axis = Axis::builder()
        .with_view(view())
        .with_series(&series)
        .with_lowest(Some(0))
        .with_highest(Some(40_000))
        .build()
        .unwrap();
    assert_eq!(axis.world_start, 0);
    assert_eq!(axis.world_start + axis.world, 40_000);
}

#[test]
fn small_budget_gives_two_ticks() {
    let series = vec![vec![0, 1_000]];
    let axis = Axis::builder().with_view(view()).with_max_ticks(3).with_series(&series).build().unwrap();
    assert_eq!(axis.step_len, 1_000);
    assert_eq!(axis.steps, 2);
}

#[test]
fn given_bounds_need_a_budget_of_five_for_three_ticks() {
    let series = vec![vec![0, 2_020]];
    let build = |ticks: i32| {
        Axis::builder()
            .with_view(view())
            .with_max_ticks(ticks)
            .with_series(&series)
            .with_lowest(Some(0))
            .with_highest(Some(2_020))
            .build()
            .unwrap()
    };
    let four = build(4);
    assert_eq!((four.step_len, four.steps), (1_500, 2));
    let five = build(5);
    assert_eq!((five.step_len, five.steps), (700, 4));
}

#[test]
fn tick_budget_below_three_is_raised() {
    let series = vec![vec![0, 100_000]];
    let a = Axis::builder().with_view(view()).with_max_ticks(1).with_series(&series).build().unwrap();
    let b = Axis::builder().with_view(view()).with_max_ticks(3).with_series(&series).build().unwrap();
    assert_eq!(a, b);
}

#[test]
fn stacked_axis_uses_column_totals() {
    let series = vec![vec![10_000, 20_000], vec![5_000, 5_000]];
    assert!(stack_ok(&series));
    assert_eq!(stacked_highest(&series), 25_000);
    let axis = Axis::builder()
        .with_view(view())
        .with_series(&series)
        .with_stacked_series(true)
        .with_lowest(Some(0))
        .build()
        .unwrap();
    assert_eq!(axis.step_len, 5_000);
    assert_eq!(axis.world, 25_000);
    assert_eq!(axis.steps, 6);
}

#[test]
fn invalid_series_are_refused() {
    let empty: Vec<Vec<i64>> = vec![];
    assert_eq!(Axis::builder().with_view(view()).with_series(&empty).build(), Err(ChartError::InvalidInput));
    let empty_row = vec![vec![1_000], vec![]];
    assert!(!values_ok(&empty_row));
    assert_eq!(Axis::builder().with_view(view()).with_series(&empty_row).build(), Err(ChartError::InvalidInput));
    let flat = vec![vec![7_000, 7_000]];
    assert_eq!(Axis::builder().with_view(view()).with_series(&flat).build(), Err(ChartError::InvalidInput));
    let huge = vec![vec![0, i64::MAX]];
    assert_eq!(Axis::builder().with_view(view()).with_series(&huge).build(), Err(ChartError::InvalidInput));
    let ragged = vec![vec![1_000, 2_000], vec![1_000]];
    assert!(!stack_ok(&ragged));
    assert_eq!(
        Axis::builder().with_view(view()).with_series(&ragged).with_stacked_series(true).build(),
        Err(ChartError::InvalidInput)
    );
    let inverted = vec![vec![1_000, 2_000]];
    assert_eq!(
        Axis::builder().with_view(view()).with_series(&inverted).with_lowest(Some(5_000)).with_highest(Some(4_000)).build(),
        Err(ChartError::InvalidInput)
    );
}

#[test]
fn categorical_axis_counts_ticks() {
    let labels: Vec<String> = vec!["a".into(), "b".into(), "c".into()];
    let plain = Axis::builder().with_view(view()).with_labels(Some(&labels)).build().unwrap();
    assert_eq!(plain.steps, 3);
    assert_eq!(plain.world, 3_000);
    assert_eq!(plain.step_len, 1_500);
    let centered = Axis::builder().with_view(view()).with_centered_labels(Some(&labels)).build().unwrap();
    assert_eq!(centered.steps, 4);
    assert_eq!(centered.world, 4_000);
}

#[test]
fn centered_labels_give_one_center_per_label() {
    for n in 0..7usize {
        let labels: Vec<String> = (0..n).map(|i| format!("l{i}")).collect();
        for direction in [Direction::Vertical, Direction::Horizontal] {
            let axis = Axis::builder()
                .with_view(view())
                .with_direction(direction)
                .with_centered_labels(Some(&labels))
                .build()
                .unwrap();
            assert_eq!(axis.tick_centers().len(), n);
        }
    }
}

#[test]
fn no_series_and_no_labels_gives_empty_axis() {
    let axis = Axis::builder().build().unwrap();
    assert_eq!(axis, Axis::default());
    assert_eq!(axis.steps, 0);
    assert!(axis.lines().is_empty());
    assert!(axis.tick_centers().is_empty());
    assert_eq!(axis.world_to_view(5_000, 0), 0);
}

fn value_axis(direction: Direction) -> Axis {
    Axis {
        view: Rect::new(10_000, 20_000, 610_000, 420_000),
        step_len: 20_000,
        steps: 6,
        world_start: 0,
        world: 100_000,
        grid_ticks: false,
        label_size: 60_000,
        direction,
    }
}

#[test]
fn world_to_view_maps_linearly() {
    let v = value_axis(Direction::Vertical);
    assert_eq!(v.world_to_view(0, 0), 10_000);
    assert_eq!(v.world_to_view(50_000, 0), 310_000);
    assert_eq!(v.world_to_view(100_000, 0), 610_000);
    let h = value_axis(Direction::Horizontal);
    assert_eq!(h.world_to_view(0, 0), 420_000);
    assert_eq!(h.world_to_view(100_000, 0), 20_000);
    assert_eq!(h.world_to_view(25_000, 0), 320_000);
    assert_eq!(h.world_to_view(35_000, 10_000), 320_000);
    // rounds down
    assert_eq!(v.world_to_view(1, 0), 10_006);
    assert_eq!(h.world_to_view(1, 0), 420_000 - 4);
}

#[test]
fn step_to_world_divides_the_span() {
    let v = value_axis(Direction::Vertical);
    assert_eq!(v.step_to_world(0), 0);
    assert_eq!(v.step_to_world(1), 20_000);
    assert_eq!(v.step_to_world(5), 100_000);
    assert_eq!(v.step_to_world(6), 120_000);
}

#[test]
fn lines_span_the_view_or_are_ticks() {
    let v = value_axis(Direction::Vertical);
    let lines = v.lines();
    assert_eq!(lines.len(), 6);
    assert_eq!(lines[1], Rect::new(130_000, 420_000, 130_000, 20_000));
    let h = value_axis(Direction::Horizontal);
    assert_eq!(h.lines()[0], Rect::new(10_000, 420_000, 610_000, 420_000));
    let mut t = value_axis(Direction::Vertical);
    t.grid_ticks = true;
    let ticks = t.lines();
    assert_eq!(ticks[0], Rect::new(10_000, 420_000, 10_000, 20_000));
    assert_eq!(ticks[2], Rect::new(250_000, 420_000, 250_000, 410_000));
    let mut th = value_axis(Direction::Horizontal);
    th.grid_ticks = true;
    assert_eq!(th.lines()[1], Rect::new(10_000, 340_000, 20_000, 340_000));
}

#[test]
fn tick_centers_are_band_middles() {
    let v = value_axis(Direction::Vertical);
    let c = v.tick_centers();
    assert_eq!(c.len(), 5);
    assert_eq!(c[0], Point::new(70_000, 420_000));
    assert_eq!(c[4], Point::new(550_000, 420_000));
    let h = value_axis(Direction::Horizontal);
    let c = h.tick_centers();
    // reversed: the top band first
    assert_eq!(c[0], Point::new(10_000, 60_000));
    assert_eq!(c[4], Point::new(10_000, 380_000));
}

#[test]
fn text_rects_and_anchors() {
    let v = value_axis(Direction::Vertical);
    let r = v.centered_text_rects(2);
    assert_eq!(r.len(), 2);
    assert_eq!(r[1], Rect::new(130_000, 426_000, 120_000, 60_000));
    assert_eq!(v.centered_text_rects(10).len(), 5);
    let h = value_axis(Direction::Horizontal);
    let r = h.centered_text_rects(1);
    assert_eq!(r[0], Rect::new(10_000 - 6_000 - 60_000, 340_000, 60_000, 80_000));
    let t = v.text_data(3);
    assert_eq!(t.len(), 3);
    assert_eq!((t[2].x, t[2].y, t[2].anchor.as_str(), t[2].baseline.as_str()), (250_000, 426_000, "start", "hanging"));
    let t = h.text_data(100);
    assert_eq!(t.len(), 6);
    assert_eq!((t[0].x, t[0].y, t[0].anchor.as_str(), t[0].baseline.as_str()), (4_000, 420_000, "end", "text-bottom"));
}

#[test]
fn generated_labels_step_from_start() {
    let mut v = value_axis(Direction::Vertical);
    v.world_start = -20_000;
    assert_eq!(v.label_values(), vec![-20_000, 0, 20_000, 40_000, 60_000, 80_000, 100_000]);
    assert_eq!(v.generated_labels(), vec!["-20", "0", "20", "40", "60", "80", "100"]);
    v.world_start = 500;
    v.step_len = 1_250;
    v.steps = 3;
    assert_eq!(v.generated_labels(), vec!["0.5", "1.75", "3", "4.25"]);
}

#[test]
fn decimal_texts() {
    assert_eq!(format_fixed(0), "0");
    assert_eq!(format_fixed(20_000), "20");
    assert_eq!(format_fixed(2_500), "2.5");
    assert_eq!(format_fixed(-1_500), "-1.5");
    assert_eq!(format_fixed(1), "0.001");
    assert_eq!(format_fixed(120), "0.12");
    assert_eq!(format_fixed(-7), "-0.007");
    assert_eq!(format_fixed(1_234_567), "1234.567");
    assert_eq!(format_fixed(1_000_000_000_000_000_000), "1000000000000000");
}

#[test]
fn numeric_helpers() {
    assert_eq!(magnitude(0), 0);
    assert_eq!(magnitude(7), 1);
    assert_eq!(magnitude(16_667), 10_000);
    assert_eq!(magnitude(-250), 100);
    assert_eq!(magnitude(i64::MIN), 1_000_000_000_000_000_000);
    assert_eq!(floor_div(-7, 2), -4);
    assert_eq!(floor_div(7, 2), 3);
    assert_eq!(floor_div(-8, 2), -4);
    assert_eq!(max_of(&vec![3, -1, 9, 2]), 9);
    assert_eq!(min_of(&vec![3, -1, 9, 2]), -1);
    assert_eq!(series_color(0), 180_000);
    assert_eq!(series_color(1), 217_500);
    assert_eq!(series_color(2), 230_000);
    assert_eq!(series_color(74_999), 255_000 - 1);
}

#[test]
fn pie_normalization_example_values() {
    assert_eq!(normalize_series(&vec![50_000, 25_000, 25_000]), vec![100_000, 50_000, 50_000]);
    assert_eq!(normalize_series(&vec![0, 3_000]), vec![0, 100_000]);
    assert_eq!(normalize_series(&vec![-1_000, 4_000]), vec![-25_000, 100_000]);
    assert_eq!(normalize_series(&vec![-1, 3_000]), vec![-34, 100_000]);
}

#[test]
fn path_text_through_points() {
    let points = vec![Point::new(0, 400_000), Point::new(300_500, 200_000), Point::new(600_000, -1_250)];
    assert_eq!(path_of(&points), "M0,400 L300.5,200 L600,-1.25");
    assert_eq!(path_of(&vec![]), "");
}
