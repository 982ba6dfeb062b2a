//! Forecasts rebuilt from the coordinates of their rows.
use infrastore::array::TypedArray;
use infrastore::cube::{
    forecast, lane_labels, step_of, steps_in, LaneLabels, LaneValue, Rows, Spelled,
};
use infrastore::instant::{Period, Step};
use infrastore::kinds::{Dtype, TimeSeriesType};
use infrastore::order::{distinct_sorted, not_a_number, percentiles_sorted, rank_of};
use infrastore::rows::{is_emittable, row_count, series_rows};
use infrastore::series::{Descriptors, ForecastGrid, TimeAxis, TimeSeriesData};
use infrastore::kinds::ElementType;

const T0: i64 = 1_577_836_800_000;
const HOUR: i64 = 3_600_000;
const DAY: i64 = 86_400_000;

fn period(ms: i64, iso: &str) -> Period {
    Period { step: Step::Millis(ms), iso: iso.to_string() }
}

fn spelled(ms: i64, iso: &str) -> Spelled {
    Spelled { text: iso.to_string(), reading: Ok(period(ms, iso)) }
}

fn bytes(n: u8) -> TypedArray {
    TypedArray::new(Dtype::U8, vec![n as usize], (0..n).collect()).unwrap()
}

/// Two windows of two steps each.
fn rows() -> Rows {
    Rows {
        timestamps: vec![T0, T0 + HOUR, T0 + DAY, T0 + DAY + HOUR],
        issue: vec![T0, T0, T0 + DAY, T0 + DAY],
        lanes: vec![],
    }
}

fn build(rows: &Rows, array: &TypedArray) -> Result<TimeSeriesData, String> {
    forecast(
        TimeSeriesType::Deterministic,
        Some(period(HOUR, "PT1H")),
        spelled(DAY, "P1D"),
        spelled(2 * HOUR, "PT2H"),
        rows,
        array,
        "wind".to_string(),
    )
}

#[test]
fn rows_are_placed_by_their_coordinates() {
    let data = build(&rows(), &bytes(4)).unwrap();
    assert_eq!(data.array.shape, [2, 2]);
    assert_eq!(data.array.bytes, [0, 2, 1, 3], "step-major, where the rows are window-major");
    let shuffled = Rows {
        timestamps: vec![T0 + DAY + HOUR, T0, T0 + DAY, T0 + HOUR],
        issue: vec![T0 + DAY, T0, T0 + DAY, T0],
        lanes: vec![],
    };
    let array = TypedArray::new(Dtype::U8, vec![4], vec![3, 0, 2, 1]).unwrap();
    assert_eq!(build(&shuffled, &array).unwrap().array.bytes, data.array.bytes);
}

#[test]
fn a_forecast_needs_its_grid() {
    let text = forecast(
        TimeSeriesType::Deterministic,
        None,
        spelled(DAY, "P1D"),
        spelled(2 * HOUR, "PT2H"),
        &rows(),
        &bytes(4),
        "wind".to_string(),
    )
    .unwrap_err();
    assert_eq!(
        text,
        "series 'wind' is a forecast and needs a `resolution`: the rows say where each value \
         belongs, not what the grid it belongs to is"
    );
    let unreadable = Spelled { text: "x".to_string(), reading: Err("not a period".to_string()) };
    let text = forecast(
        TimeSeriesType::Deterministic,
        Some(period(HOUR, "PT1H")),
        unreadable,
        spelled(2 * HOUR, "PT2H"),
        &rows(),
        &bytes(4),
        "wind".to_string(),
    )
    .unwrap_err();
    assert_eq!(text, "interval: not a period");
    let unissued = Rows { issue: vec![], ..rows() };
    assert_eq!(
        build(&unissued, &bytes(4)).unwrap_err(),
        "series 'wind' is a forecast but has no `issue_time` column"
    );
    let nothing = Rows { timestamps: vec![], issue: vec![], lanes: vec![] };
    assert_eq!(
        build(&nothing, &bytes(0)).unwrap_err(),
        "series 'wind' is a forecast with no rows"
    );
}

#[test]
fn a_cube_has_no_hole_and_no_second_row() {
    let twice = Rows { timestamps: vec![T0, T0, T0 + DAY, T0 + DAY + HOUR], ..rows() };
    assert_eq!(
        build(&twice, &bytes(4)).unwrap_err(),
        "series 'wind' has two rows for window 0, step 0, lane 0"
    );
    let short = Rows {
        timestamps: vec![T0, T0 + HOUR, T0 + DAY],
        issue: vec![T0, T0, T0 + DAY],
        lanes: vec![],
    };
    assert_eq!(
        build(&short, &bytes(3)).unwrap_err(),
        "series 'wind' has 3 rows, but its grid holds 4 values (1 lanes x 2 steps x 2 windows)"
    );
    let astray = Rows { timestamps: vec![T0, T0 + 1, T0 + DAY, T0 + DAY + HOUR], ..rows() };
    assert_eq!(
        build(&astray, &bytes(4)).unwrap_err(),
        "series 'wind' has a target time of 2020-01-01 00:00:00.001 UTC, which is not on the \
         2-step grid starting at 2020-01-01 00:00:00 UTC"
    );
    let late = Rows { issue: vec![T0, T0, T0 + DAY + 1, T0 + DAY + 1], ..rows() };
    assert!(build(&late, &bytes(4)).unwrap_err().contains("which is not window 1 of a P1D grid"));
}

#[test]
fn lanes_are_percentiles_or_trajectories() {
    let p = |v: f64| LaneValue::Percentile(v.to_bits());
    let s = LaneValue::Scenario;
    let labels = lane_labels(&vec![p(90.0), p(10.0), p(90.0)], TimeSeriesType::Probabilistic, "w");
    let Ok(LaneLabels::Percentiles(sorted)) = labels else { panic!("percentiles") };
    assert_eq!(sorted, [10f64.to_bits(), 90f64.to_bits()]);
    let labels = lane_labels(&vec![s(2), s(0)], TimeSeriesType::Scenarios, "w").unwrap();
    assert_eq!(labels.count(), 3);
    assert_eq!(labels.index_of(Some(s(2))), Ok(2));
    assert_eq!(labels.index_of(Some(s(3))), Err("scenario 3 is outside 0..3".to_string()));
    assert_eq!(labels.index_of(Some(s(-1))), Err("scenario -1 is outside 0..3".to_string()));
    assert_eq!(
        labels.index_of(None),
        Err("a row's lane column does not match its partition".to_string())
    );
    assert_eq!(
        lane_labels(&vec![s(0)], TimeSeriesType::Probabilistic, "w").unwrap_err(),
        "series 'w' is a Probabilistic but its lane column is not `percentile`"
    );
    assert_eq!(
        lane_labels(&vec![p(1.0)], TimeSeriesType::Scenarios, "w").unwrap_err(),
        "series 'w' is a Scenarios but its lane column is not `scenario`"
    );
    assert!(lane_labels(&vec![p(f64::NAN)], TimeSeriesType::Probabilistic, "w").is_err());
}

#[test]
fn steps_are_counted_by_walking_the_grid() {
    let month = Step::Months(1);
    assert_eq!(steps_in(T0, month, Step::Months(12), "w"), Ok(12));
    assert_eq!(steps_in(T0, Step::Millis(HOUR), Step::Millis(DAY), "w"), Ok(24));
    assert!(steps_in(T0, Step::Millis(1), Step::Millis(DAY), "w")
        .unwrap_err()
        .contains("more than a million steps"));
    assert_eq!(
        steps_in(T0, month, Step::Millis(i64::MAX), "w"),
        Err("the forecast horizon overflows the calendar".to_string())
    );
    assert_eq!(step_of(T0, T0 + 2 * HOUR, Step::Millis(HOUR), 3, "w"), Ok(2));
}

#[test]
fn columns_have_distinct_values_in_order() {
    assert_eq!(distinct_sorted(&vec![3, 1, 3, 2, 1]), [1, 2, 3]);
    let bits = |v: f64| v.to_bits();
    assert_eq!(
        percentiles_sorted(&vec![bits(0.5), bits(-1.0), bits(0.5), bits(0.0)]),
        [bits(-1.0), bits(0.0), bits(0.5)]
    );
    assert_eq!(rank_of(bits(0.0)), rank_of(bits(-0.0)), "both zeros are one number");
    assert!(rank_of(bits(-1.0)) < rank_of(bits(0.0)));
    assert!(not_a_number(f64::NAN.to_bits()));
    assert!(!not_a_number(f64::INFINITY.to_bits()));
}

fn deterministic(grid: ForecastGrid) -> TimeSeriesData {
    TimeSeriesData {
        name: "wind".to_string(),
        axis: TimeAxis::Deterministic { grid },
        array: TypedArray::new(Dtype::U8, vec![2, 2], vec![0, 2, 1, 3]).unwrap(),
        descriptors: Descriptors {
            element_type: ElementType::Scalar(Dtype::U8),
            units: None,
            quantity_kind: None,
            unit_system: None,
            time_reference: None,
            component_field: None,
            application_data: None,
        },
    }
}

fn grid(initial_timestamp: i64) -> ForecastGrid {
    ForecastGrid {
        initial_timestamp,
        resolution: period(HOUR, "PT1H"),
        horizon: period(2 * HOUR, "PT2H"),
        interval: period(DAY, "P1D"),
        count: 2,
    }
}

#[test]
fn a_forecast_is_emitted_window_by_window() {
    let data = deterministic(grid(T0));
    let rows = series_rows(&data).unwrap();
    assert_eq!(row_count(&data), Ok(4));
    let offsets: Vec<usize> = rows.iter().map(|r| r.offset).collect();
    assert_eq!(offsets, [0, 2, 1, 3]);
    assert_eq!(rows[3].issue, Some(T0 + DAY));
    assert_eq!(rows[3].target, T0 + DAY + HOUR);
    assert_eq!(rows[3].lane, None);
}

#[test]
fn a_forecast_that_leaves_the_calendar_is_refused() {
    let last = 8_210_266_876_799_999;
    let at_the_end = deterministic(grid(last));
    assert_eq!(
        series_rows(&at_the_end).unwrap_err(),
        "forecast step 1 overflows the calendar"
    );
    let windows = deterministic(grid(last - 2 * HOUR));
    assert_eq!(series_rows(&windows).unwrap_err(), "forecast window 1 overflows the calendar");
}

#[test]
fn the_order_of_rows_with_lanes_does_not_matter() {
    let p = |v: f64| LaneValue::Percentile(v.to_bits());
    let build = |rows: &Rows, values: Vec<u8>| {
        let array = TypedArray::new(Dtype::U8, vec![values.len()], values).unwrap();
        forecast(
            TimeSeriesType::Probabilistic,
            Some(period(HOUR, "PT1H")),
            spelled(DAY, "P1D"),
            spelled(2 * HOUR, "PT2H"),
            rows,
            &array,
            "wind".to_string(),
        )
    };
    let rows = Rows {
        timestamps: vec![T0, T0, T0 + HOUR, T0 + HOUR],
        issue: vec![T0; 4],
        lanes: vec![p(0.1), p(0.9), p(0.1), p(0.9)],
    };
    let first = build(&rows, vec![1, 2, 3, 4]).unwrap();
    assert_eq!(first.array.shape, [2, 2, 1]);
    assert_eq!(first.array.bytes, [1, 3, 2, 4]);
    let moved = Rows {
        timestamps: vec![T0 + HOUR, T0, T0 + HOUR, T0],
        issue: vec![T0; 4],
        lanes: vec![p(0.9), p(0.9), p(0.1), p(0.1)],
    };
    let again = build(&moved, vec![4, 2, 3, 1]).unwrap();
    assert_eq!((again.array.shape, again.array.bytes), (first.array.shape, first.array.bytes));
    let TimeAxis::Probabilistic { percentiles, .. } = again.axis else { panic!("percentiles") };
    assert_eq!(percentiles, [0.1f64.to_bits(), 0.9f64.to_bits()]);
}

#[test]
fn rows_can_be_read_off_what_is_emittable() {
    assert!(is_emittable(&deterministic(grid(T0))));
    assert!(!is_emittable(&deterministic(grid(i64::MAX))), "off the calendar");
    let mut flat = deterministic(grid(T0));
    flat.array = TypedArray::new(Dtype::U8, vec![4], vec![0; 4]).unwrap();
    assert!(!is_emittable(&flat), "an axis is missing");
    let huge = ForecastGrid { count: usize::MAX / 2, ..grid(T0) };
    assert!(is_emittable(&deterministic(huge)), "still a number of values");
    let huge = ForecastGrid { count: usize::MAX / 2 + 1, ..grid(T0) };
    assert!(!is_emittable(&deterministic(huge)));
}
