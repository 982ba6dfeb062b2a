//! One series as one table, and back.
use infrastore::array::TypedArray;
use infrastore::batch::{ReadBatch, ReadColumn, ReadData, TimeUnit, ValueColumn, ValueEnd};
use infrastore::columns::ColumnData;
use infrastore::footer::Footer;
use infrastore::instant::{Period, Step};
use infrastore::kinds::{Dtype, ElementType, OwnerCategory, TimeReference, TimeSeriesType};
use infrastore::series::{ForecastGrid, TimeAxis, TimeSeriesData};
use infrastore::single_export::{record_batch, timestamp_data_type};
use infrastore::single_import::{
    build_series, declared_element_type, declared_reference, declared_resolution, dtype_of,
    read_columns, FileReadings, ImportOptions, ImportedSeries,
};
use infrastore::table::ColumnType;

const T0: i64 = 1_577_836_800_000;
const HOUR: i64 = 3_600_000;

fn hour() -> Period {
    Period { step: Step::Millis(HOUR), iso: "PT1H".to_string() }
}

fn footer(entries: &[(&str, &str)]) -> Footer {
    let mut f = Footer::new();
    for (k, v) in entries {
        f.set(k, v.to_string());
    }
    f
}

fn regular(n: usize) -> TimeSeriesData {
    let array = TypedArray::new(Dtype::U8, vec![n], (0..n as u8).collect()).unwrap();
    let axis = TimeAxis::SingleTimeSeries { initial_timestamp: T0, resolution: hour(), length: n };
    TimeSeriesData::new(axis, array, "load".to_string())
}

fn scenarios() -> TimeSeriesData {
    let grid = ForecastGrid {
        initial_timestamp: T0,
        resolution: hour(),
        horizon: hour(),
        interval: hour(),
        count: 2,
    };
    let array = TypedArray::new(Dtype::U8, vec![3, 1, 2], (0..6).collect()).unwrap();
    TimeSeriesData::new(TimeAxis::Scenarios { grid, scenario_count: 3 }, array, "s".to_string())
}

fn readings() -> FileReadings {
    FileReadings {
        element_type: Some(ElementType::Scalar(Dtype::U8)),
        time_reference: Ok(TimeReference::Utc),
        resolution: Ok(hour()),
        inferred: Err("no grid".to_string()),
        verdict: Ok(()),
    }
}

fn batch(stamps: Vec<i64>) -> ReadBatch {
    let n = stamps.len();
    ReadBatch {
        rows: n,
        columns: vec![ReadColumn {
            name: "timestamp".to_string(),
            nulls: false,
            shown: String::new(),
            data: ReadData::Timestamp {
                unit: TimeUnit::Millisecond,
                zone: Some("UTC".to_string()),
                values: stamps,
            },
        }],
        value: Some(ValueColumn {
            levels: vec![],
            end: ValueEnd::Leaf { nulls: false, dtype: Dtype::U8, bytes: (0..n as u8).collect() },
        }),
    }
}

fn import(stamps: Vec<i64>, f: &Footer, options: &ImportOptions) -> Result<ImportedSeries, String> {
    let c = read_columns(&batch(stamps))?;
    build_series(c.timestamps, c.array, f, options, &c.zone, readings())
}

#[test]
fn a_static_series_has_two_columns() {
    let t = record_batch(&regular(3), &None, footer(&[("name", "load")])).unwrap();
    let names: Vec<&str> = t.columns.iter().map(|c| c.name).collect();
    assert_eq!(names, ["timestamp", "value"]);
    assert!(matches!(&t.data[0], ColumnData::Instants(v) if *v == [T0, T0 + HOUR, T0 + 2 * HOUR]));
    assert!(matches!(&t.data[1], ColumnData::Values(a) if a.bytes == [0, 1, 2]));
    assert_eq!(t.footer.get("name"), Some("load".to_string()));
}

#[test]
fn a_forecast_is_a_long_table() {
    let t = record_batch(&scenarios(), &Some(TimeReference::Zoneless), footer(&[])).unwrap();
    let names: Vec<&str> = t.columns.iter().map(|c| c.name).collect();
    assert_eq!(names, ["issue_time", "target_time", "scenario", "value"]);
    assert!(matches!(&t.data[2], ColumnData::SmallIntegers(v) if *v == [0, 1, 2, 0, 1, 2]));
    assert!(matches!(&t.data[3], ColumnData::Values(a) if a.bytes == [0, 2, 4, 1, 3, 5]));
    assert_eq!(t.footer.get("scenario_count"), Some("3".to_string()));
    assert_eq!(t.footer.get("element_shape"), Some("[]".to_string()));
    assert!(matches!(t.columns[0].column_type, ColumnType::Timestamp { zone: None }));
}

#[test]
fn a_table_must_have_a_value_for_each_instant() {
    let mut uneven = regular(3);
    uneven.array = TypedArray::new(Dtype::U8, vec![2], vec![0, 1]).unwrap();
    assert_eq!(
        record_batch(&uneven, &None, Footer::new()).unwrap_err(),
        "3 timestamps but 2 value rows"
    );
    let mut flat = scenarios();
    flat.array = TypedArray::new(Dtype::U8, vec![6], (0..6).collect()).unwrap();
    assert_eq!(
        record_batch(&flat, &None, Footer::new()).unwrap_err(),
        "a forecast array has at least 3 dimensions, got [6]"
    );
    let mut short = scenarios();
    short.array = TypedArray::new(Dtype::U8, vec![3, 1, 1], (0..3).collect()).unwrap();
    assert_eq!(
        record_batch(&short, &None, Footer::new()).unwrap_err(),
        "forecast array is 3 bytes, too short for element 4"
    );
}

#[test]
fn a_written_table_reads_back() {
    let f = footer(&[
        ("time_series_type", "SingleTimeSeries"),
        ("element_type", "u8"),
        ("name", "load"),
        ("time_reference", "utc"),
        ("resolution", "PT1H"),
        ("id", "12"),
        ("owner_id", "-4"),
        ("owner_type", "Bus"),
        ("owner_category", "Component"),
        ("features", r#"{"a":1}"#),
        ("units", "MW"),
    ]);
    let s = import(vec![T0, T0 + HOUR], &f, &ImportOptions::default()).unwrap();
    assert_eq!(s.recorded_id, Some(12));
    assert_eq!(s.owner_id, Some(-4));
    assert_eq!(s.owner_type, Some("Bus".to_string()));
    assert_eq!(s.owner_category, Some(OwnerCategory::Component));
    assert_eq!(s.features.entries.len(), 1);
    assert_eq!(s.data.name, "load");
    assert_eq!(s.data.descriptors.units, Some("MW".to_string()));
    assert!(matches!(
        s.data.axis,
        TimeAxis::SingleTimeSeries { initial_timestamp: T0, length: 2, .. }
    ));
}

#[test]
fn the_first_row_off_the_grid_is_named() {
    let f = footer(&[
        ("time_series_type", "SingleTimeSeries"),
        ("name", "load"),
        ("resolution", "PT1H"),
    ]);
    let none = ImportOptions::default();
    assert_eq!(
        import(vec![T0, T0 + HOUR, T0 + HOUR + 1], &f, &none).unwrap_err(),
        "the timestamps do not sit on a PT1H grid anchored at 2020-01-01 00:00:00 UTC: row 2 is \
         not where the grid puts it"
    );
    assert!(import(vec![], &f, &none).unwrap_err().contains("this file has no rows"));
}

#[test]
fn a_footer_may_say_too_little_or_too_much() {
    let none = ImportOptions::default();
    let at = || vec![T0];
    assert_eq!(
        import(at(), &footer(&[]), &none).unwrap_err(),
        "the file records no series name and none was given; a name is part of a series' identity"
    );
    let forecast = footer(&[("time_series_type", "Scenarios"), ("name", "s")]);
    assert_eq!(
        import(at(), &forecast, &none).unwrap_err(),
        "Parquet import covers the static types; Scenarios is a forecast"
    );
    let asserted =
        ImportOptions { time_series_type: Some(TimeSeriesType::SingleTimeSeries), ..none };
    assert_eq!(
        import(at(), &forecast, &asserted).unwrap_err(),
        "the file declares Scenarios, but SingleTimeSeries was asserted"
    );
    let owner = footer(&[("name", "s"), ("owner_id", "x1")]);
    let none = ImportOptions::default();
    assert_eq!(
        import(at(), &owner, &none).unwrap_err(),
        "owner_id: invalid digit found in string"
    );
    let id = footer(&[("name", "s"), ("id", "99999999999999999999")]);
    assert_eq!(import(at(), &id, &none).unwrap().recorded_id, None);
    let plus = footer(&[("name", "s"), ("id", "+5")]);
    assert_eq!(import(at(), &plus, &none).unwrap().recorded_id, Some(5));
    let category = footer(&[("name", "s"), ("owner_category", "Region")]);
    assert_eq!(
        import(at(), &category, &none).unwrap_err(),
        "unknown owner_category \"Region\""
    );
}

#[test]
fn a_table_is_refused_for_what_it_is_not() {
    let mut ragged = batch(vec![T0]);
    ragged.value = Some(ValueColumn { levels: vec![], end: ValueEnd::List });
    assert!(read_columns(&ragged).unwrap_err().contains("so this import reads fixed-size lists"));
    let mut decoded = batch(vec![T0]);
    decoded.value = Some(ValueColumn { levels: vec![], end: ValueEnd::Struct });
    assert!(read_columns(&decoded).unwrap_err().contains("this version reads the packed form"));
    let mut timeless = batch(vec![T0]);
    timeless.columns.clear();
    assert_eq!(
        read_columns(&timeless).unwrap_err(),
        "the file has no `timestamp` column"
    );
}

#[test]
fn column_types_and_dtypes_correspond() {
    assert_eq!(dtype_of(&ColumnType::Primitive(Dtype::Bool)), Some(Dtype::Bool));
    assert_eq!(dtype_of(&ColumnType::Text), None);
    assert!(matches!(
        timestamp_data_type(&Some(TimeReference::Utc)),
        ColumnType::Timestamp { zone: Some(z) } if z == "UTC"
    ));
}

#[test]
fn the_footer_is_read_before_the_zone() {
    let mut footer = Footer::new();
    let zone = Some("America/Denver".to_string());
    assert_eq!(declared_reference(&footer, &zone), zone);
    assert_eq!(declared_reference(&footer, &None), None);
    assert_eq!(declared_element_type(&footer), None);
    assert_eq!(declared_resolution(&footer), None);
    footer.set("time_reference", "utc".to_string());
    footer.set("element_type", "tuple(3,f64)".to_string());
    footer.set("resolution", "PT1H".to_string());
    assert_eq!(declared_reference(&footer, &zone), Some("utc".to_string()));
    assert_eq!(declared_element_type(&footer), Some("tuple(3,f64)".to_string()));
    assert_eq!(declared_resolution(&footer), Some("PT1H".to_string()));
}
