//! The two tables of a partition, and what their files must say.
use infrastore::footer::Footer;
use infrastore::halves::{check_columns, check_format, check_pair};
use infrastore::instant::{Period, Step};
use infrastore::kinds::{Dtype, ElementType, TimeReference, TimeSeriesType};
use infrastore::partition::{PartitionKey, ValueKind};
use infrastore::series::{ForecastGrid, TimeAxis};
use infrastore::table::{
    canonical_array, grid_of, reference_literal, required_columns, time_axis_of, timestamp_type,
    value_data_type, ArrayKey, Column, ColumnType, PartitionSchema,
};
use infrastore::array::TypedArray;

const T0: i64 = 1_577_836_800_000;

fn period(ms: i64, iso: &str) -> Period {
    Period { step: Step::Millis(ms), iso: iso.to_string() }
}

fn grid() -> ForecastGrid {
    ForecastGrid {
        initial_timestamp: T0,
        resolution: period(3_600_000, "PT1H"),
        horizon: period(7_200_000, "PT2H"),
        interval: period(86_400_000, "P1D"),
        count: 3,
    }
}

fn key(kind: TimeSeriesType, value_kind: ValueKind, reference: Option<TimeReference>) -> PartitionKey {
    PartitionKey { time_series_type: kind, value_kind, time_reference: reference }
}

fn scalar() -> ValueKind {
    ValueKind::Dense { dtype: Dtype::F64, shape: vec![] }
}

fn names(columns: &[Column]) -> Vec<&str> {
    columns.iter().map(|c| c.name).collect()
}

fn array_key(hash: &str, axis: &str) -> ArrayKey {
    ArrayKey { data_hash: hash.to_string(), time_axis: axis.to_string() }
}

#[test]
fn array_keys_are_ordered_by_hash_and_then_by_axis() {
    assert!(array_key("a", "z").less(&array_key("b", "a")));
    assert!(array_key("a", "a").less(&array_key("a", "b")));
    assert!(!array_key("a", "b").less(&array_key("a", "b")));
    assert!(array_key("a", "b").same(&array_key("a", "b").copied()));
    assert!(!array_key("a", "b").same(&array_key("a", "c")));
}

#[test]
fn a_time_axis_spells_what_decides_the_instants() {
    let single = TimeAxis::SingleTimeSeries {
        initial_timestamp: T0,
        resolution: period(3_600_000, "PT1H"),
        length: 24,
    };
    assert_eq!(time_axis_of(&single, "unused"), "R24/2020-01-01T00:00:00Z/PT1H");
    let irregular = TimeAxis::NonSequentialTimeSeries { timestamps: vec![T0] };
    assert_eq!(time_axis_of(&irregular, "cafe"), "cafe");
    let forecast = TimeAxis::Deterministic { grid: grid() };
    assert_eq!(time_axis_of(&forecast, ""), "R3/2020-01-01T00:00:00Z/P1D/PT2H/PT1H");
}

#[test]
fn a_grid_comes_from_the_values() {
    let single = TimeAxis::SingleTimeSeries {
        initial_timestamp: T0,
        resolution: period(3_600_000, "PT1H"),
        length: 24,
    };
    assert_eq!(grid_of(&single).initial_timestamp, Some(T0));
    assert_eq!(grid_of(&single).count, Some(24));
    let persistent = TimeAxis::PersistentTimeSeries { timestamps: vec![T0] };
    assert_eq!(grid_of(&persistent).count, None);
    assert_eq!(grid_of(&TimeAxis::Deterministic { grid: grid() }).count, Some(3));
}

#[test]
fn a_static_partition_has_no_forecast_columns() {
    let table = PartitionSchema::new(
        key(TimeSeriesType::SingleTimeSeries, scalar(), Some(TimeReference::Utc)),
        None,
    )
    .unwrap();
    assert_eq!(names(&table.values.columns), ["data_hash", "time_axis", "timestamp", "value"]);
    assert_eq!(
        names(&table.series.columns),
        [
            "data_hash", "time_axis", "id", "owner_id", "owner_type", "owner_category",
            "time_series_type", "name", "initial_timestamp", "resolution", "length", "features",
            "element_type", "element_shape", "time_reference", "units", "quantity_kind",
            "unit_system", "component_field", "application_data",
        ]
    );
    assert!(matches!(table.values.columns[3].column_type, ColumnType::Primitive(Dtype::F64)));
    assert_eq!(table.element_width(), 1);
    assert!(table.element_shape().is_empty());
}

#[test]
fn a_probabilistic_partition_has_its_lane_and_its_windows() {
    let table =
        PartitionSchema::new(key(TimeSeriesType::Probabilistic, scalar(), None), None).unwrap();
    assert_eq!(
        names(&table.values.columns),
        ["data_hash", "time_axis", "timestamp", "issue_time", "percentile", "value"]
    );
    assert!(names(&table.series.columns).contains(&"horizon"));
    assert!(!names(&table.series.columns).contains(&"length"));
    let irregular =
        PartitionSchema::new(key(TimeSeriesType::NonSequentialTimeSeries, scalar(), None), None)
            .unwrap();
    assert!(!names(&irregular.series.columns).contains(&"resolution"));
}

#[test]
fn a_footer_holds_the_exact_key() {
    let table = PartitionSchema::new(
        key(
            TimeSeriesType::SingleTimeSeries,
            ValueKind::Tuple { arity: 3, dtype: Dtype::F64 },
            Some(TimeReference::Zone("America/Denver".to_string())),
        ),
        None,
    )
    .unwrap();
    let get = |k: &str| table.values.footer.get(k).unwrap();
    assert_eq!(get("infrastore.format"), "normalized_v1");
    assert_eq!(get("infrastore.role"), "values");
    assert_eq!(get("rows_contiguous_by_key"), "true");
    assert_eq!(get("time_series_type"), "SingleTimeSeries");
    assert_eq!(get("element_type"), "tuple(3,f64)");
    assert_eq!(get("element_shape"), "[3]");
    assert_eq!(get("time_reference"), "America/Denver");
    assert_eq!(table.series.footer.get("infrastore.role"), Some("series".to_string()));
    assert_eq!(table.values.footer.get("nothing"), None);
    assert_eq!(table.element_width(), 3);
}

#[test]
fn function_data_needs_the_width_its_file_settled_on() {
    let curve = || ValueKind::Composite("piecewise_linear".to_string());
    assert_eq!(
        value_data_type(&curve(), None).unwrap_err(),
        "a composite partition needs the width its file settled on".to_string()
    );
    let ColumnType::FixedSizeList { item, size } = value_data_type(&curve(), Some(5)).unwrap()
    else {
        panic!("a list")
    };
    assert_eq!(size, 5);
    assert!(matches!(*item, ColumnType::Primitive(Dtype::F64)));
}

#[test]
fn a_dimension_that_no_list_can_have_is_refused() {
    let wide = ValueKind::Dense { dtype: Dtype::I8, shape: vec![2, 3_000_000_000] };
    assert_eq!(
        value_data_type(&wide, None).unwrap_err(),
        "element dimension 3000000000 does not fit an i32".to_string()
    );
}

#[test]
fn time_columns_are_spelled_as_the_partition_is() {
    let zone = |r: Option<TimeReference>| match timestamp_type(&r) {
        ColumnType::Timestamp { zone } => zone,
        _ => panic!("a time column"),
    };
    assert_eq!(zone(None), Some("UTC".to_string()));
    assert_eq!(zone(Some(TimeReference::Utc)), Some("UTC".to_string()));
    assert_eq!(zone(Some(TimeReference::Zoneless)), None);
    assert_eq!(zone(Some(TimeReference::FixedOffset(-420))), Some("-07:00".to_string()));
    assert_eq!(reference_literal(&None), "unspecified");
    assert_eq!(reference_literal(&Some(TimeReference::Utc)), "utc");
}

#[test]
fn what_a_partition_writes_its_reader_accepts() {
    for kind in [
        TimeSeriesType::SingleTimeSeries,
        TimeSeriesType::PersistentTimeSeries,
        TimeSeriesType::Scenarios,
    ] {
        let table = PartitionSchema::new(key(kind, scalar(), None), None).unwrap();
        let v = &table.values;
        let s = &table.series;
        assert!(check_format(&v.footer, "v").is_ok());
        assert!(check_pair(&v.footer, &s.footer, "v", "s").is_ok());
        let present = |c: &[Column]| c.iter().map(|c| c.name.to_string()).collect::<Vec<_>>();
        assert!(check_columns(&present(&v.columns), &v.footer, "v", false).is_ok());
        assert!(check_columns(&present(&s.columns), &s.footer, "s", true).is_ok());
        assert_eq!(required_columns(kind, false), names(&v.columns));
        assert_eq!(required_columns(kind, true), names(&s.columns));
    }
}

fn marked(role: &str, kind: &str) -> Footer {
    let mut f = Footer::new();
    f.set("infrastore.format", "normalized_v1".to_string());
    f.set("infrastore.role", role.to_string());
    f.set("time_series_type", kind.to_string());
    f
}

#[test]
fn a_later_format_is_refused_by_version() {
    let mut f = Footer::new();
    assert!(check_format(&f, "p").is_ok());
    f.set("infrastore.format", "normalized_v2".to_string());
    assert_eq!(
        check_format(&f, "p"),
        Err(
            "p is normalized_v2, which this build does not read (it reads normalized_v1)"
                .to_string()
        )
    );
}

#[test]
fn halves_of_two_exports_are_refused() {
    let plain = Footer::new();
    let v = marked("values", "Scenarios");
    let s = marked("series", "Scenarios");
    assert!(check_pair(&plain, &plain, "v", "s").is_ok());
    assert!(check_pair(&v, &s, "v", "s").is_ok());
    assert_eq!(
        check_pair(&plain, &s, "v", "s"),
        Err(
            "s is an infrastore partition file and v is not; a partition's two halves are \
             written together, so this pair was assembled by hand"
                .to_string()
        )
    );
    assert_eq!(
        check_pair(&s, &s, "v", "s"),
        Err(
            "v says it is the `series` half of a partition, but it is being read as the `values` \
             half"
                .to_string()
        )
    );
    let mut nameless = Footer::new();
    nameless.set("infrastore.format", "normalized_v1".to_string());
    assert!(check_pair(&v, &nameless, "v", "s").unwrap_err().contains("`unnamed`"));
    assert_eq!(
        check_pair(&v, &marked("series", "Deterministic"), "v", "s"),
        Err(
            "the two halves disagree about `time_series_type`: v says \"Scenarios\" and s says \
             \"Deterministic\". A partition's halves are one export's, so these came from two."
                .to_string()
        )
    );
}

#[test]
fn a_missing_column_is_named() {
    let f = marked("values", "SingleTimeSeries");
    let present = vec!["data_hash".to_string(), "timestamp".to_string()];
    assert_eq!(
        check_columns(&present, &f, "p", false),
        Err(
            "p is the values half of a SingleTimeSeries partition and is missing `time_axis`, \
             `value`: every column of this format is required, so a reader never has to guess \
             what an absent one meant"
                .to_string()
        )
    );
    assert!(check_columns(&present, &Footer::new(), "p", false).is_ok());
    let silent = marked("values", "");
    assert!(check_columns(&present, &silent, "p", false).unwrap_err().contains("no telling"));
    let unknown = marked("values", "Wave");
    assert_eq!(
        check_columns(&present, &unknown, "p", false),
        Err("unknown time_series_type \"Wave\"".to_string())
    );
}

#[test]
fn only_function_data_is_encoded_again() {
    let array = || TypedArray::new(Dtype::F64, vec![1], vec![0; 8]).unwrap();
    let other = || TypedArray::new(Dtype::F64, vec![0], vec![]).unwrap();
    let curve = ElementType::Composite("piecewise_linear".to_string());
    let plain = ElementType::Scalar(Dtype::F64);
    assert_eq!(canonical_array(array(), &plain, Ok(Some(other()))).unwrap().shape, [1]);
    assert_eq!(canonical_array(array(), &curve, Ok(Some(other()))).unwrap().shape, [0]);
    assert_eq!(canonical_array(array(), &curve, Ok(None)).unwrap().shape, [1]);
    assert_eq!(
        canonical_array(array(), &curve, Err("no points".to_string())).unwrap_err(),
        "no points".to_string()
    );
}
