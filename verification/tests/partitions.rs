//! Writing partitions, and reading back what was written.
use infrastore::rows::series_rows;
use infrastore::array::TypedArray;
use infrastore::assemble::{assemble, finish_import, ImportOptions, ImportedSeries, Outcomes, Readings};
use infrastore::batch::{
    rescale, ListLevel, ReadBatch, ReadColumn, ReadData, TimeUnit, ValueColumn, ValueEnd,
};
use infrastore::catalog::{partition_of, per_step_shape, TimeSeriesMetadata};
use infrastore::columns::ColumnData;
use infrastore::features::{Feature, FeatureValue, Features};
use infrastore::footer::Footer;
use infrastore::groups::{NextValues, ValuesGroup, ValuesReader};
use infrastore::instant::{Period, Step};
use infrastore::kinds::{Dtype, ElementType, OwnerCategory, TimeReference, TimeSeriesType, UnitSystem};
use infrastore::merge::{Join, Step as Walk};
use infrastore::partition_tables::{series_table, ValuesWriter, WriteStep};
use infrastore::plan::{
    array_key, plan_groups, plan_partition, ExportReport, PartitionPlan,
    Selected,
};
use infrastore::series::{Descriptors, ForecastGrid, TimeAxis, TimeSeriesData};
use infrastore::series_file::{descriptor_row, series_text_columns, SeriesFileBuilder};
use infrastore::series_reader::{read_series_rows, SeriesRow};
use infrastore::table::{Column, PartitionSchema};
use infrastore::values::ValuesBuffer;

const T0: i64 = 1_577_836_800_000;
const HOUR: i64 = 3_600_000;

fn period(ms: i64, iso: &str) -> Period {
    Period { step: Step::Millis(ms), iso: iso.to_string() }
}

fn hour() -> Period {
    period(HOUR, "PT1H")
}

fn doubles(shape: Vec<usize>, values: &[f64]) -> TypedArray {
    let bytes = values.iter().flat_map(|v| v.to_le_bytes()).collect();
    TypedArray::new(Dtype::F64, shape, bytes).unwrap()
}

fn descriptors() -> Descriptors {
    Descriptors {
        element_type: ElementType::Scalar(Dtype::F64),
        units: Some("MW".to_string()),
        quantity_kind: None,
        unit_system: Some(UnitSystem::NaturalUnits),
        time_reference: Some(TimeReference::Utc),
        component_field: None,
        application_data: None,
    }
}

fn row(name: &str, kind: TimeSeriesType, id: i64, shape: Vec<usize>) -> TimeSeriesMetadata {
    TimeSeriesMetadata {
        id: Some(id),
        owner_id: 7,
        owner_type: "Generator".to_string(),
        owner_category: OwnerCategory::Component,
        time_series_type: kind,
        name: name.to_string(),
        data_hash: [0; 32],
        initial_timestamp: None,
        resolution: Some(hour()),
        horizon: Some(period(2 * HOUR, "PT2H")),
        interval: Some(period(24 * HOUR, "P1D")),
        count: None,
        length: None,
        percentiles: None,
        element_type: ElementType::Scalar(Dtype::F64),
        element_shape: shape,
        features: Features {
            entries: vec![Feature {
                name: "model_year".to_string(),
                value: FeatureValue::Int(2030),
            }],
        },
        units: Some("MW".to_string()),
        quantity_kind: None,
        unit_system: Some(UnitSystem::NaturalUnits),
        time_reference: Some(TimeReference::Utc),
        component_field: None,
        application_data: None,
    }
}

fn regular(name: &str, id: i64, hash: &str, values: &[f64]) -> Selected {
    let axis = TimeAxis::SingleTimeSeries {
        initial_timestamp: T0,
        resolution: hour(),
        length: values.len(),
    };
    let data = TimeSeriesData {
        name: name.to_string(),
        axis,
        array: doubles(vec![values.len()], values),
        descriptors: descriptors(),
    };
    Selected {
        row: row(name, TimeSeriesType::SingleTimeSeries, id, vec![]),
        data,
        data_hash: Ok(hash.to_string()),
        timestamps_hash: String::new(),
    }
}

fn forecast_grid(count: usize) -> ForecastGrid {
    ForecastGrid {
        initial_timestamp: T0,
        resolution: hour(),
        horizon: period(2 * HOUR, "PT2H"),
        interval: period(24 * HOUR, "P1D"),
        count,
    }
}

fn probabilistic() -> Selected {
    let values: Vec<f64> = (0..12).map(|v| v as f64).collect();
    let axis = TimeAxis::Probabilistic {
        grid: forecast_grid(3),
        percentiles: vec![10f64.to_bits(), 90f64.to_bits()],
    };
    Selected {
        row: row("wind", TimeSeriesType::Probabilistic, 4, vec![2, 3]),
        data: TimeSeriesData {
            name: "wind".to_string(),
            axis,
            array: doubles(vec![2, 2, 3], &values),
            descriptors: descriptors(),
        },
        data_hash: Ok("ff".to_string()),
        timestamps_hash: String::new(),
    }
}

/// The columns of a batch as a reader of the file finds them.
fn as_read(columns: &[Column], data: Vec<ColumnData>) -> ReadBatch {
    let mut rows = 0;
    let mut value = None;
    let mut list = Vec::new();
    for (column, contents) in columns.iter().zip(data) {
        let data = match contents {
            ColumnData::Text(v) => ReadData::Text(v),
            ColumnData::Integers(v) => ReadData::Int64(v),
            ColumnData::SmallIntegers(v) => ReadData::Int32(v),
            ColumnData::Floats(v) => ReadData::Float64(v),
            ColumnData::Instants(values) => ReadData::Timestamp {
                unit: TimeUnit::Millisecond,
                zone: Some("UTC".to_string()),
                values,
            },
            ColumnData::Values(array) => {
                rows = array.shape[0];
                let levels = array.shape[1..]
                    .iter()
                    .map(|d| ListLevel { size: *d as i32, nulls: false })
                    .collect();
                let end = ValueEnd::Leaf { nulls: false, dtype: array.dtype, bytes: array.bytes };
                value = Some(ValueColumn { levels, end });
                continue;
            }
        };
        if let ReadData::Text(v) = &data {
            rows = v.len();
        }
        list.push(ReadColumn {
            name: column.name.to_string(),
            nulls: false,
            shown: String::new(),
            data,
        });
    }
    ReadBatch { rows, columns: list, value }
}

fn plans(series: &Vec<Selected>) -> Vec<(String, Vec<usize>, PartitionPlan)> {
    plan_groups(series)
        .unwrap()
        .into_iter()
        .map(|g| {
            let plan = plan_partition(g.key.copied(), &g.members, series).unwrap();
            (g.stem, g.members, plan)
        })
        .collect()
}

fn values_batches(plan: &PartitionPlan, series: &Vec<Selected>) -> Vec<ReadBatch> {
    let mut writer = ValuesWriter::new(plan, series);
    let mut out = Vec::new();
    loop {
        match writer.step().unwrap() {
            WriteStep::Array(written) => out.extend(written.groups),
            WriteStep::Last(group) => out.push(group),
            WriteStep::Done => break,
        }
    }
    out.into_iter().map(|b| as_read(&plan.table.values.columns, b)).collect()
}

fn series_batch(plan: &PartitionPlan, series: &Vec<Selected>) -> ReadBatch {
    as_read(&plan.table.series.columns, series_table(plan, series).unwrap().unwrap())
}

fn spelled(text: &str) -> Result<Period, String> {
    match text {
        "PT1H" => Ok(hour()),
        "PT2H" => Ok(period(2 * HOUR, "PT2H")),
        "P1D" => Ok(period(24 * HOUR, "P1D")),
        other => Err(format!("not a period: {other}")),
    }
}

fn readings(row: &SeriesRow) -> Readings {
    Readings {
        element_type: Some(ElementType::Scalar(Dtype::F64)),
        time_reference: Ok(TimeReference::Utc),
        resolution: spelled(&row.resolution),
        interval: spelled(&row.interval),
        horizon: spelled(&row.horizon),
        inferred: Err("not a grid".to_string()),
    }
}

fn import(
    group: &ValuesGroup,
    row: &SeriesRow,
    footer: &Footer,
    options: &ImportOptions,
) -> Result<ImportedSeries, String> {
    let assembled = assemble(group, row, footer, options, readings(row))?;
    let outcomes = Outcomes {
        verdict: Ok(()),
        reencoded: Ok(None),
        actual_hash: Ok(group.key.data_hash.clone()),
    };
    finish_import(assembled, &group.key, row, options, outcomes)
}

fn walk(plan: &PartitionPlan, series: &Vec<Selected>) -> Result<Vec<ImportedSeries>, String> {
    let mut join = Join::new();
    let mut values = values_batches(plan, series).into_iter();
    let mut rows = vec![series_batch(plan, series)].into_iter();
    let mut out = Vec::new();
    loop {
        match join.step()? {
            Walk::ReadValues => join.push_values(values.next().as_ref())?,
            Walk::ReadSeries => join.push_series(rows.next().as_ref())?,
            Walk::File(group, list) => {
                for row in &list {
                    out.push(import(
                        &group,
                        row,
                        &plan.table.values.footer,
                        &ImportOptions::default(),
                    )?);
                }
            }
            Walk::Done => return Ok(out),
        }
    }
}

#[test]
fn series_are_divided_by_partition_and_by_array() {
    let series = vec![
        regular("b", 9, "02", &[1.0, 2.0]),
        probabilistic(),
        regular("a", 3, "01", &[3.0, 4.0]),
        regular("c", 2, "02", &[1.0, 2.0]),
    ];
    let plans = plans(&series);
    assert_eq!(plans.len(), 2);
    let (stem, members, plan) = &plans[0];
    assert_eq!(stem, "SingleTimeSeries.f64.utc");
    assert_eq!(members, &vec![0, 2, 3]);
    assert_eq!(plan.arrays.len(), 2);
    assert_eq!(plan.arrays[0].key.data_hash, "01");
    assert_eq!(plan.arrays[0].key.time_axis, "R2/2020-01-01T00:00:00Z/PT1H");
    assert_eq!(plan.arrays[0].members, [2]);
    assert_eq!(plan.arrays[1].members, [3, 0], "by id, whatever the order of the selection");
    assert_eq!(plans[1].1, [1]);
}

#[test]
fn an_empty_series_is_refused_and_named() {
    let series = vec![regular("a", 1, "01", &[1.0]), regular("b", 2, "02", &[])];
    let text = plan_groups(&series).unwrap_err();
    assert!(text.starts_with(
        "1 of the selected series hold no values and cannot be exported: 'b' (owner 7). A values"
    ));
}

#[test]
fn a_hash_that_could_not_be_computed_stops_its_partition() {
    let mut s = regular("a", 1, "01", &[1.0]);
    s.data_hash = Err("cannot decode".to_string());
    assert_eq!(array_key(&s), Err("cannot decode".to_string()));
    let series = vec![s];
    let groups = plan_groups(&series).unwrap();
    let plan = plan_partition(groups[0].key.copied(), &groups[0].members, &series);
    assert_eq!(plan.unwrap_err(), "cannot decode".to_string());
}

#[test]
fn a_forecasts_step_shape_follows_its_leading_axes() {
    let s = probabilistic();
    assert!(per_step_shape(&s.row).is_empty());
    let key = partition_of(&s.row);
    assert_eq!(key.file_name(), "Probabilistic.f64.utc.parquet");
}

#[test]
fn written_series_read_back() {
    let series = vec![
        regular("b", 9, "02", &[1.0, 2.0]),
        regular("a", 3, "01", &[3.0, 4.0, 5.0]),
        regular("c", 2, "02", &[1.0, 2.0]),
    ];
    let plans = plans(&series);
    let back = walk(&plans[0].2, &series).unwrap();
    let names: Vec<&str> = back.iter().map(|s| s.data.name.as_str()).collect();
    assert_eq!(names, ["a", "c", "b"]);
    for s in &back {
        let original = series.iter().find(|o| o.row.name == s.data.name).unwrap();
        assert_eq!(s.data.array.shape, original.data.array.shape);
        assert_eq!(s.data.array.bytes, original.data.array.bytes);
        assert_eq!(s.recorded_id, original.row.id);
        assert_eq!(s.owner_id, 7);
        assert_eq!(s.owner_type, "Generator");
        assert_eq!(s.data.descriptors.units, Some("MW".to_string()));
        assert_eq!(s.data.descriptors.quantity_kind, None);
        assert_eq!(s.features.entries[0].name, "model_year");
        assert!(matches!(
            &s.data.axis,
            TimeAxis::SingleTimeSeries { initial_timestamp: T0, length, .. }
                if *length == original.data.array.shape[0]
        ));
    }
}

#[test]
fn a_written_forecast_reads_back() {
    let series = vec![probabilistic()];
    let plans = plans(&series);
    let back = walk(&plans[0].2, &series).unwrap();
    assert_eq!(back.len(), 1);
    assert_eq!(back[0].data.array.shape, [2, 2, 3]);
    assert_eq!(back[0].data.array.bytes, series[0].data.array.bytes);
    let TimeAxis::Probabilistic { grid, percentiles } = &back[0].data.axis else {
        panic!("a probabilistic forecast")
    };
    assert_eq!(percentiles, &vec![10f64.to_bits(), 90f64.to_bits()]);
    assert_eq!(grid.count, 3);
    assert_eq!(grid.initial_timestamp, T0);
}

#[test]
fn rows_are_window_major_with_lanes_together() {
    let series = vec![probabilistic()];
    let plans = plans(&series);
    let batches = values_batches(&plans[0].2, &series);
    let ValueEnd::Leaf { bytes, .. } = &batches[0].value.as_ref().unwrap().end else {
        panic!("plain values")
    };
    let values: Vec<f64> =
        bytes.chunks(8).map(|c| f64::from_le_bytes(c.try_into().unwrap())).collect();
    assert_eq!(values, [0.0, 6.0, 3.0, 9.0, 1.0, 7.0, 4.0, 10.0, 2.0, 8.0, 5.0, 11.0]);
}

#[test]
fn function_data_is_padded_to_the_widest() {
    let curve = |name: &str, hash: &str, width: usize| {
        let mut s = regular(name, 1, hash, &[]);
        s.row.element_type = ElementType::Composite("piecewise_linear".to_string());
        s.row.element_shape = vec![width];
        s.data.array = doubles(vec![1, width], &vec![1.5; width]);
        s.data.axis = TimeAxis::SingleTimeSeries {
            initial_timestamp: T0,
            resolution: hour(),
            length: 1,
        };
        s
    };
    let series = vec![curve("a", "01", 3), curve("b", "02", 5)];
    let plans = plans(&series);
    assert_eq!(plans.len(), 1);
    assert_eq!(plans[0].2.table.composite_width, Some(5));
    let batches = values_batches(&plans[0].2, &series);
    let ValueEnd::Leaf { bytes, .. } = &batches[0].value.as_ref().unwrap().end else {
        panic!("plain values")
    };
    assert_eq!(bytes.len(), 2 * 5 * 8);
    assert_eq!(&bytes[24..40], &[0u8; 16], "zeros up to the width");
}

#[test]
fn an_array_that_does_not_belong_is_refused_and_leaves_the_buffer_alone() {
    let series = vec![regular("a", 1, "01", &[1.0, 2.0])];
    let plans = plans(&series);
    let plan = &plans[0].2;
    let mut buffer = ValuesBuffer::new(&plan.table);
    let key = &plan.arrays[0].key;
    assert_eq!(buffer.push_array(key, &series[0].row, &series[0].data), Ok(2));
    let mut narrow = regular("n", 2, "02", &[1.0]);
    narrow.data.array = TypedArray::new(Dtype::F32, vec![1], vec![0; 4]).unwrap();
    assert_eq!(
        buffer.push_array(key, &narrow.row, &narrow.data),
        Err("two arrays in one partition disagree about their dtype".to_string())
    );
    let mut wide = regular("w", 3, "03", &[1.0]);
    wide.row.element_shape = vec![4];
    assert_eq!(
        buffer.push_array(key, &wide.row, &wide.data),
        Err("series 'w' has element width 4, but its partition is 1".to_string())
    );
    let mut short = regular("s", 4, "04", &[1.0, 2.0]);
    short.data.array = doubles(vec![1], &[1.0]);
    assert_eq!(
        buffer.push_array(key, &short.row, &short.data),
        Err("series 's' is shorter than its shape".to_string())
    );
    assert!(buffer.push_array(key, &series[0].row, &probabilistic().data).is_err());
    assert_eq!(buffer.len(), 2);
    let taken = buffer.take(1).unwrap();
    assert_eq!(taken.len(), plan.table.values.columns.len());
    assert_eq!(buffer.len(), 1);
}

#[test]
fn row_groups_end_on_arrays_where_they_can() {
    let long = |name: &str, hash: &str, n: usize| {
        let mut s = regular(name, 1, hash, &[]);
        s.data.array = TypedArray::new(Dtype::F64, vec![n], vec![0; n * 8]).unwrap();
        s.data.axis =
            TimeAxis::SingleTimeSeries { initial_timestamp: T0, resolution: hour(), length: n };
        s
    };
    let series = vec![long("a", "01", 300_000), long("b", "02", 800_000)];
    let plans = plans(&series);
    let batches = values_batches(&plans[0].2, &series);
    let sizes: Vec<usize> = batches.iter().map(|b| b.rows).collect();
    assert_eq!(sizes, [300_000, 800_000]);
}

#[test]
fn a_row_has_a_text_for_every_text_column() {
    let s = probabilistic();
    let texts = descriptor_row(TimeSeriesType::Probabilistic, &s.row);
    let names: Vec<&str> = texts.iter().map(|d| d.column).collect();
    assert_eq!(names, series_text_columns(TimeSeriesType::Probabilistic));
    let find = |n: &str| texts.iter().find(|d| d.column == n).unwrap().text.clone();
    assert_eq!(find("horizon"), "PT2H");
    assert_eq!(find("features"), r#"{"model_year":2030}"#);
    assert_eq!(find("element_shape"), "[]", "the axes of a forecast are no part of an element");
    assert_eq!(find("quantity_kind"), "", "absent is the empty text");
    assert_eq!(find("unit_system"), "natural_units");
}

#[test]
fn a_series_without_an_anchor_has_no_row_in_a_regular_partition() {
    let series = vec![regular("a", 1, "01", &[1.0])];
    let plans = plans(&series);
    let plan = &plans[0].2;
    let mut builder = SeriesFileBuilder::new(&plan.table);
    let mut s = regular("x", 2, "02", &[1.0]);
    s.data.axis = TimeAxis::NonSequentialTimeSeries { timestamps: vec![T0] };
    assert_eq!(
        builder.push(&plan.arrays[0].key, &s.row, &s.data),
        Err("series 'x' is a SingleTimeSeries but carries no initial_timestamp".to_string())
    );
    assert!(builder.is_empty());
    assert_eq!(builder.push(&plan.arrays[0].key, &series[0].row, &series[0].data), Ok(()));
    assert!(!builder.is_empty());
    let plan = PartitionPlan { table: plans.into_iter().next().unwrap().2.table, arrays: vec![] };
    assert!(series_table(&plan, &series).unwrap().is_none(), "no series, no table");
}

#[test]
fn a_values_file_is_written_array_by_array() {
    let series = vec![
        regular("b", 9, "02", &[1.0, 2.0]),
        regular("a", 3, "01", &[3.0, 4.0, 5.0]),
        regular("c", 2, "02", &[1.0, 2.0]),
    ];
    let plans = plans(&series);
    let mut writer = ValuesWriter::new(&plans[0].2, &series);
    for rows in [3, 2] {
        match writer.step().unwrap() {
            WriteStep::Array(written) => {
                assert_eq!(written.rows, rows);
                assert!(written.groups.is_empty(), "far from a row group");
            }
            other => panic!("not an array: {other:?}"),
        }
    }
    match writer.step().unwrap() {
        WriteStep::Last(group) => match &group[0] {
            ColumnData::Text(hashes) => assert_eq!(hashes.len(), 5),
            other => panic!("not the hashes: {other:?}"),
        },
        other => panic!("not the last group: {other:?}"),
    }
    assert!(matches!(writer.step().unwrap(), WriteStep::Done));
    assert!(matches!(writer.step().unwrap(), WriteStep::Done));
}

#[test]
fn a_report_adds_its_partitions_up() {
    let series = vec![
        regular("a", 1, "01", &[1.0, 2.0]),
        regular("b", 2, "02", &[1.0, 2.0, 3.0]),
        regular("c", 3, "01", &[1.0, 2.0]),
        probabilistic(),
    ];
    let mut report = ExportReport::default();
    for (stem, _, plan) in plans(&series) {
        let mut writer = ValuesWriter::new(&plan, &series);
        while !matches!(writer.step().unwrap(), WriteStep::Done) {}
        let values = format!("{stem}.values.parquet");
        let halves = format!("{stem}.series.parquet");
        report.partitions.push(writer.written_partition(stem, values, halves).unwrap());
    }
    let regular_ones = &report.partitions[0];
    assert_eq!((regular_ones.arrays, regular_ones.series), (2, 3));
    assert_eq!(regular_ones.rows, 5, "an array that two series read is counted once");
    let rows = series_rows(&series[3].data).unwrap().len();
    assert_eq!(report.rows(), 5 + rows);
    assert_eq!(report.series(), series.len());
    assert_eq!(report.arrays(), 3);
    assert_eq!(
        report.files(),
        [
            "SingleTimeSeries.f64.utc.values.parquet",
            "SingleTimeSeries.f64.utc.series.parquet",
            "Probabilistic.f64.utc.values.parquet",
            "Probabilistic.f64.utc.series.parquet",
        ]
    );
    assert_eq!(report.partitions[0].value_slug, "f64");
    assert_eq!(report.partitions[0].reference, "utc");
}

fn values_batch(keys: &[&str], zone: Option<&str>, unit: TimeUnit, stamps: Vec<i64>) -> ReadBatch {
    let n = keys.len();
    let text = |name: &str, v: Vec<String>| ReadColumn {
        name: name.to_string(),
        nulls: false,
        shown: "Utf8".to_string(),
        data: ReadData::Text(v),
    };
    ReadBatch {
        rows: n,
        columns: vec![
            text("data_hash", keys.iter().map(|k| k.to_string()).collect()),
            text("time_axis", vec!["t".to_string(); n]),
            ReadColumn {
                name: "timestamp".to_string(),
                nulls: false,
                shown: "Timestamp".to_string(),
                data: ReadData::Timestamp { unit, zone: zone.map(String::from), values: stamps },
            },
        ],
        value: Some(ValueColumn {
            levels: vec![],
            end: ValueEnd::Leaf { nulls: false, dtype: Dtype::U8, bytes: (0..n as u8).collect() },
        }),
    }
}

fn groups(reader: &mut ValuesReader) -> Vec<ValuesGroup> {
    let mut out = Vec::new();
    while let NextValues::Group(g) = reader.poll() {
        out.push(g);
    }
    out
}

#[test]
fn a_values_file_is_read_array_by_array_across_batches() {
    let mut reader = ValuesReader::new();
    assert!(matches!(reader.poll(), NextValues::Batch));
    let ms = TimeUnit::Millisecond;
    reader.push_batch(&values_batch(&["a", "a", "b"], Some("UTC"), ms, vec![0, 1, 2])).unwrap();
    reader.push_batch(&values_batch(&["b", "c"], Some("UTC"), ms, vec![3, 4])).unwrap();
    let first = groups(&mut reader);
    assert_eq!(first.len(), 2, "the last array may still go on");
    reader.end();
    let rest = groups(&mut reader);
    assert!(matches!(reader.poll(), NextValues::Finished));
    assert_eq!(first[0].timestamps, [0, 1]);
    assert_eq!(first[1].timestamps, [2, 3]);
    assert_eq!(first[1].bytes, [2, 0]);
    assert_eq!(first[1].zone, Some("UTC".to_string()));
    assert_eq!(rest[0].key.data_hash, "c");
    assert_eq!(rest[0].array().shape, [1]);
}

#[test]
fn a_key_that_comes_back_is_refused() {
    let mut reader = ValuesReader::new();
    let b = values_batch(&["a", "b", "a"], None, TimeUnit::Millisecond, vec![0, 1, 2]);
    assert_eq!(
        reader.push_batch(&b),
        Err(
            "the values file returns to array (a, t) after another key's rows; both halves must \
             be sorted by `data_hash`, `time_axis`"
                .to_string()
        )
    );
}

#[test]
fn two_batches_must_agree_about_the_value_column() {
    let mut reader = ValuesReader::new();
    let ms = TimeUnit::Millisecond;
    reader.push_batch(&values_batch(&["a"], None, ms, vec![0])).unwrap();
    let mut other = values_batch(&["a"], None, ms, vec![1]);
    other.value = Some(ValueColumn {
        levels: vec![ListLevel { size: 2, nulls: false }],
        end: ValueEnd::Leaf { nulls: false, dtype: Dtype::U8, bytes: vec![1, 2] },
    });
    assert_eq!(
        reader.push_batch(&other),
        Err("two row groups disagree about the value column's type".to_string())
    );
}

#[test]
fn finer_instants_cross_only_as_whole_milliseconds() {
    let read = |unit, stamps: Vec<i64>| {
        let mut reader = ValuesReader::new();
        let keys = vec!["a"; stamps.len()];
        reader.push_batch(&values_batch(&keys, None, unit, stamps))?;
        reader.end();
        Ok::<Vec<i64>, String>(groups(&mut reader)[0].timestamps.clone())
    };
    assert_eq!(read(TimeUnit::Second, vec![2, -1]), Ok(vec![2_000, -1_000]));
    assert_eq!(read(TimeUnit::Microsecond, vec![-5_000, 7_000]), Ok(vec![-5, 7]));
    assert_eq!(read(TimeUnit::Nanosecond, vec![-9_223_372_036_854_000_000]), Ok(vec![-9_223_372_036_854]));
    assert_eq!(
        read(TimeUnit::Microsecond, vec![-5_001]),
        Err(
            "the `timestamp` column is in microseconds and -5001 is not a whole millisecond; the \
             store records millisecond instants and will not round one"
                .to_string()
        )
    );
    assert!(read(TimeUnit::Nanosecond, vec![i64::MIN]).unwrap_err().contains("nanoseconds"));
    assert_eq!(
        read(TimeUnit::Second, vec![i64::MAX]),
        Err("a timestamp in seconds overflows milliseconds".to_string())
    );
    assert_eq!(
        read(TimeUnit::Millisecond, vec![i64::MAX]),
        Err("timestamp 9223372036854775807 ms is not representable".to_string())
    );
}

#[test]
fn columns_that_cannot_be_read_are_refused() {
    let ms = TimeUnit::Millisecond;
    let push = |b: ReadBatch| ValuesReader::new().push_batch(&b).unwrap_err();
    let mut nulls = values_batch(&["a"], None, ms, vec![0]);
    nulls.columns[0].nulls = true;
    assert!(push(nulls).starts_with("the `data_hash` column has nulls; the store holds none"));
    let mut numbers = values_batch(&["a"], None, ms, vec![0]);
    numbers.columns[0].data = ReadData::Int64(vec![1]);
    assert_eq!(push(numbers), "column `data_hash` is not text");
    let mut texts = values_batch(&["a"], None, ms, vec![0]);
    texts.columns[2].data = ReadData::Text(vec!["x".to_string()]);
    assert_eq!(push(texts), "column `timestamp` is Timestamp, not a timestamp");
    let mut gone = values_batch(&["a"], None, ms, vec![0]);
    gone.columns.remove(2);
    assert_eq!(push(gone), "the file has no `timestamp` column");
    let end = |end: ValueEnd| {
        let mut b = values_batch(&["a"], None, ms, vec![0]);
        b.value = Some(ValueColumn { levels: vec![], end });
        push(b)
    };
    assert!(end(ValueEnd::List).contains("variable-length list"));
    assert!(end(ValueEnd::Struct).contains("is a struct"));
    assert_eq!(
        end(ValueEnd::Foreign { nulls: false, shown: "Utf8".to_string() }),
        "the `value` column is Utf8, which is not one of the store's dtypes"
    );
    assert!(end(ValueEnd::Foreign { nulls: true, shown: String::new() }).contains("has nulls"));
    let mut none = values_batch(&["a"], None, ms, vec![0]);
    none.value = None;
    assert_eq!(push(none), "the file has no `value` column");
}

fn outcome(values: Vec<ReadBatch>, rows: ReadBatch) -> String {
    let mut join = Join::new();
    let mut values = values.into_iter();
    let mut rows = vec![rows].into_iter();
    loop {
        match join.step() {
            Err(e) => return e,
            Ok(Walk::ReadValues) => join.push_values(values.next().as_ref()).unwrap(),
            Ok(Walk::ReadSeries) => join.push_series(rows.next().as_ref()).unwrap(),
            Ok(Walk::File(_, _)) => {}
            Ok(Walk::Done) => return "joined".to_string(),
        }
    }
}

#[test]
fn halves_that_hold_different_arrays_do_not_join() {
    let series = vec![regular("a", 1, "01", &[1.0]), regular("b", 2, "02", &[2.0])];
    let one = vec![regular("a", 1, "01", &[1.0])];
    let both = plans(&series);
    let single = plans(&one);
    let text = outcome(values_batches(&both[0].2, &series), series_batch(&single[0].2, &one));
    assert_eq!(
        text,
        "the values file holds an array (02, R1/2020-01-01T00:00:00Z/PT1H) that no series row \
         names; a partition's two halves come from one export and must describe the same arrays"
    );
    let text = outcome(values_batches(&single[0].2, &one), series_batch(&both[0].2, &series));
    assert!(text.starts_with("a series row names an array (02, "));
}

#[test]
fn a_series_file_needs_its_keys() {
    let series = vec![regular("a", 1, "01", &[1.0])];
    let plans = plans(&series);
    let mut b = series_batch(&plans[0].2, &series);
    b.columns.remove(1);
    assert_eq!(
        read_series_rows(&b).unwrap_err(),
        "the series file has no `time_axis` column, which is half the array key every row is \
         filed under"
    );
}

fn foreign_group() -> ValuesGroup {
    let mut reader = ValuesReader::new();
    let mut b = values_batch(&["", ""], Some("utc"), TimeUnit::Millisecond, vec![T0, T0 + HOUR]);
    b.columns[1].data = ReadData::Text(vec![String::new(), String::new()]);
    reader.push_batch(&b).unwrap();
    reader.end();
    groups(&mut reader).remove(0)
}

fn foreign(options: &ImportOptions, inferred: Result<Period, String>) -> Result<ImportedSeries, String> {
    let group = foreign_group();
    let row = SeriesRow::bare(group.key.copied());
    let readings = Readings {
        element_type: None,
        time_reference: Err("not read".to_string()),
        resolution: Err("not read".to_string()),
        interval: Err("not read".to_string()),
        horizon: Err("not read".to_string()),
        inferred,
    };
    let assembled = assemble(&group, &row, &Footer::new(), options, readings)?;
    let outcomes = Outcomes {
        verdict: Ok(()),
        reencoded: Ok(None),
        actual_hash: Err("not hashed".to_string()),
    };
    finish_import(assembled, &group.key, &row, options, outcomes)
}

fn named() -> ImportOptions {
    ImportOptions {
        name: Some("load".to_string()),
        owner_id: Some(5),
        owner_type: Some("Bus".to_string()),
        ..ImportOptions::default()
    }
}

#[test]
fn a_foreign_file_takes_its_identity_from_the_options() {
    let s = foreign(&named(), Ok(hour())).unwrap();
    assert!(matches!(s.data.axis, TimeAxis::SingleTimeSeries { length: 2, .. }));
    assert!(matches!(s.data.descriptors.time_reference, Some(TimeReference::Utc)));
    assert!(matches!(s.data.descriptors.element_type, ElementType::Scalar(Dtype::U8)));
    assert_eq!(s.owner_category, OwnerCategory::Component);
    assert!(s.array.is_none() && s.recorded_id.is_none());
    let irregular = foreign(&named(), Err("no grid".to_string())).unwrap();
    assert!(matches!(irregular.data.axis, TimeAxis::NonSequentialTimeSeries { .. }));
}

#[test]
fn what_a_foreign_file_does_not_say_must_be_given() {
    let lacking = |change: fn(&mut ImportOptions)| {
        let mut o = named();
        change(&mut o);
        foreign(&o, Ok(hour())).unwrap_err()
    };
    assert!(lacking(|o| o.name = None).starts_with("the file records no series name"));
    assert_eq!(
        lacking(|o| o.owner_id = None),
        "series 'load' has no owner_id: a file written by `export -f parquet` carries one, a \
         foreign file does not, so pass --owner-id"
    );
    assert!(lacking(|o| o.owner_type = None).ends_with("so pass --owner-type"));
    assert_eq!(
        lacking(|o| o.element_shape = Some(vec![3])),
        "the `value` column carries a per-step shape of [], but [3] was asserted"
    );
    assert_eq!(
        lacking(|o| o.resolution = Some(period(2 * HOUR, "PT2H"))),
        "series 'load' does not sit on a PT2H grid anchored at 2020-01-01 00:00:00 UTC"
    );
    assert!(lacking(|o| o.time_series_type = Some(TimeSeriesType::Deterministic))
        .contains("is a forecast and needs a `resolution`"));
}

#[test]
fn assertions_and_checksums_hold_a_file_to_what_it_says() {
    let series = vec![regular("a", 1, "01", &[1.0])];
    let plans = plans(&series);
    let plan = &plans[0].2;
    let rows = read_series_rows(&series_batch(plan, &series)).unwrap();
    let mut reader = ValuesReader::new();
    for b in values_batches(plan, &series) {
        reader.push_batch(&b).unwrap();
    }
    reader.end();
    let group = groups(&mut reader).remove(0);
    let footer = &plan.table.values.footer;
    let with = |options: ImportOptions, hash: &str| {
        let a = assemble(&group, &rows[0], footer, &options, readings(&rows[0]))?;
        let outcomes = Outcomes {
            verdict: Ok(()),
            reencoded: Ok(None),
            actual_hash: Ok(hash.to_string()),
        };
        finish_import(a, &group.key, &rows[0], &options, outcomes)
    };
    assert!(with(ImportOptions::default(), "01").is_ok());
    assert!(with(ImportOptions::default(), "02")
        .unwrap_err()
        .starts_with("series 'a' does not match its recorded data_hash: the file says 01 and its"));
    let waived = ImportOptions { skip_checksum: true, ..ImportOptions::default() };
    assert!(with(waived, "02").is_ok());
    let kind = ImportOptions {
        time_series_type: Some(TimeSeriesType::Scenarios),
        ..ImportOptions::default()
    };
    assert_eq!(
        with(kind, "01").unwrap_err(),
        "the file declares SingleTimeSeries, but Scenarios was asserted"
    );
    let element = ImportOptions {
        element_type: Some(ElementType::Tuple { arity: 1, dtype: Dtype::F64 }),
        ..ImportOptions::default()
    };
    assert_eq!(
        with(element, "01").unwrap_err(),
        "the file declares element_type f64, but tuple(1,f64) was asserted"
    );
    let resolution = ImportOptions {
        resolution: Some(period(2 * HOUR, "PT2H")),
        ..ImportOptions::default()
    };
    assert_eq!(
        with(resolution, "01").unwrap_err(),
        "series 'a' records a resolution of PT1H, but PT2H was asserted"
    );
    let cleared = ImportOptions { units: Some(String::new()), ..ImportOptions::default() };
    assert_eq!(with(cleared, "01").unwrap().data.descriptors.units, None);
}

#[test]
fn a_derived_series_is_not_imported() {
    let mut row = SeriesRow::bare(foreign_group().key);
    row.time_series_type = "DeterministicSingleTimeSeries".to_string();
    let r = assemble(&foreign_group(), &row, &Footer::new(), &named(), readings(&row));
    assert!(r.unwrap_err().contains("run `transform_single_time_series`"));
}

#[test]
fn a_schema_needs_no_series() {
    let key = partition_of(&probabilistic().row);
    assert!(PartitionSchema::new(key, None).is_ok());
}

#[test]
fn rescaling_never_rounds() {
    let values = vec![0, 7_000, -7_000, i64::MIN + 8];
    let all = rescale(&values, 8, "tick", "timestamp").unwrap();
    let back: Vec<i64> = all.iter().map(|v| v * 8).collect();
    assert_eq!(back, values);
    assert_eq!(rescale(&vec![i64::MIN, i64::MAX], 1, "tick", "t").unwrap(), [i64::MIN, i64::MAX]);
    assert_eq!(
        rescale(&vec![1_000, -1, 3], 1_000, "microsecond", "timestamp").unwrap_err(),
        "the `timestamp` column is in microseconds and -1 is not a whole millisecond; the store \
         records millisecond instants and will not round one"
    );
    assert!(rescale(&vec![], 3, "tick", "t").unwrap().is_empty());
}
