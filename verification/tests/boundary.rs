//! The C boundary: arguments, failures, and what is handed back.
use infrastore::arguments::{
    cstr_to_str, parse_features_json, read_by_id_plan, time_series_type_from_int,
    time_series_type_to_int, zoneless_filter, Argument, CText, CatalogMode, Compression,
};
use infrastore::array::TypedArray;
use infrastore::calls::{
    infrastore_batch_add_single, infrastore_forecast_reader_entry_info,
    infrastore_forecast_reader_time_reference, infrastore_forecast_reader_timeline,
    infrastore_static_reader_grid, infrastore_static_reader_group_id,
    infrastore_static_reader_group_info, infrastore_static_reader_num_groups,
    infrastore_static_reader_read, infrastore_static_reader_time_reference,
    infrastore_store_add_batch, infrastore_store_add_parent_child_associations,
    infrastore_store_add_single, infrastore_store_add_supplemental_attribute_associations,
    infrastore_store_association_exists, infrastore_store_build_static_reader,
    infrastore_store_count_array_references,
    infrastore_store_count_supplemental_attribute_associations, infrastore_store_counts,
    infrastore_store_counts_by_type, infrastore_store_create, infrastore_store_create_replacing,
    infrastore_store_get_array_by_hash, infrastore_store_get_path, infrastore_store_has_by_attrs,
    infrastore_store_has_for_owner, infrastore_store_has_supplemental_attribute_association,
    infrastore_store_has_typed, infrastore_store_in_transaction, infrastore_store_list_metadata,
    infrastore_store_list_parent_child_associations, infrastore_store_list_parent_child_ids,
    infrastore_store_open_copy, infrastore_store_read_by_id, infrastore_store_read_by_ids,
    infrastore_store_remove_by_ids, infrastore_store_transform_single_time_series, ReaderGrid,
    ReaderTimeline,
};
use infrastore::filters::{build_list_filter, FilterArguments, IdentityArguments, ReaderArguments};
use infrastore::instant::{Period, Step};
use infrastore::kinds::{
    Dtype, ElementType, OwnerCategory, TimeReference, TimeSeriesType, UnitSystem,
};
use infrastore::listing::counts_by_type_json;
use infrastore::listing::TypeCount;
use infrastore::probe::{
    forecast_parameters_out, infrastore_last_error_message, owned_cstr, transform_out,
    write_i64_slice_out, write_str_out, AttachmentCount, Endpoint, ForecastParameters,
    TransformArguments, TransformOutcome, TransformPlan,
};
use infrastore::requests::{
    build_forecast_request, build_non_sequential_request, build_probabilistic_request,
    finish_non_sequential_request, pass_on, AddRequest, ForecastArguments, NonSequentialArguments,
    ProbabilisticArguments, SeriesArguments, SingleArguments,
};
use infrastore::results::{
    infrastore_bulk_result_get_forecast, infrastore_bulk_result_get_non_sequential,
    infrastore_bulk_result_get_single, infrastore_bulk_result_item_name,
    infrastore_bulk_result_item_type, infrastore_bulk_result_len, BulkItem, Wanted,
};
use infrastore::series::{ForecastGrid, TimeAxis, TimeSeriesData};
use infrastore::status::{
    clear_error, finish, map_core_error, set_error, Failure, LastError, StoreError,
    INFRASTORE_ERR_DUPLICATE, INFRASTORE_ERR_INVALID_PARAMETER, INFRASTORE_ERR_INVALID_UTF8,
    INFRASTORE_ERR_NOT_FOUND, INFRASTORE_ERR_NULL_POINTER, INFRASTORE_ERR_OWNER_MISMATCH,
    INFRASTORE_ERR_READ_ONLY, INFRASTORE_ERR_STORE_EXISTS, INFRASTORE_OK,
};

const T0_MS: i64 = 1_577_836_800_000;

fn text(s: &str) -> CText {
    Some(s.as_bytes().to_vec())
}

fn hour() -> Period {
    Period { step: Step::Millis(3_600_000), iso: "PT1H".to_string() }
}

fn hourly() -> Argument<Period> {
    Argument { text: text("PT1H"), reading: Ok(hour()) }
}

fn unset<T>() -> Argument<T> {
    Argument { text: None, reading: Err("not read".to_string()) }
}

fn to_le(values: &[f64]) -> Vec<u8> {
    values.iter().flat_map(|v| v.to_le_bytes()).collect()
}

fn series(name: CText, dims: Vec<usize>, data: Option<Vec<u8>>) -> SeriesArguments {
    SeriesArguments {
        owner_id: 1,
        owner_type: text("Generator"),
        owner_category: 0,
        name,
        element_type: Argument { text: text("f64"), reading: Ok(ElementType::Scalar(Dtype::F64)) },
        dims,
        data,
        application_data: None,
        features_json: None,
        units: None,
        quantity_kind: None,
        unit_system: None,
        time_reference: unset(),
        component_field: None,
    }
}

fn single(name: CText, dims: Vec<usize>, data: Option<Vec<u8>>) -> SingleArguments {
    SingleArguments {
        series: series(name, dims, data),
        initial_ts_unix_ms: T0_MS,
        resolution: hourly(),
    }
}

fn code(f: &Failure) -> i32 {
    f.code
}

fn message(f: &Failure) -> String {
    f.message.clone().unwrap_or_default()
}

#[test]
fn an_unknown_element_type_is_an_invalid_parameter() {
    let mut a = single(text("load"), vec![2], Some(to_le(&[1.0, 2.0])));
    a.series.element_type =
        Argument { text: text("float64"), reading: Err("unknown element type float64".to_string()) };
    let f = infrastore_store_add_single(true, a).unwrap_err();
    assert_eq!(code(&f), INFRASTORE_ERR_INVALID_PARAMETER);
    assert!(!message(&f).is_empty());
}

#[test]
fn a_byte_length_that_contradicts_the_shape_is_an_invalid_parameter() {
    // The shape says four elements, and only two doubles are supplied.
    let a = single(text("load"), vec![4], Some(to_le(&[1.0, 2.0])));
    let f = infrastore_store_add_single(true, a).unwrap_err();
    assert_eq!(code(&f), INFRASTORE_ERR_INVALID_PARAMETER);
    assert_eq!(message(&f), "a f64 array of shape [4] does not hold 16 bytes");
}

#[test]
fn an_invalid_period_string_is_an_invalid_parameter() {
    assert_eq!(INFRASTORE_ERR_INVALID_PARAMETER, 3);
    let mut a = single(text("load"), vec![2], Some(to_le(&[1.0, 2.0])));
    a.resolution =
        Argument { text: text("not-a-period"), reading: Err("not a period".to_string()) };
    let f = infrastore_store_add_single(true, a).unwrap_err();
    assert_eq!(code(&f), INFRASTORE_ERR_INVALID_PARAMETER);
    assert!(!message(&f).is_empty());
}

#[test]
fn invalid_utf8_name_returns_err_invalid_utf8_with_a_message() {
    assert_eq!(INFRASTORE_ERR_INVALID_UTF8, 2, "the ABI value is the contract");
    let a = single(Some(b"wind\xff".to_vec()), vec![2], Some(to_le(&[1.0, 2.0])));
    let f = infrastore_store_add_single(true, a).unwrap_err();
    assert_eq!(code(&f), INFRASTORE_ERR_INVALID_UTF8);
    assert!(!message(&f).is_empty());
}

#[test]
fn abi_new_constructors_reject_bad_arguments() {
    let path = || text("abi.h5");
    let rejected = |r: Result<(String, Compression, CatalogMode), Failure>| r.unwrap_err();
    // A null `out` has nowhere to put the handle.
    let f = rejected(infrastore_store_create_replacing(false, &path(), 1, 3, true, 0));
    assert_eq!(code(&f), INFRASTORE_ERR_NULL_POINTER);
    let f = infrastore_store_open_copy(false, &path(), &text("copy.h5"), 0).unwrap_err();
    assert_eq!(code(&f), INFRASTORE_ERR_NULL_POINTER);
    // A null path is a null pointer, and not invalid UTF-8.
    let f = rejected(infrastore_store_create_replacing(true, &None, 1, 3, true, 0));
    assert_eq!(code(&f), INFRASTORE_ERR_NULL_POINTER);
    let f = infrastore_store_open_copy(true, &None, &text("copy.h5"), 0).unwrap_err();
    assert_eq!(code(&f), INFRASTORE_ERR_NULL_POINTER);
    let f = infrastore_store_open_copy(true, &path(), &None, 0).unwrap_err();
    assert_eq!(code(&f), INFRASTORE_ERR_NULL_POINTER);
    // Codes out of range.
    let f = rejected(infrastore_store_create_replacing(true, &path(), 7, 3, true, 0));
    assert_eq!(code(&f), INFRASTORE_ERR_INVALID_PARAMETER);
    assert!(message(&f).contains("compression_kind"));
    let f = rejected(infrastore_store_create_replacing(true, &path(), 1, 3, true, 9));
    assert_eq!(code(&f), INFRASTORE_ERR_INVALID_PARAMETER);
    assert!(message(&f).contains("catalog_mode"));
    let f = infrastore_store_open_copy(true, &path(), &text("copy.h5"), 9).unwrap_err();
    assert_eq!(code(&f), INFRASTORE_ERR_INVALID_PARAMETER);
    let ok = infrastore_store_create_replacing(true, &path(), 1, 3, true, 1).unwrap();
    assert_eq!(ok.0, "abi.h5");
    assert_eq!(ok.1, Compression::Deflate { level: 3, shuffle: true });
    assert_eq!(ok.2, CatalogMode::InMemory);
    assert_eq!(infrastore_store_create(true, &None).unwrap(), None);
}

#[test]
fn a_string_probe_buffer_smaller_than_needed_truncates_and_still_reports_the_full_length() {
    let json = counts_by_type_json(&vec![TypeCount {
        time_series_type: TimeSeriesType::SingleTimeSeries,
        count: 1,
    }]);
    let (needed, nothing) = write_str_out(&json, false, 0);
    assert!(needed > 8, "the JSON must be longer than the tiny buffer");
    assert_eq!(nothing, None);
    let (reported, small) = write_str_out(&json, true, 8);
    let small = small.unwrap();
    assert_eq!(reported, needed);
    assert_eq!(small.len(), 8);
    assert_eq!(small[7], 0, "the buffer must stay terminated");
    let (reported, full) = write_str_out(&json, true, needed + 1);
    assert_eq!(reported, needed);
    assert_eq!(&small[..7], &full.unwrap()[..7]);
    let (_, one) = write_str_out(&json, true, 1);
    assert_eq!(one.unwrap(), [0]);
}

#[test]
fn a_shape_probe_buffer_smaller_than_needed_truncates() {
    let shape = vec![2, 3, 4];
    assert_eq!(write_i64_slice_out(&shape, false, 0), (3, None));
    assert_eq!(write_i64_slice_out(&shape, true, 2), (3, Some(vec![2, 3])));
    assert_eq!(write_i64_slice_out(&shape, true, 9), (3, Some(vec![2, 3, 4])));
}

#[test]
fn an_out_of_range_group_or_entry_index_is_an_invalid_parameter() {
    let f = infrastore_static_reader_group_info(true, true, 1, 1).unwrap_err();
    assert_eq!(code(&f), INFRASTORE_ERR_INVALID_PARAMETER);
    assert_eq!(message(&f), "group index 1 out of bounds");
    assert_eq!(infrastore_static_reader_group_info(true, true, 0, 1).unwrap(), 0);
    let f = infrastore_static_reader_group_id(true, 0, &vec![2], true, 2).unwrap_err();
    assert_eq!(message(&f), "column index 2 out of bounds");
    let f = infrastore_static_reader_group_id(true, 5, &vec![2], false, 0).unwrap_err();
    assert_eq!(message(&f), "group index 5 out of bounds", "before the pointer is looked at");
    assert_eq!(infrastore_static_reader_group_id(true, 0, &vec![2], true, 1).unwrap(), (0, 1));
    let f = infrastore_forecast_reader_entry_info(true, true, u64::MAX, 3).unwrap_err();
    assert_eq!(code(&f), INFRASTORE_ERR_INVALID_PARAMETER);
}

#[test]
fn null_handles_and_out_params_return_err_null_pointer() {
    assert_eq!(INFRASTORE_ERR_NULL_POINTER, 1, "the ABI value is the contract");

    assert_eq!(infrastore_store_association_exists(false, true).unwrap_err().code, 1);
    assert_eq!(infrastore_store_association_exists(true, false).unwrap_err().code, 1);
    assert_eq!(infrastore_store_create(false, &None).unwrap_err().code, 1);
    assert_eq!(infrastore_store_counts_by_type(true, false).unwrap_err().code, 1);

    let hourly_reader =
        || ReaderArguments { resolution: hourly(), ..reader_arguments(None) };
    let f = infrastore_store_build_static_reader(false, true, 0, hourly_reader()).unwrap_err();
    assert_eq!(code(&f), 1);
    assert_eq!(infrastore_static_reader_num_groups(false, true).unwrap_err().code, 1);
    assert!(infrastore_store_build_static_reader(true, true, 0, hourly_reader()).is_ok());
    assert_eq!(infrastore_static_reader_num_groups(true, false).unwrap_err().code, 1);
    assert_eq!(infrastore_static_reader_group_info(true, false, 0, 1).unwrap_err().code, 1);
    assert_eq!(infrastore_static_reader_read(true, false, T0_MS).unwrap_err().code, 1);
    let f = infrastore_static_reader_read(true, true, i64::MAX).unwrap_err();
    assert_eq!(message(&f), "timestamp out of range");

    let read = |handle: bool, out: bool| {
        infrastore_store_read_by_id(
            handle, out, false, false, 0, false, 0, false, 0, false, 0, 0,
        )
    };
    assert_eq!(read(false, true).unwrap_err().code, 1);
    assert_eq!(read(true, false).unwrap_err().code, 1);
    assert!(read(true, true).is_ok());
    let removed = infrastore_store_remove_by_ids(true, true, 1, None, false, 0, 0);
    assert_eq!(removed.unwrap_err().code, 1);
    assert!(infrastore_store_remove_by_ids(true, true, 0, None, false, 0, 0).is_ok());
    assert_eq!(infrastore_store_list_metadata(true, false, filter()).unwrap_err().code, 1);

    assert_eq!(infrastore_store_read_by_ids(false, true, 0, None).unwrap_err().code, 1);
    assert_eq!(infrastore_store_read_by_ids(true, false, 0, None).unwrap_err().code, 1);
    let f = infrastore_store_read_by_ids(true, true, 2, None).unwrap_err();
    assert_eq!((code(&f), message(&f).as_str()), (1, "ids pointer is null"));
    assert!(infrastore_store_read_by_ids(true, true, 0, None).unwrap().is_empty());
    assert_eq!(
        message(&infrastore_store_add_batch(true, None, true).unwrap_err()),
        "batch handle is null"
    );
    let a = single(text("load"), vec![2], None);
    let f = infrastore_batch_add_single(true, a).unwrap_err();
    assert_eq!((code(&f), message(&f).as_str()), (1, "data_ptr is null"));
}

fn batch() -> Vec<AddRequest> {
    ["a", "b"]
        .iter()
        .map(|name| {
            let a = single(text(name), vec![1], Some(to_le(&[1.0])));
            infrastore_batch_add_single(true, a).unwrap()
        })
        .collect()
}

#[test]
fn a_batch_is_drained_in_all_cases() {
    let mut items = batch();
    let taken = infrastore_store_add_batch(true, Some(&mut items), true).unwrap();
    let names: Vec<&str> = taken.iter().map(|r| r.data.name.as_str()).collect();
    assert_eq!(names, ["a", "b"]);
    assert!(items.is_empty());
    let mut items = batch();
    let f = infrastore_store_add_batch(true, Some(&mut items), false).unwrap_err();
    assert_eq!(message(&f), "an out pointer is null");
    assert!(items.is_empty(), "drained where nothing is added, too");
    let mut items = batch();
    let f = infrastore_store_add_batch(false, Some(&mut items), true).unwrap_err();
    assert_eq!(message(&f), "store handle is null");
    assert!(items.is_empty());
}

#[test]
fn attributes_alone_ask_for_a_single_time_series() {
    let identity = || IdentityArguments {
        owner_id: 7,
        owner_category: 0,
        name: text("load"),
        resolution: hourly(),
        features_json: None,
    };
    let f = infrastore_store_has_by_attrs(true, true, identity()).unwrap();
    assert_eq!(f.time_series_type, Some(TimeSeriesType::SingleTimeSeries));
    assert_eq!((f.owner_id, f.name), (Some(7), Some("load".to_string())));
    assert!(f.features_exact);
    let f = infrastore_store_has_typed(true, true, identity(), 2, unset()).unwrap();
    assert_eq!(f.time_series_type, Some(TimeSeriesType::Deterministic));
    assert_eq!(infrastore_store_has_by_attrs(true, false, identity()).unwrap_err().code, 1);
}

fn filter() -> FilterArguments {
    FilterArguments {
        has_owner: false,
        owner_id: 0,
        has_owner_category: false,
        owner_category: 9,
        has_time_series_type: false,
        time_series_type: 9,
        name: None,
        name_glob: None,
        resolution: unset(),
        interval: unset(),
        features_json: None,
        component_field: None,
        zoneless: -1,
    }
}

fn reader_arguments(name_glob: CText) -> ReaderArguments {
    ReaderArguments {
        has_owner: true,
        owner_id: 3,
        has_owner_category: false,
        owner_category: 0,
        name: None,
        name_glob,
        resolution: hourly(),
        features_json: None,
        component_field: None,
        zoneless: 0,
    }
}

#[test]
fn invalid_utf8_name_glob_is_reported_by_both_filter_builders() {
    let bad = || Some(b"wind\xff".to_vec());
    let f = build_list_filter(FilterArguments { name_glob: bad(), ..filter() }).unwrap_err();
    assert_eq!(code(&f), INFRASTORE_ERR_INVALID_UTF8);
    assert!(!message(&f).is_empty());
    let f = infrastore_store_build_static_reader(true, true, 0, reader_arguments(bad()));
    assert_eq!(f.unwrap_err().code, INFRASTORE_ERR_INVALID_UTF8);
}

#[test]
fn a_filter_holds_what_is_set_and_nothing_else() {
    let all = infrastore_store_list_metadata(true, true, filter()).unwrap();
    assert!(all.owner_id.is_none() && all.features.is_none() && all.zoneless.is_none());
    let some = build_list_filter(FilterArguments {
        has_owner: true,
        owner_id: 4,
        has_owner_category: true,
        owner_category: 1,
        has_time_series_type: true,
        time_series_type: 2,
        name: text("load"),
        features_json: text(r#"{"a":1}"#),
        zoneless: 1,
        resolution: hourly(),
        ..filter()
    })
    .unwrap();
    assert_eq!(some.owner_id, Some(4));
    assert_eq!(some.owner_category, Some(OwnerCategory::SupplementalAttribute));
    assert_eq!(some.time_series_type, Some(TimeSeriesType::Deterministic));
    assert_eq!(some.name, Some("load".to_string()));
    assert_eq!(some.features.unwrap().entries.len(), 1);
    assert_eq!(some.zoneless, Some(true));
    assert_eq!(some.resolution.unwrap().iso, "PT1H");
    let reader = infrastore_store_build_static_reader(true, true, 0, reader_arguments(None));
    assert_eq!(reader.unwrap().time_series_type, Some(TimeSeriesType::SingleTimeSeries));
    let owner = infrastore_store_has_for_owner(true, true, 6, 0, true, 5).unwrap();
    assert_eq!(owner.time_series_type, Some(TimeSeriesType::Scenarios));
    let f = infrastore_store_has_for_owner(true, true, 6, 0, true, 17).unwrap_err();
    assert_eq!(message(&f), "invalid time_series_type 17");
    let f = build_list_filter(FilterArguments { zoneless: 2, ..filter() }).unwrap_err();
    assert_eq!(
        message(&f),
        "invalid zoneless filter 2; expected -1 (no filter), 0, or 1"
    );
    assert!(matches!(zoneless_filter(-5), Ok(None)));
}

#[test]
fn rows_are_removed_by_id_and_owner() {
    let (ids, owner) =
        infrastore_store_remove_by_ids(true, true, 2, Some(vec![8, 9]), true, 5, 1).unwrap();
    assert_eq!(ids, [8, 9]);
    assert_eq!(owner, Some((5, OwnerCategory::SupplementalAttribute)));
    let f = infrastore_store_remove_by_ids(true, true, 0, None, true, 5, 2).unwrap_err();
    assert_eq!(message(&f), "invalid owner_category 2");
    let (_, nobody) = infrastore_store_remove_by_ids(true, true, 0, None, false, 5, 2).unwrap();
    assert_eq!(nobody, None);
}

#[test]
fn a_read_window_is_refused_where_it_names_no_instant() {
    let (w, owner) =
        read_by_id_plan(true, true, T0_MS, true, 3, false, 0, false, 0, 0).unwrap();
    assert_eq!((w.start, w.zoneless, w.len, w.count), (Some(T0_MS), true, Some(3), None));
    assert_eq!(owner, None);
    let f = read_by_id_plan(true, false, i64::MAX, false, 0, false, 0, false, 0, 0).unwrap_err();
    assert_eq!(message(&f), "invalid start_ms: 9223372036854775807");
}

#[test]
fn associations_are_filtered_and_added_by_what_their_documents_say() {
    let all: Argument<i32> = unset();
    let found = infrastore_store_has_supplemental_attribute_association(true, true, all);
    assert_eq!(found.unwrap(), None);
    let some = Argument { text: text("{}"), reading: Ok(7) };
    let found = infrastore_store_list_parent_child_associations(true, true, some);
    assert_eq!(found.unwrap(), Some(7));
    let bad: Argument<i32> = Argument { text: text("{"), reading: Err("EOF".to_string()) };
    let f = infrastore_store_count_supplemental_attribute_associations(true, true, bad, 9);
    assert_eq!(message(&f.unwrap_err()), "invalid association filter JSON: EOF");
    let rows = Argument { text: text("[1,2]"), reading: Ok(vec![1, 2]) };
    let added = infrastore_store_add_parent_child_associations(true, rows);
    assert_eq!(added.unwrap(), vec![1, 2]);
    let bad: Argument<Vec<i32>> = Argument { text: text("["), reading: Err("EOF".to_string()) };
    let f = infrastore_store_add_supplemental_attribute_associations(true, bad).unwrap_err();
    assert_eq!(code(&f), INFRASTORE_ERR_INVALID_PARAMETER);
    assert_eq!(message(&f), "invalid associations JSON: EOF");
    let f = infrastore_store_add_supplemental_attribute_associations(true, unset::<Vec<i32>>());
    assert_eq!(code(&f.unwrap_err()), INFRASTORE_ERR_NULL_POINTER);
}

#[test]
fn choices_are_made_by_code() {
    let count = |k| {
        infrastore_store_count_supplemental_attribute_associations(true, true, unset::<String>(), k)
            .map(|v| v.1)
    };
    assert_eq!(count(0).unwrap(), AttachmentCount::Rows);
    assert_eq!(count(2).unwrap(), AttachmentCount::Components);
    assert_eq!(message(&count(3).unwrap_err()), "invalid count kind 3, expected 0, 1, or 2");
    let ends = |e| {
        let blank: Argument<i32> = Argument { text: text("  "), reading: Err("blank".to_string()) };
        infrastore_store_list_parent_child_ids(true, true, blank, e)
    };
    let (filter, end) = ends(1).unwrap();
    assert_eq!((filter, end), (None, Endpoint::Child));
    assert_eq!(
        message(&ends(2).unwrap_err()),
        "invalid endpoint 2, expected 0 (parent) or 1 (child)"
    );
    for c in 0..6 {
        assert_eq!(time_series_type_to_int(time_series_type_from_int(c).unwrap()), c);
    }
    assert_eq!(time_series_type_from_int(6), None);
}

#[test]
fn features_are_read_from_json() {
    assert!(parse_features_json(&None).unwrap().entries.is_empty());
    assert!(parse_features_json(&text(" ")).unwrap().entries.is_empty());
    assert_eq!(parse_features_json(&text(r#"{"b":true,"a":1}"#)).unwrap().entries.len(), 2);
    let f = parse_features_json(&text("[]")).unwrap_err();
    assert_eq!(code(&f), INFRASTORE_ERR_INVALID_PARAMETER);
    assert!(parse_features_json(&text(r#"{"a":null}"#)).is_err());
    assert_eq!(cstr_to_str(&text("é")), Ok("é".to_string()));
    assert_eq!(cstr_to_str(&None), Err(INFRASTORE_ERR_NULL_POINTER));
}

#[test]
fn requests_hold_the_series_the_arguments_describe() {
    let mut a = single(text("load"), vec![2], Some(to_le(&[1.0, 2.0])));
    a.series.units = text("MW");
    a.series.unit_system = text("component_base");
    a.series.features_json = text(r#"{"year":2030}"#);
    let r = infrastore_store_add_single(true, a).unwrap();
    assert_eq!(r.owner_type, "Generator");
    assert_eq!(r.data.name, "load");
    assert_eq!(r.data.descriptors.unit_system, Some(UnitSystem::ComponentBase));
    assert!(matches!(r.data.axis, TimeAxis::SingleTimeSeries { length: 2, .. }));
    let forecast = ForecastArguments {
        series: series(text("wind"), vec![1, 2], Some(to_le(&[1.0, 2.0]))),
        ts_type: 2,
        initial_ts_unix_ms: T0_MS,
        resolution: hourly(),
        horizon: hourly(),
        interval: hourly(),
        count: 2,
    };
    let r = build_forecast_request(forecast).unwrap();
    assert!(matches!(&r.data.axis, TimeAxis::Deterministic { grid } if grid.count == 2));
    let refused = pass_on(r, Err("the axes disagree".to_string())).unwrap_err();
    assert_eq!(message(&refused), "the axes disagree");
    let probabilistic = ProbabilisticArguments {
        series: series(text("wind"), vec![2, 1, 1], Some(to_le(&[1.0, 2.0]))),
        initial_ts_unix_ms: T0_MS,
        resolution: hourly(),
        horizon: hourly(),
        interval: hourly(),
        count: 1,
        percentiles: Some(vec![10f64.to_bits(), 90f64.to_bits()]),
    };
    let r = build_probabilistic_request(probabilistic).unwrap();
    assert!(matches!(&r.data.axis, TimeAxis::Probabilistic { percentiles, .. } if percentiles.len() == 2));
    let irregular = |stamps: Vec<i64>| NonSequentialArguments {
        series: series(text("load"), vec![2], Some(to_le(&[1.0, 2.0]))),
        timestamps_unix_ms: Some(stamps),
    };
    let draft = build_non_sequential_request(irregular(vec![T0_MS, T0_MS + 5])).unwrap();
    let r = finish_non_sequential_request(draft, Ok(())).unwrap();
    assert!(matches!(&r.data.axis, TimeAxis::NonSequentialTimeSeries { timestamps } if timestamps.len() == 2));
    let f = build_non_sequential_request(irregular(vec![T0_MS, i64::MAX])).unwrap_err();
    assert_eq!(message(&f), "invalid timestamp unix milliseconds: 9223372036854775807");
}

fn items() -> Vec<BulkItem> {
    let grid = ForecastGrid {
        initial_timestamp: T0_MS,
        resolution: hour(),
        horizon: hour(),
        interval: hour(),
        count: 2,
    };
    let array = |shape: Vec<usize>| TypedArray::new(Dtype::U8, shape, vec![1, 2]).unwrap();
    let item = |axis, shape, name: &str| BulkItem {
        data: TimeSeriesData::new(axis, array(shape), name.to_string()),
        stored_dtype: 9,
    };
    let regular =
        TimeAxis::SingleTimeSeries { initial_timestamp: T0_MS, resolution: hour(), length: 2 };
    vec![
        item(regular, vec![2], "load"),
        item(TimeAxis::NonSequentialTimeSeries { timestamps: vec![1, 2] }, vec![2], "a\0b"),
        item(TimeAxis::Scenarios { grid, scenario_count: 1 }, vec![1, 1, 2], "wind"),
    ]
}

fn everything() -> Wanted {
    Wanted {
        application_data: true,
        element_type: true,
        units: true,
        quantity_kind: true,
        unit_system: true,
        time_reference: true,
        component_field: true,
    }
}

#[test]
fn bulk_results_are_read_by_type() {
    let items = items();
    assert_eq!(infrastore_bulk_result_len(Some(&items)), 3);
    assert_eq!(infrastore_bulk_result_len(None), -1);
    assert_eq!(infrastore_bulk_result_item_name(Some(&items), true, 0).unwrap(), "load");
    let f = infrastore_bulk_result_item_name(Some(&items), true, 1).unwrap_err();
    assert!(message(&f).starts_with("series name contained an interior NUL: "));
    assert_eq!(infrastore_bulk_result_item_type(Some(&items), true, 2).unwrap(), 5);
    let f = infrastore_bulk_result_item_type(Some(&items), true, 3).unwrap_err();
    assert_eq!(message(&f), "bulk-read index out of bounds");
    let s = infrastore_bulk_result_get_single(Some(&items), true, 0, everything()).unwrap();
    assert_eq!((s.initial_timestamp, s.dtype_code), (T0_MS, 9));
    assert_eq!(s.resolution, Some("PT1H".to_string()));
    assert_eq!(s.descriptors.element_type, Some("u8".to_string()));
    assert_eq!(s.descriptors.units, None);
    let f = infrastore_bulk_result_get_single(Some(&items), true, 2, everything()).unwrap_err();
    assert_eq!(message(&f), "bulk-read item 2 is a Scenarios, not a SingleTimeSeries");
    let f = infrastore_bulk_result_get_single(None, true, 0, everything()).unwrap_err();
    assert_eq!(message(&f), "bulk-read result handle is null");
    let n =
        infrastore_bulk_result_get_non_sequential(Some(&items), true, 1, everything()).unwrap();
    assert_eq!(n.timestamps, [1, 2]);
    let f = infrastore_bulk_result_get_non_sequential(Some(&items), false, 1, everything());
    assert_eq!(message(&f.unwrap_err()), "an out pointer is null");
    let f = infrastore_bulk_result_get_forecast(Some(&items), true, 2, everything()).unwrap();
    assert_eq!((f.data.count, f.data.scenario_count), (2, 1));
    assert_eq!(f.data.percentiles, None);
    let f = infrastore_bulk_result_get_forecast(Some(&items), true, 0, everything()).unwrap_err();
    assert_eq!(message(&f), "bulk-read item 0 is a SingleTimeSeries, not a forecast");
}

#[test]
fn a_descriptor_that_no_c_string_holds_is_refused() {
    let mut items = items();
    items[0].data.descriptors.units = Some("a\0b".to_string());
    let f = infrastore_bulk_result_get_single(Some(&items), true, 0, everything()).unwrap_err();
    assert!(message(&f).contains("interior NUL byte"));
    assert_eq!(owned_cstr("a\0b".to_string()), None);
    assert_eq!(owned_cstr("ab".to_string()), Some("ab".to_string()));
}

#[test]
fn codes_come_back_by_value() {
    assert_eq!(
        (INFRASTORE_ERR_NOT_FOUND, INFRASTORE_ERR_DUPLICATE, INFRASTORE_ERR_READ_ONLY),
        (4, 5, 7),
        "the ABI values are the contract"
    );
    let f = map_core_error(StoreError::NotFound, "no such row".to_string());
    assert_eq!((code(&f), message(&f).as_str()), (4, "no such row"));
}

#[test]
fn a_failed_call_leaves_its_message() {
    let mut last = LastError { message: None };
    set_error(&mut last, "before".to_string());
    clear_error(&mut last);
    let f = map_core_error(StoreError::ReadOnlyStore, "read-only".to_string());
    assert_eq!(finish(&mut last, Err(f)), 7);
    let (length, bytes) = infrastore_last_error_message(&last, true, 5);
    assert_eq!(length, 9);
    assert_eq!(bytes.unwrap(), *b"read\0");
    clear_error(&mut last);
    assert_eq!(finish(&mut last, Ok(())), INFRASTORE_OK);
    assert_eq!(last.message, None);
}

#[test]
fn a_transform_reports_what_it_wrote() {
    let out = transform_out(TransformOutcome {
        transformed: 2,
        sources: 3,
        interval: hour(),
        interval_normalized: true,
        written: vec![7, 8],
    });
    assert_eq!((out.count, out.sources), (2, 3));
    assert!(out.interval.starts_with(b"PT1H\0"));
    assert_eq!(out.ids, Some(vec![7, 8]));
    let p = forecast_parameters_out(&ForecastParameters {
        horizon: None,
        interval: None,
        count: Some(4),
        resolution: None,
        initial_timestamp: None,
    });
    assert!(p.present);
    assert_eq!((p.count, p.initial_ms), (4, -1));
    assert_eq!(p.horizon, None);
}

#[test]
fn a_time_reference_argument_is_optional() {
    let mut a = single(text("load"), vec![2], Some(to_le(&[1.0, 2.0])));
    a.series.time_reference =
        Argument { text: text("utc"), reading: Ok(TimeReference::Utc) };
    let r = infrastore_store_add_single(true, a).unwrap();
    assert!(matches!(r.data.descriptors.time_reference, Some(TimeReference::Utc)));
    let mut bad = single(text("load"), vec![2], Some(to_le(&[1.0, 2.0])));
    bad.series.time_reference =
        Argument { text: text("Mars"), reading: Err("no such zone".to_string()) };
    let f = infrastore_store_add_single(true, bad).unwrap_err();
    assert_eq!(message(&f), "invalid time_reference \"Mars\": no such zone");
}

#[test]
fn a_reader_describes_itself() {
    let grid = ReaderGrid { initial_timestamp: T0_MS, resolution: None, length: 3 };
    let out = infrastore_static_reader_grid(Some(&grid), true).unwrap();
    assert_eq!((out.initial_ms, out.resolution, out.length), (T0_MS, None, 3));
    let f = infrastore_static_reader_grid(None, true).unwrap_err();
    assert_eq!(code(&f), INFRASTORE_ERR_NULL_POINTER);
    assert_eq!(message(&f), "reader handle is null");
    let f = infrastore_static_reader_grid(Some(&grid), false).unwrap_err();
    assert_eq!(message(&f), "an out pointer is null");
    let timeline = ReaderTimeline {
        initial_timestamp: T0_MS,
        resolution: hour(),
        interval: Period { step: Step::Millis(86_400_000), iso: "P1D".to_string() },
        count: 7,
    };
    let out = infrastore_forecast_reader_timeline(Some(&timeline), true).unwrap();
    assert_eq!(out.resolution, Some("PT1H".to_string()));
    assert_eq!(out.interval, Some("P1D".to_string()));
    assert_eq!((out.initial_ms, out.count), (T0_MS, 7));
    let zone = Some(TimeReference::FixedOffset(-420));
    let text = infrastore_forecast_reader_time_reference(Some(&zone), true).unwrap();
    assert_eq!(text, Some("-07:00".to_string()));
    assert_eq!(infrastore_static_reader_time_reference(Some(&None), true).unwrap(), None);
}

#[test]
fn every_question_wants_a_handle_and_somewhere_to_answer() {
    assert!(infrastore_store_counts(true, true).is_ok());
    let f = infrastore_store_counts(false, true).unwrap_err();
    assert_eq!((code(&f), f.message), (INFRASTORE_ERR_NULL_POINTER, None));
    let f = infrastore_store_get_path(true, false).unwrap_err();
    assert_eq!(message(&f), "out_has_path or out_len is null");
    let f = infrastore_store_in_transaction(false, false).unwrap_err();
    assert_eq!(message(&f), "out pointer is null");
    let f = infrastore_store_count_array_references(false, true).unwrap_err();
    assert_eq!(message(&f), "store handle is null");
}

/// A series as it is handed back once a store that keeps it as it is has read it.
fn read_back(request: AddRequest) -> Vec<BulkItem> {
    vec![BulkItem { data: request.data, stored_dtype: 77 }]
}

#[test]
fn every_scalar_element_type_round_trips_through_get_single() {
    assert_eq!(
        [
            Dtype::F64.code(77),
            Dtype::F32.code(77),
            Dtype::I64.code(77),
            Dtype::I32.code(77),
            Dtype::U64.code(77),
            Dtype::Bool.code(77),
        ],
        [0, 1, 2, 3, 4, 5],
        "the ABI dtype codes are the contract"
    );
    assert_eq!(Dtype::U8.code(77), 77, "the store's own number");
    let f32_bytes: Vec<u8> =
        [1.5f32, -2.5, f32::INFINITY].iter().flat_map(|v| v.to_le_bytes()).collect();
    let i32_bytes: Vec<u8> =
        [i32::MIN, 0, i32::MAX].iter().flat_map(|v| v.to_le_bytes()).collect();
    let u64_bytes: Vec<u8> = [0u64, 1, u64::MAX].iter().flat_map(|v| v.to_le_bytes()).collect();
    let bool_bytes: Vec<u8> = vec![1u8, 0, 1];
    let i64_bytes: Vec<u8> =
        [i64::MIN, 0, i64::MAX].iter().flat_map(|v| v.to_le_bytes()).collect();
    let f64_bytes = to_le(&[1.0, 2.0, 3.0]);
    let cases: Vec<(Dtype, &str, i32, Vec<u8>)> = vec![
        (Dtype::F64, "f64", 0, f64_bytes),
        (Dtype::F32, "f32", 1, f32_bytes),
        (Dtype::I64, "i64", 2, i64_bytes),
        (Dtype::I32, "i32", 3, i32_bytes),
        (Dtype::U64, "u64", 4, u64_bytes),
        (Dtype::Bool, "bool", 5, bool_bytes),
    ];
    for (dtype, name, dtype_code, bytes) in cases {
        let mut a = single(text(name), vec![3], Some(bytes.clone()));
        a.series.element_type =
            Argument { text: text(name), reading: Ok(ElementType::Scalar(dtype)) };
        let request = infrastore_store_add_single(true, a).unwrap();
        let items = read_back(request);
        let got = infrastore_bulk_result_get_single(Some(&items), true, 0, everything()).unwrap();
        assert_eq!(got.dtype_code, dtype_code, "{name}: dtype code");
        assert_eq!(got.shape, [3], "{name}: shape");
        assert_eq!(got.bytes, bytes, "{name}: bytes are not byte-exact");
        assert_eq!(got.descriptors.element_type, Some(name.to_string()));
    }
}

#[test]
fn get_single_returns_native_dtype_and_shape() {
    let values = [10i64, 11, 20, 21, 30, 31];
    let bytes: Vec<u8> = values.iter().flat_map(|v| v.to_le_bytes()).collect();
    let mut a = single(text("im"), vec![3, 2], Some(bytes));
    a.series.element_type =
        Argument { text: text("i64"), reading: Ok(ElementType::Scalar(Dtype::I64)) };
    let items = read_back(infrastore_store_add_single(true, a).unwrap());
    let got = infrastore_bulk_result_get_single(Some(&items), true, 0, everything()).unwrap();
    assert_eq!(got.dtype_code, 2);
    assert_eq!(got.shape, [3, 2]);
    let vals: Vec<i64> = got
        .bytes
        .chunks_exact(8)
        .map(|c| i64::from_le_bytes(c.try_into().unwrap()))
        .collect();
    assert_eq!(vals, vec![10, 11, 20, 21, 30, 31]);
}

#[test]
fn non_sequential_ext_round_trips_untruncated() {
    let long_application_data: String =
        "{\"payload\":\"".to_string() + &"x".repeat(4096) + "\"}";
    let mut a = NonSequentialArguments {
        series: series(text("irregular"), vec![3], Some(to_le(&[1.0, 2.0, 3.0]))),
        timestamps_unix_ms: Some(vec![0, 3_600_000, 10_800_000]),
    };
    a.series.application_data = text(&long_application_data);
    let draft = build_non_sequential_request(a).unwrap();
    let items = read_back(finish_non_sequential_request(draft, Ok(())).unwrap());
    let got =
        infrastore_bulk_result_get_non_sequential(Some(&items), true, 0, everything()).unwrap();
    assert_eq!(got.timestamps.len(), 3);
    assert_eq!(got.descriptors.application_data, Some(long_application_data));
    assert_eq!(got.descriptors.units, None);
}

/// A call that ends this way: its code, and the message it leaves.
fn ended(outcome: Result<(), Failure>) -> (i32, String) {
    let mut last = LastError { message: Some("an earlier one".to_string()) };
    clear_error(&mut last);
    let code = finish(&mut last, outcome);
    (code, last.message.unwrap_or_default())
}

fn read_one(guard: Option<(i64, i32)>) -> Result<Option<(i64, OwnerCategory)>, Failure> {
    let (owner, category) = guard.unwrap_or((0, 0));
    infrastore_store_read_by_id(
        true, true, false, false, 0, false, 0, false, 0, guard.is_some(), owner, category,
    )
    .map(|(window, owner)| {
        assert_eq!((window.start, window.len, window.count), (None, None, None));
        owner
    })
}

#[test]
fn reading_a_stale_id_is_not_found() {
    assert_eq!(read_one(None).unwrap(), None, "nothing keeps the store from being asked");
    let not_found = map_core_error(StoreError::NotFound, "time series not found".to_string());
    let (code, message) = ended(Err(not_found));
    assert_eq!(code, INFRASTORE_ERR_NOT_FOUND);
    assert!(!message.is_empty());
    assert!(infrastore_store_association_exists(true, true).is_ok());
}

#[test]
fn get_array_by_hash_with_an_unknown_hash_errors() {
    assert!(infrastore_store_get_array_by_hash(true, true).is_ok());
    let (code, message) =
        ended(Err(map_core_error(StoreError::IntegrityError, "no such array".to_string())));
    assert_ne!(code, INFRASTORE_OK);
    assert!(!message.is_empty());
    let f = infrastore_store_get_array_by_hash(true, false).unwrap_err();
    assert_eq!(f.code, INFRASTORE_ERR_NULL_POINTER);
}

#[test]
fn abi_create_over_an_existing_store_reports_store_exists() {
    let path = infrastore_store_create(true, &text("abi.h5")).unwrap();
    assert_eq!(path, Some("abi.h5".to_string()));
    let refused = map_core_error(StoreError::StoreExists, "abi.h5 already exists".to_string());
    let (code, message) = ended(Err(refused));
    assert_eq!(code, INFRASTORE_ERR_STORE_EXISTS);
    assert!(message.contains("already exists"), "unhelpful message: {message}");
    let (path, compression, catalog) =
        infrastore_store_create_replacing(true, &text("abi.h5"), 1, 3, true, 0).unwrap();
    assert_eq!(path, "abi.h5");
    assert_eq!(compression, Compression::Deflate { level: 3, shuffle: true });
    assert_eq!(catalog, CatalogMode::Attached);
}

#[test]
fn abi_read_by_ids_follows_the_order_it_was_given() {
    let (a, b, c) = (1, 2, 3);
    let asked = vec![c, a, c, b];
    let ids = infrastore_store_read_by_ids(true, true, 4, Some(asked.clone())).unwrap();
    assert_eq!(ids, asked, "repeats included");
    let stored = |id: i64| {
        let (name, first) = [("a", 1.0), ("b", 10.0), ("c", 100.0)][id as usize - 1];
        let values = to_le(&[first, first + 1.0, first + 2.0]);
        infrastore_store_add_single(true, single(text(name), vec![3], Some(values))).unwrap()
    };
    let items: Vec<BulkItem> =
        ids.iter().map(|id| BulkItem { data: stored(*id).data, stored_dtype: 0 }).collect();
    assert_eq!(infrastore_bulk_result_len(Some(&items)), 4);
    let names: Vec<String> = (0..4)
        .map(|i| infrastore_bulk_result_item_name(Some(&items), true, i).unwrap())
        .collect();
    assert_eq!(names, vec!["c", "a", "c", "b"]);
    let firsts: Vec<f64> = (0..4)
        .map(|i| {
            let got =
                infrastore_bulk_result_get_single(Some(&items), true, i, everything()).unwrap();
            f64::from_le_bytes(got.bytes[..8].try_into().unwrap())
        })
        .collect();
    assert_eq!(firsts, vec![100.0, 1.0, 100.0, 10.0]);

    let missing = infrastore_store_read_by_ids(true, true, 2, Some(vec![a, 9_999])).unwrap();
    assert_eq!(missing, [a, 9_999]);
    let (code, _) = ended(Err(map_core_error(StoreError::NotFound, "not found".to_string())));
    assert_eq!(code, INFRASTORE_ERR_NOT_FOUND);

    assert!(infrastore_store_read_by_ids(true, true, 0, None).unwrap().is_empty());
    assert_eq!(infrastore_bulk_result_len(Some(&vec![])), 0);
    let f = infrastore_store_read_by_ids(true, true, 1, None).unwrap_err();
    assert_eq!(f.code, INFRASTORE_ERR_NULL_POINTER);
}

#[test]
fn abi_owner_guarded_read_and_removal_hold_a_row_to_its_owner() {
    assert_eq!(read_one(Some((1, 0))).unwrap(), Some((1, OwnerCategory::Component)));
    assert_eq!(read_one(Some((2, 0))).unwrap(), Some((2, OwnerCategory::Component)));
    assert_eq!(
        read_one(Some((1, 1))).unwrap(),
        Some((1, OwnerCategory::SupplementalAttribute)),
        "the other category is a different owner"
    );
    assert_eq!(read_one(Some((1, 7))).unwrap_err().code, INFRASTORE_ERR_INVALID_PARAMETER);
    let (code, _) =
        ended(Err(map_core_error(StoreError::OwnerMismatch, "another owner".to_string())));
    assert_eq!(code, INFRASTORE_ERR_OWNER_MISMATCH);
    for owner in [2, 1] {
        let (ids, guard) =
            infrastore_store_remove_by_ids(true, true, 1, Some(vec![5]), true, owner, 0).unwrap();
        assert_eq!(ids, [5]);
        assert_eq!(guard, Some((owner, OwnerCategory::Component)));
    }
}

#[test]
fn abi_remove_by_ids_is_all_or_nothing() {
    let remove =
        |n, ids, out| infrastore_store_remove_by_ids(true, out, n, ids, false, 0, 0);
    let (ids, guard) = remove(3, Some(vec![1, 9_999, 2]), true).unwrap();
    assert_eq!((ids, guard), (vec![1, 9_999, 2], None), "asked of the store in one call");
    let (code, _) = ended(Err(map_core_error(StoreError::NotFound, "not found".to_string())));
    assert_eq!(code, INFRASTORE_ERR_NOT_FOUND);
    assert_eq!(remove(3, Some(vec![1, 2, 1]), true).unwrap().0, [1, 2, 1]);
    assert!(remove(0, None, true).unwrap().0.is_empty());
    let f = remove(1, None, true).unwrap_err();
    assert_eq!(f.code, INFRASTORE_ERR_NULL_POINTER);
    assert!(message(&f).contains("ids"), "the diagnostic must name the null input");
    let f = remove(1, Some(vec![1]), false).unwrap_err();
    assert_eq!(f.code, INFRASTORE_ERR_NULL_POINTER);
    assert!(message(&f).contains("out_removed"), "the diagnostic must name the null output");
}

fn flags(p: &TransformPlan) -> (bool, bool, bool) {
    (p.dry_run, p.normalize_single_window, p.require_uniform_forecast_grid)
}

#[test]
fn a_transform_is_asked_with_its_policy() {
    let plan = |dry_run, normalize_single_window, require_uniform_forecast_grid| {
        infrastore_store_transform_single_time_series(
            true,
            true,
            TransformArguments {
                horizon: hourly(),
                interval: hourly(),
                owner_category: -1,
                resolution: unset(),
                dry_run,
                normalize_single_window,
                require_uniform_forecast_grid,
            },
        )
        .unwrap()
    };
    let p = plan(true, false, false);
    assert_eq!(flags(&p), (true, false, false));
    let p = plan(false, true, false);
    assert_eq!(flags(&p), (false, true, false));
    let p = plan(false, false, true);
    assert_eq!(flags(&p), (false, false, true));
    assert_eq!((p.owner_category, p.resolution.is_none()), (None, true));
}
