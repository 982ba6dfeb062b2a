//! Requests to add a series, built from the arguments of the C boundary.
use crate::arguments::{
    category_of, cstr_to_element_type, cstr_to_optional_string, cstr_to_optional_time_reference,
    cstr_to_optional_unit_system, cstr_to_period, feature_argument, instant_argument,
    optional_text, owner_category, parse_features_json, read_argument, read_element_type,
    read_reference, read_unit_system, required_instant, required_text, required_text_said,
    required_type, text_argument, text_argument_said, typed, Argument, CText,
};
use crate::array::{wrong_length_text, ArrayView, TypedArray};
use crate::features::{spells_features, Features};
use crate::instant::Period;
use crate::kinds::{ElementType, OwnerCategory, TimeReference, TimeSeriesType};
use crate::series::{
    AxisView, DataView, Descriptors, DescriptorsView, ForecastGrid, GridView, TimeAxis,
    TimeSeriesData,
};
use crate::status::{
    fail, fault_of, said, Checks, Failure, FailureView, INFRASTORE_ERR_INVALID_PARAMETER,
    INFRASTORE_ERR_NULL_POINTER,
};
use vstd::prelude::*;

verus! {

/// The arguments every add takes.
#[derive(Debug)]
pub struct SeriesArguments {
    pub owner_id: i64,
    pub owner_type: CText,
    pub owner_category: i32,
    pub name: CText,
    pub element_type: Argument<ElementType>,
    /// Empty where the caller gave no dimensions.
    pub dims: Vec<usize>,
    /// Nothing where the pointer is null.
    pub data: Option<Vec<u8>>,
    pub application_data: CText,
    pub features_json: CText,
    pub units: CText,
    pub quantity_kind: CText,
    pub unit_system: CText,
    pub time_reference: Argument<TimeReference>,
    pub component_field: CText,
}

/// A request to add one series.
#[derive(Debug)]
pub struct AddRequest {
    pub owner_id: i64,
    pub owner_type: String,
    pub owner_category: OwnerCategory,
    pub data: TimeSeriesData,
    pub features: Features,
}

/// The array the arguments describe.
pub open spec fn array_of(a: SeriesArguments) -> ArrayView {
    ArrayView {
        dtype: read_element_type(a.element_type)->Ok_0@.physical(),
        shape: a.dims@,
        bytes: match a.data {
            None => seq![],
            Some(bytes) => bytes@,
        },
    }
}

/// What keeps the arguments from describing an array.
pub open spec fn array_fault(a: SeriesArguments) -> Option<FailureView> {
    if array_of(a).fits() {
        None
    } else {
        Some(said(INFRASTORE_ERR_INVALID_PARAMETER, wrong_length_text(array_of(a))))
    }
}

/// The array of an element type, a shape, and raw little-endian bytes.
pub fn build_typed_array(element_type: &ElementType, dims: Vec<usize>, data: Option<Vec<u8>>) -> (r:
    Result<TypedArray, Failure>)
    ensures
        ({
            let a = ArrayView {
                dtype: element_type@.physical(),
                shape: dims@,
                bytes: match data {
                    None => seq![],
                    Some(bytes) => bytes@,
                },
            };
            match r {
                Ok(array) => a.fits() && array@ == a,
                Err(f) => !a.fits() && f@ == said(
                    INFRASTORE_ERR_INVALID_PARAMETER,
                    wrong_length_text(a),
                ),
            }
        }),
{
    let bytes: Vec<u8> = match data {
        None => Vec::new(),
        Some(bytes) => bytes,
    };
    match TypedArray::new(element_type.physical_dtype(), dims, bytes) {
        Ok(array) => Ok(array),
        Err(e) => Err(fail(INFRASTORE_ERR_INVALID_PARAMETER, e)),
    }
}

/// The descriptors the arguments give.
pub open spec fn descriptors_of(a: SeriesArguments) -> DescriptorsView {
    DescriptorsView {
        element_type: read_element_type(a.element_type)->Ok_0@,
        units: optional_text(a.units)->Ok_0,
        quantity_kind: optional_text(a.quantity_kind)->Ok_0,
        unit_system: read_unit_system(a.unit_system)->Ok_0,
        time_reference: crate::kinds::reference_view(read_reference(a.time_reference)->Ok_0),
        component_field: optional_text(a.component_field)->Ok_0,
        application_data: optional_text(a.application_data)->Ok_0,
    }
}

/// Whether a request is the one the arguments describe, for a series on this axis.
pub open spec fn is_request_for(request: AddRequest, a: SeriesArguments, axis: AxisView) -> bool {
    &&& request.owner_id == a.owner_id
    &&& request.owner_type@ == text_argument(a.owner_type)->Ok_0
    &&& request.owner_category == category_of(a.owner_category)->Ok_0
    &&& request.data@ == (DataView {
        name: text_argument(a.name)->Ok_0,
        axis,
        array: array_of(a),
        descriptors: descriptors_of(a),
    })
    &&& spells_features(feature_argument(a.features_json)->Ok_0, request.features@)
}

/// The first dimension of a shape, or nothing at all.
pub open spec fn first_of(shape: Seq<usize>) -> usize {
    if shape.len() == 0 {
        0
    } else {
        shape[0]
    }
}

fn first_dim(shape: &Vec<usize>) -> (r: usize)
    ensures
        r == first_of(shape@),
{
    if shape.len() == 0 {
        0
    } else {
        shape[0]
    }
}

// ---- A regular series -----------------------------------------------------------------

/// The arguments that add a regular series.
#[derive(Debug)]
pub struct SingleArguments {
    pub series: SeriesArguments,
    pub initial_ts_unix_ms: i64,
    pub resolution: Argument<Period>,
}

pub open spec fn initial_label() -> Seq<char> {
    "invalid initial_ts_unix_ms"@
}

pub open spec fn null_data(a: SeriesArguments, message: Seq<char>) -> Option<FailureView> {
    if a.data is None {
        Some(said(INFRASTORE_ERR_NULL_POINTER, message))
    } else {
        None
    }
}

/// The first argument that keeps a regular series from being added.
pub open spec fn single_fault(a: SingleArguments) -> Option<FailureView> {
    let s = a.series;
    null_data(s, "data_ptr is null"@)
        .or_next(fault_of(text_argument_said(s.owner_type, "owner_type is invalid"@)))
        .or_next(fault_of(text_argument_said(s.name, "name is invalid"@)))
        .or_next(fault_of(category_of(s.owner_category)))
        .or_next(fault_of(optional_text(s.units)))
        .or_next(fault_of(optional_text(s.quantity_kind)))
        .or_next(fault_of(read_unit_system(s.unit_system)))
        .or_next(fault_of(read_reference(s.time_reference)))
        .or_next(fault_of(optional_text(s.component_field)))
        .or_next(fault_of(optional_text(s.application_data)))
        .or_next(fault_of(feature_argument(s.features_json)))
        .or_next(fault_of(instant_argument(a.initial_ts_unix_ms, initial_label())))
        .or_next(fault_of(read_argument(a.resolution)))
        .or_next(fault_of(read_element_type(s.element_type)))
        .or_next(array_fault(s))
}

/// The request to add a regular series, or the first argument that keeps it from being made.
pub fn build_single_request(a: SingleArguments) -> (r: Result<AddRequest, Failure>)
    ensures
        match (r, single_fault(a)) {
            (Ok(request), None) => is_request_for(
                request,
                a.series,
                AxisView::SingleTimeSeries {
                    initial_timestamp: a.initial_ts_unix_ms,
                    resolution: read_argument(a.resolution)->Ok_0@,
                    length: first_of(a.series.dims@) as nat,
                },
            ),
            (Err(f), Some(expected)) => f@ == expected,
            _ => false,
        },
{
    let s = a.series;
    if s.data.is_none() {
        return Err(fail(INFRASTORE_ERR_NULL_POINTER, "data_ptr is null".to_string()));
    }
    let owner_type = match required_text_said(&s.owner_type, "owner_type is invalid") {
        Ok(v) => v,
        Err(f) => {
            return Err(f);
        },
    };
    let name = match required_text_said(&s.name, "name is invalid") {
        Ok(v) => v,
        Err(f) => {
            return Err(f);
        },
    };
    let category = match owner_category(s.owner_category) {
        Ok(v) => v,
        Err(f) => {
            return Err(f);
        },
    };
    let units = match cstr_to_optional_string(&s.units) {
        Ok(v) => v,
        Err(f) => {
            return Err(f);
        },
    };
    let quantity_kind = match cstr_to_optional_string(&s.quantity_kind) {
        Ok(v) => v,
        Err(f) => {
            return Err(f);
        },
    };
    let unit_system = match cstr_to_optional_unit_system(&s.unit_system) {
        Ok(v) => v,
        Err(f) => {
            return Err(f);
        },
    };
    let time_reference = match cstr_to_optional_time_reference(s.time_reference) {
        Ok(v) => v,
        Err(f) => {
            return Err(f);
        },
    };
    let component_field = match cstr_to_optional_string(&s.component_field) {
        Ok(v) => v,
        Err(f) => {
            return Err(f);
        },
    };
    let application_data = match cstr_to_optional_string(&s.application_data) {
        Ok(v) => v,
        Err(f) => {
            return Err(f);
        },
    };
    let features = match parse_features_json(&s.features_json) {
        Ok(v) => v,
        Err(f) => {
            return Err(f);
        },
    };
    let initial_timestamp: i64 = match required_instant(
        a.initial_ts_unix_ms,
        "invalid initial_ts_unix_ms",
    ) {
        Ok(v) => v,
        Err(f) => {
            return Err(f);
        },
    };
    let resolution = match cstr_to_period(a.resolution) {
        Ok(v) => v,
        Err(f) => {
            return Err(f);
        },
    };
    let element_type = match cstr_to_element_type(s.element_type) {
        Ok(v) => v,
        Err(f) => {
            return Err(f);
        },
    };
    let array = match build_typed_array(&element_type, s.dims, s.data) {
        Ok(v) => v,
        Err(f) => {
            return Err(f);
        },
    };
    let length: usize = first_dim(&array.shape);
    let axis = TimeAxis::SingleTimeSeries { initial_timestamp, resolution, length };
    let data = TimeSeriesData::new(axis, array, name).with_descriptors(
        Descriptors {
            element_type,
            units,
            quantity_kind,
            unit_system,
            time_reference,
            component_field,
            application_data,
        },
    );
    Ok(AddRequest { owner_id: s.owner_id, owner_type, owner_category: category, data, features })
}

// ---- A dense forecast -----------------------------------------------------------------

/// The arguments that add a dense forecast other than a probabilistic one.
#[derive(Debug)]
pub struct ForecastArguments {
    pub series: SeriesArguments,
    pub ts_type: i32,
    pub initial_ts_unix_ms: i64,
    pub resolution: Argument<Period>,
    pub horizon: Argument<Period>,
    pub interval: Argument<Period>,
    pub count: usize,
}

pub open spec fn not_addable_text(kind: TimeSeriesType) -> Seq<char> {
    "infrastore_store_add_forecast supports Deterministic and Scenarios; "@ + kind.spelling()
        + " is not directly addable (DeterministicSingleTimeSeries is derived via infrastore_store_transform_single_time_series)"@
}

/// What keeps a type from being added as a dense forecast.
pub open spec fn addable_fault(code: i32) -> Option<FailureView> {
    match typed(code) {
        Ok(TimeSeriesType::Deterministic) => None,
        Ok(TimeSeriesType::Scenarios) => None,
        Ok(other) => Some(said(INFRASTORE_ERR_INVALID_PARAMETER, not_addable_text(other))),
        Err(f) => Some(f),
    }
}

/// The first argument that keeps a dense forecast from being added.
pub open spec fn forecast_request_fault(a: ForecastArguments) -> Option<FailureView> {
    let s = a.series;
    null_data(s, "data_ptr is null"@)
        .or_next(fault_of(typed(a.ts_type)))
        .or_next(fault_of(text_argument(s.owner_type)))
        .or_next(fault_of(text_argument(s.name)))
        .or_next(fault_of(category_of(s.owner_category)))
        .or_next(fault_of(optional_text(s.units)))
        .or_next(fault_of(optional_text(s.quantity_kind)))
        .or_next(fault_of(read_unit_system(s.unit_system)))
        .or_next(fault_of(read_reference(s.time_reference)))
        .or_next(fault_of(optional_text(s.component_field)))
        .or_next(fault_of(feature_argument(s.features_json)))
        .or_next(fault_of(instant_argument(a.initial_ts_unix_ms, initial_label())))
        .or_next(fault_of(optional_text(s.application_data)))
        .or_next(fault_of(read_element_type(s.element_type)))
        .or_next(array_fault(s))
        .or_next(fault_of(read_argument(a.resolution)))
        .or_next(fault_of(read_argument(a.horizon)))
        .or_next(fault_of(read_argument(a.interval)))
        .or_next(addable_fault(a.ts_type))
}

/// The axis a dense forecast's arguments describe.
pub open spec fn forecast_axis_of(a: ForecastArguments) -> AxisView {
    let grid = GridView {
        initial_timestamp: a.initial_ts_unix_ms,
        resolution: read_argument(a.resolution)->Ok_0@,
        horizon: read_argument(a.horizon)->Ok_0@,
        interval: read_argument(a.interval)->Ok_0@,
        count: a.count as nat,
    };
    match typed(a.ts_type) {
        Ok(TimeSeriesType::Scenarios) => AxisView::Scenarios {
            grid,
            scenario_count: first_of(a.series.dims@) as nat,
        },
        _ => AxisView::Deterministic { grid },
    }
}

/// The request to add a deterministic or scenarios forecast, or the first argument that keeps
/// it from being made. The array is the stored one: `[H, count, *E]`, with the trajectories
/// leading where there are any. Whether the axes agree with the array is for the store to say:
/// see [`pass_on`].
pub fn build_forecast_request(a: ForecastArguments) -> (r: Result<AddRequest, Failure>)
    ensures
        match (r, forecast_request_fault(a)) {
            (Ok(request), None) => is_request_for(request, a.series, forecast_axis_of(a)),
            (Err(f), Some(expected)) => f@ == expected,
            _ => false,
        },
{
    let s = a.series;
    if s.data.is_none() {
        return Err(fail(INFRASTORE_ERR_NULL_POINTER, "data_ptr is null".to_string()));
    }
    let kind = match required_type(a.ts_type) {
        Ok(v) => v,
        Err(f) => {
            return Err(f);
        },
    };
    let owner_type = match required_text(&s.owner_type) {
        Ok(v) => v,
        Err(f) => {
            return Err(f);
        },
    };
    let name = match required_text(&s.name) {
        Ok(v) => v,
        Err(f) => {
            return Err(f);
        },
    };
    let category = match owner_category(s.owner_category) {
        Ok(v) => v,
        Err(f) => {
            return Err(f);
        },
    };
    let units = match cstr_to_optional_string(&s.units) {
        Ok(v) => v,
        Err(f) => {
            return Err(f);
        },
    };
    let quantity_kind = match cstr_to_optional_string(&s.quantity_kind) {
        Ok(v) => v,
        Err(f) => {
            return Err(f);
        },
    };
    let unit_system = match cstr_to_optional_unit_system(&s.unit_system) {
        Ok(v) => v,
        Err(f) => {
            return Err(f);
        },
    };
    let time_reference = match cstr_to_optional_time_reference(s.time_reference) {
        Ok(v) => v,
        Err(f) => {
            return Err(f);
        },
    };
    let component_field = match cstr_to_optional_string(&s.component_field) {
        Ok(v) => v,
        Err(f) => {
            return Err(f);
        },
    };
    let features = match parse_features_json(&s.features_json) {
        Ok(v) => v,
        Err(f) => {
            return Err(f);
        },
    };
    let initial_timestamp: i64 = match required_instant(a.initial_ts_unix_ms, "invalid initial_ts_unix_ms") {
        Ok(v) => v,
        Err(f) => {
            return Err(f);
        },
    };
    let application_data = match cstr_to_optional_string(&s.application_data) {
        Ok(v) => v,
        Err(f) => {
            return Err(f);
        },
    };
    let element_type = match cstr_to_element_type(s.element_type) {
        Ok(v) => v,
        Err(f) => {
            return Err(f);
        },
    };
    let array = match build_typed_array(&element_type, s.dims, s.data) {
        Ok(v) => v,
        Err(f) => {
            return Err(f);
        },
    };
    let resolution = match cstr_to_period(a.resolution) {
        Ok(v) => v,
        Err(f) => {
            return Err(f);
        },
    };
    let horizon = match cstr_to_period(a.horizon) {
        Ok(v) => v,
        Err(f) => {
            return Err(f);
        },
    };
    let interval = match cstr_to_period(a.interval) {
        Ok(v) => v,
        Err(f) => {
            return Err(f);
        },
    };
    let grid = ForecastGrid { initial_timestamp, resolution, horizon, interval, count: a.count };
    let axis = match kind {
        TimeSeriesType::Deterministic => TimeAxis::Deterministic { grid },
        TimeSeriesType::Scenarios => {
            let scenario_count: usize = first_dim(&array.shape);
            TimeAxis::Scenarios { grid, scenario_count }
        },
        other => {
            let mut message =
                "infrastore_store_add_forecast supports Deterministic and Scenarios; ".to_string();
            message.append(other.as_str());
            message.append(
                " is not directly addable (DeterministicSingleTimeSeries is derived via infrastore_store_transform_single_time_series)",
            );
            return Err(fail(INFRASTORE_ERR_INVALID_PARAMETER, message));
        },
    };
    let data = TimeSeriesData::new(axis, array, name).with_descriptors(
        Descriptors {
            element_type,
            units,
            quantity_kind,
            unit_system,
            time_reference,
            component_field,
            application_data,
        },
    );
    Ok(AddRequest { owner_id: s.owner_id, owner_type, owner_category: category, data, features })
}

/// A request the store's own constructor has looked at: passed on, or refused in its words.
pub fn pass_on(request: AddRequest, verdict: Result<(), String>) -> (r: Result<AddRequest, Failure>)
    ensures
        match verdict {
            Ok(_) => r == Ok::<AddRequest, Failure>(request),
            Err(e) => r matches Err(f) && f@ == said(INFRASTORE_ERR_INVALID_PARAMETER, e@),
        },
{
    match verdict {
        Ok(_) => Ok(request),
        Err(e) => Err(fail(INFRASTORE_ERR_INVALID_PARAMETER, e)),
    }
}

// ---- A probabilistic forecast -----------------------------------------------------------

/// The arguments that add a probabilistic forecast.
#[derive(Debug)]
pub struct ProbabilisticArguments {
    pub series: SeriesArguments,
    pub initial_ts_unix_ms: i64,
    pub resolution: Argument<Period>,
    pub horizon: Argument<Period>,
    pub interval: Argument<Period>,
    pub count: usize,
    /// As IEEE 754 bits; nothing where the pointer is null.
    pub percentiles: Option<Vec<u64>>,
}

/// The first argument that keeps a probabilistic forecast from being added.
pub open spec fn probabilistic_fault(a: ProbabilisticArguments) -> Option<FailureView> {
    let s = a.series;
    let null = if s.data is None || a.percentiles is None {
        Some(said(INFRASTORE_ERR_NULL_POINTER, "a required pointer is null"@))
    } else {
        None
    };
    null
        .or_next(fault_of(text_argument(s.owner_type)))
        .or_next(fault_of(text_argument(s.name)))
        .or_next(fault_of(category_of(s.owner_category)))
        .or_next(fault_of(optional_text(s.units)))
        .or_next(fault_of(optional_text(s.quantity_kind)))
        .or_next(fault_of(read_unit_system(s.unit_system)))
        .or_next(fault_of(read_reference(s.time_reference)))
        .or_next(fault_of(optional_text(s.component_field)))
        .or_next(fault_of(feature_argument(s.features_json)))
        .or_next(fault_of(instant_argument(a.initial_ts_unix_ms, initial_label())))
        .or_next(fault_of(optional_text(s.application_data)))
        .or_next(fault_of(read_element_type(s.element_type)))
        .or_next(array_fault(s))
        .or_next(fault_of(read_argument(a.resolution)))
        .or_next(fault_of(read_argument(a.horizon)))
        .or_next(fault_of(read_argument(a.interval)))
}

/// The request to add a probabilistic forecast, or the first argument that keeps it from being
/// made. Whether the axes agree with the array, and the percentiles ascend, is for the store to
/// say: see [`pass_on`].
pub fn build_probabilistic_request(a: ProbabilisticArguments) -> (r: Result<AddRequest, Failure>)
    ensures
        match (r, probabilistic_fault(a)) {
            (Ok(request), None) => is_request_for(
                request,
                a.series,
                AxisView::Probabilistic {
                    grid: GridView {
                        initial_timestamp: a.initial_ts_unix_ms,
                        resolution: read_argument(a.resolution)->Ok_0@,
                        horizon: read_argument(a.horizon)->Ok_0@,
                        interval: read_argument(a.interval)->Ok_0@,
                        count: a.count as nat,
                    },
                    percentiles: a.percentiles->0@,
                },
            ),
            (Err(f), Some(expected)) => f@ == expected,
            _ => false,
        },
{
    let s = a.series;
    let percentiles = match (a.percentiles, s.data.is_none()) {
        (Some(percentiles), false) => percentiles,
        _ => {
            return Err(
                fail(INFRASTORE_ERR_NULL_POINTER, "a required pointer is null".to_string()),
            );
        },
    };
    let owner_type = match required_text(&s.owner_type) {
        Ok(v) => v,
        Err(f) => {
            return Err(f);
        },
    };
    let name = match required_text(&s.name) {
        Ok(v) => v,
        Err(f) => {
            return Err(f);
        },
    };
    let category = match owner_category(s.owner_category) {
        Ok(v) => v,
        Err(f) => {
            return Err(f);
        },
    };
    let units = match cstr_to_optional_string(&s.units) {
        Ok(v) => v,
        Err(f) => {
            return Err(f);
        },
    };
    let quantity_kind = match cstr_to_optional_string(&s.quantity_kind) {
        Ok(v) => v,
        Err(f) => {
            return Err(f);
        },
    };
    let unit_system = match cstr_to_optional_unit_system(&s.unit_system) {
        Ok(v) => v,
        Err(f) => {
            return Err(f);
        },
    };
    let time_reference = match cstr_to_optional_time_reference(s.time_reference) {
        Ok(v) => v,
        Err(f) => {
            return Err(f);
        },
    };
    let component_field = match cstr_to_optional_string(&s.component_field) {
        Ok(v) => v,
        Err(f) => {
            return Err(f);
        },
    };
    let features = match parse_features_json(&s.features_json) {
        Ok(v) => v,
        Err(f) => {
            return Err(f);
        },
    };
    let initial_timestamp: i64 = match required_instant(a.initial_ts_unix_ms, "invalid initial_ts_unix_ms") {
        Ok(v) => v,
        Err(f) => {
            return Err(f);
        },
    };
    let application_data = match cstr_to_optional_string(&s.application_data) {
        Ok(v) => v,
        Err(f) => {
            return Err(f);
        },
    };
    let element_type = match cstr_to_element_type(s.element_type) {
        Ok(v) => v,
        Err(f) => {
            return Err(f);
        },
    };
    let array = match build_typed_array(&element_type, s.dims, s.data) {
        Ok(v) => v,
        Err(f) => {
            return Err(f);
        },
    };
    let resolution = match cstr_to_period(a.resolution) {
        Ok(v) => v,
        Err(f) => {
            return Err(f);
        },
    };
    let horizon = match cstr_to_period(a.horizon) {
        Ok(v) => v,
        Err(f) => {
            return Err(f);
        },
    };
    let interval = match cstr_to_period(a.interval) {
        Ok(v) => v,
        Err(f) => {
            return Err(f);
        },
    };
    let grid = ForecastGrid { initial_timestamp, resolution, horizon, interval, count: a.count };
    let axis = TimeAxis::Probabilistic { grid, percentiles };
    let data = TimeSeriesData::new(axis, array, name).with_descriptors(
        Descriptors {
            element_type,
            units,
            quantity_kind,
            unit_system,
            time_reference,
            component_field,
            application_data,
        },
    );
    Ok(AddRequest { owner_id: s.owner_id, owner_type, owner_category: category, data, features })
}

// ---- An irregular series ----------------------------------------------------------------

/// The arguments that add an irregular series.
#[derive(Debug)]
pub struct NonSequentialArguments {
    pub series: SeriesArguments,
    /// Nothing where the pointer is null.
    pub timestamps_unix_ms: Option<Vec<i64>>,
}

/// What is said of the first of `n` timestamps that names no instant.
pub open spec fn timestamps_fault(timestamps: Seq<i64>, n: int) -> Option<FailureView>
    decreases n,
{
    if n <= 0 {
        None
    } else {
        timestamps_fault(timestamps, n - 1).or_next(
            fault_of(
                instant_argument(timestamps[n - 1], "invalid timestamp unix milliseconds"@),
            ),
        )
    }
}

proof fn timestamps_fault_persists(timestamps: Seq<i64>, n: int, m: int)
    requires
        0 <= n <= m,
        timestamps_fault(timestamps, n) is Some,
    ensures
        timestamps_fault(timestamps, m) == timestamps_fault(timestamps, n),
    decreases m - n,
{
    if n < m {
        timestamps_fault_persists(timestamps, n, m - 1);
    }
}

fn check_timestamps(timestamps: &Vec<i64>) -> (r: Result<(), Failure>)
    ensures
        match (r, timestamps_fault(timestamps@, timestamps@.len() as int)) {
            (Ok(_), None) => true,
            (Err(f), Some(expected)) => f@ == expected,
            _ => false,
        },
{
    let mut i: usize = 0;
    while i < timestamps.len()
        invariant
            i <= timestamps.len(),
            timestamps_fault(timestamps@, i as int) is None,
        decreases timestamps.len() - i,
    {
        match required_instant(timestamps[i], "invalid timestamp unix milliseconds") {
            Ok(_) => {},
            Err(f) => {
                proof {
                    timestamps_fault_persists(timestamps@, i + 1, timestamps@.len() as int);
                }
                return Err(f);
            },
        }
        i += 1;
    }
    Ok(())
}

/// The first argument that keeps an irregular series from being put together.
pub open spec fn non_sequential_head_fault(a: NonSequentialArguments) -> Option<FailureView> {
    let s = a.series;
    let null = if s.data is None || a.timestamps_unix_ms is None {
        Some(said(INFRASTORE_ERR_NULL_POINTER, "an input pointer is null"@))
    } else {
        None
    };
    null
        .or_next(fault_of(text_argument(s.owner_type)))
        .or_next(fault_of(text_argument(s.name)))
        .or_next(fault_of(category_of(s.owner_category)))
        .or_next(
            timestamps_fault(a.timestamps_unix_ms->0@, a.timestamps_unix_ms->0@.len() as int),
        )
        .or_next(fault_of(read_element_type(s.element_type)))
        .or_next(array_fault(s))
}

/// An irregular series put together, before the store has looked at it.
#[derive(Debug)]
pub struct NonSequentialDraft {
    pub owner_id: i64,
    pub owner_type: String,
    pub owner_category: OwnerCategory,
    pub element_type: ElementType,
    pub data: TimeSeriesData,
    pub application_data: CText,
    pub features_json: CText,
    pub units: CText,
    pub quantity_kind: CText,
    pub unit_system: CText,
    pub time_reference: Argument<TimeReference>,
    pub component_field: CText,
}

/// Whether a draft is the one the arguments describe.
pub open spec fn is_draft_for(draft: NonSequentialDraft, a: NonSequentialArguments) -> bool {
    let s = a.series;
    &&& draft.owner_id == s.owner_id
    &&& draft.owner_type@ == text_argument(s.owner_type)->Ok_0
    &&& draft.owner_category == category_of(s.owner_category)->Ok_0
    &&& draft.element_type == read_element_type(s.element_type)->Ok_0
    &&& draft.data@ == (DataView {
        name: text_argument(s.name)->Ok_0,
        axis: AxisView::NonSequentialTimeSeries { timestamps: a.timestamps_unix_ms->0@ },
        array: array_of(s),
        descriptors: crate::series::bare_descriptors(array_of(s)),
    })
    &&& draft.application_data == s.application_data
    &&& draft.features_json == s.features_json
    &&& draft.units == s.units
    &&& draft.quantity_kind == s.quantity_kind
    &&& draft.unit_system == s.unit_system
    &&& draft.time_reference == s.time_reference
    &&& draft.component_field == s.component_field
}

/// Puts an irregular series together, for the store to look at: see
/// [`finish_non_sequential_request`].
pub fn build_non_sequential_request(a: NonSequentialArguments) -> (r: Result<
    NonSequentialDraft,
    Failure,
>)
    ensures
        match (r, non_sequential_head_fault(a)) {
            (Ok(draft), None) => is_draft_for(draft, a),
            (Err(f), Some(expected)) => f@ == expected,
            _ => false,
        },
{
    let s = a.series;
    let timestamps = match (a.timestamps_unix_ms, s.data.is_none()) {
        (Some(timestamps), false) => timestamps,
        _ => {
            return Err(fail(INFRASTORE_ERR_NULL_POINTER, "an input pointer is null".to_string()));
        },
    };
    let owner_type = match required_text(&s.owner_type) {
        Ok(v) => v,
        Err(f) => {
            return Err(f);
        },
    };
    let name = match required_text(&s.name) {
        Ok(v) => v,
        Err(f) => {
            return Err(f);
        },
    };
    let category = match owner_category(s.owner_category) {
        Ok(v) => v,
        Err(f) => {
            return Err(f);
        },
    };
    match check_timestamps(&timestamps) {
        Ok(_) => {},
        Err(f) => {
            return Err(f);
        },
    }
    let element_type = match cstr_to_element_type(s.element_type) {
        Ok(v) => v,
        Err(f) => {
            return Err(f);
        },
    };
    let array = match build_typed_array(&element_type, s.dims, s.data) {
        Ok(v) => v,
        Err(f) => {
            return Err(f);
        },
    };
    let axis = TimeAxis::NonSequentialTimeSeries { timestamps };
    let data = TimeSeriesData::new(axis, array, name);
    Ok(
        NonSequentialDraft {
            owner_id: s.owner_id,
            owner_type,
            owner_category: category,
            element_type,
            data,
            application_data: s.application_data,
            features_json: s.features_json,
            units: s.units,
            quantity_kind: s.quantity_kind,
            unit_system: s.unit_system,
            time_reference: s.time_reference,
            component_field: s.component_field,
        },
    )
}

/// What keeps a draft from being a request, given what the store says of the series.
pub open spec fn draft_fault(draft: NonSequentialDraft, verdict: Result<(), String>) -> Option<
    FailureView,
> {
    let refused = match verdict {
        Ok(_) => None,
        Err(e) => Some(said(INFRASTORE_ERR_INVALID_PARAMETER, e@)),
    };
    refused
        .or_next(fault_of(feature_argument(draft.features_json)))
        .or_next(fault_of(optional_text(draft.units)))
        .or_next(fault_of(optional_text(draft.quantity_kind)))
        .or_next(fault_of(read_unit_system(draft.unit_system)))
        .or_next(fault_of(read_reference(draft.time_reference)))
        .or_next(fault_of(optional_text(draft.component_field)))
        .or_next(fault_of(optional_text(draft.application_data)))
}

/// The request to add an irregular series the store has looked at.
pub fn finish_non_sequential_request(draft: NonSequentialDraft, verdict: Result<(), String>) -> (r:
    Result<AddRequest, Failure>)
    ensures
        match (r, draft_fault(draft, verdict)) {
            (Ok(request), None) => {
                &&& request.owner_id == draft.owner_id
                &&& request.owner_type == draft.owner_type
                &&& request.owner_category == draft.owner_category
                &&& request.data@ == (DataView {
                    descriptors: DescriptorsView {
                        element_type: draft.element_type@,
                        units: optional_text(draft.units)->Ok_0,
                        quantity_kind: optional_text(draft.quantity_kind)->Ok_0,
                        unit_system: read_unit_system(draft.unit_system)->Ok_0,
                        time_reference: crate::kinds::reference_view(
                            read_reference(draft.time_reference)->Ok_0,
                        ),
                        component_field: optional_text(draft.component_field)->Ok_0,
                        application_data: optional_text(draft.application_data)->Ok_0,
                    },
                    ..draft.data@
                })
                &&& spells_features(feature_argument(draft.features_json)->Ok_0, request.features@)
            },
            (Err(f), Some(expected)) => f@ == expected,
            _ => false,
        },
{
    match verdict {
        Ok(_) => {},
        Err(e) => {
            return Err(fail(INFRASTORE_ERR_INVALID_PARAMETER, e));
        },
    }
    let features = match parse_features_json(&draft.features_json) {
        Ok(v) => v,
        Err(f) => {
            return Err(f);
        },
    };
    let units = match cstr_to_optional_string(&draft.units) {
        Ok(v) => v,
        Err(f) => {
            return Err(f);
        },
    };
    let quantity_kind = match cstr_to_optional_string(&draft.quantity_kind) {
        Ok(v) => v,
        Err(f) => {
            return Err(f);
        },
    };
    let unit_system = match cstr_to_optional_unit_system(&draft.unit_system) {
        Ok(v) => v,
        Err(f) => {
            return Err(f);
        },
    };
    let time_reference = match cstr_to_optional_time_reference(draft.time_reference) {
        Ok(v) => v,
        Err(f) => {
            return Err(f);
        },
    };
    let component_field = match cstr_to_optional_string(&draft.component_field) {
        Ok(v) => v,
        Err(f) => {
            return Err(f);
        },
    };
    let application_data = match cstr_to_optional_string(&draft.application_data) {
        Ok(v) => v,
        Err(f) => {
            return Err(f);
        },
    };
    let data = draft.data.with_descriptors(
        Descriptors {
            element_type: draft.element_type,
            units,
            quantity_kind,
            unit_system,
            time_reference,
            component_field,
            application_data,
        },
    );
    Ok(
        AddRequest {
            owner_id: draft.owner_id,
            owner_type: draft.owner_type,
            owner_category: draft.owner_category,
            data,
            features,
        },
    )
}

} // verus!
