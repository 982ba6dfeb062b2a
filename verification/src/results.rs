//! Series read in bulk, and what a caller gets of one of them.
use crate::arguments::time_series_type_to_int;
use crate::handed_back::unterminated;
use crate::kinds::TimeSeriesType;
use crate::partition::copy_sizes;
use crate::probe::{
    attribute_text, opt_attr_cstring, owned_cstr, owned_output, owned_text, period_cstr,
    write_owned_str_out,
};
use crate::rows::grid_of_axis;
use crate::series::{
    opt_text, AxisView, Descriptors, DescriptorsView, ForecastGrid, TimeAxis, TimeSeriesData,
};
use crate::status::{
    fail, fault_of, pointer_fault, require_pointer, said, Checks, Failure, FailureView,
    INFRASTORE_ERR_INVALID_PARAMETER, INFRASTORE_ERR_NULL_POINTER,
};
use crate::text::{decimal, decimal_text};
use vstd::prelude::*;

verus! {

/// One series of a bulk read, with the store's own number for its dtype.
#[derive(Debug)]
pub struct BulkItem {
    pub data: TimeSeriesData,
    pub stored_dtype: i32,
}

impl BulkItem {
    /// The code a caller gets for the item's dtype.
    pub open spec fn code(self) -> i32 {
        self.data@.array.dtype.abi_code(self.stored_dtype)
    }

    fn dtype_code(&self) -> (r: i32)
        ensures
            r == self.code(),
    {
        self.data.array.dtype.code(self.stored_dtype)
    }
}

// ---- Descriptors ------------------------------------------------------------------------

/// Which descriptors a caller has room for.
#[derive(Clone, Copy, Debug)]
pub struct Wanted {
    pub application_data: bool,
    pub element_type: bool,
    pub units: bool,
    pub quantity_kind: bool,
    pub unit_system: bool,
    pub time_reference: bool,
    pub component_field: bool,
}

/// The descriptors a caller gets: nothing for one that is unset or that it has no room for.
#[derive(Debug)]
pub struct DescriptorsOut {
    pub application_data: Option<String>,
    pub element_type: Option<String>,
    pub units: Option<String>,
    pub quantity_kind: Option<String>,
    pub unit_system: Option<String>,
    pub time_reference: Option<String>,
    pub component_field: Option<String>,
}

/// [`DescriptorsOut`], with their texts as characters.
pub struct DescriptorsOutView {
    pub application_data: Option<Seq<char>>,
    pub element_type: Option<Seq<char>>,
    pub units: Option<Seq<char>>,
    pub quantity_kind: Option<Seq<char>>,
    pub unit_system: Option<Seq<char>>,
    pub time_reference: Option<Seq<char>>,
    pub component_field: Option<Seq<char>>,
}

impl View for DescriptorsOut {
    type V = DescriptorsOutView;

    open spec fn view(&self) -> DescriptorsOutView {
        DescriptorsOutView {
            application_data: opt_text(self.application_data),
            element_type: opt_text(self.element_type),
            units: opt_text(self.units),
            quantity_kind: opt_text(self.quantity_kind),
            unit_system: opt_text(self.unit_system),
            time_reference: opt_text(self.time_reference),
            component_field: opt_text(self.component_field),
        }
    }
}

/// An attribute a caller has room for.
pub open spec fn wanted_text(wanted: bool, value: Option<Seq<char>>) -> Result<
    Option<Seq<char>>,
    FailureView,
> {
    if wanted {
        attribute_text(value)
    } else {
        Ok(None)
    }
}

fn emit_text(wanted: bool, value: &Option<String>) -> (r: Result<Option<String>, Failure>)
    ensures
        match (r, wanted_text(wanted, opt_text(*value))) {
            (Ok(v), Ok(expected)) => opt_text(v) == expected,
            (Err(f), Err(expected)) => f@ == expected,
            _ => false,
        },
{
    if wanted {
        opt_attr_cstring(value)
    } else {
        Ok(None)
    }
}

/// The first attribute that keeps the descriptors from being handed out.
pub open spec fn descriptors_fault(d: DescriptorsView, w: Wanted) -> Option<FailureView> {
    fault_of(wanted_text(w.application_data, d.application_data))
        .or_next(fault_of(wanted_text(w.units, d.units)))
        .or_next(fault_of(wanted_text(w.quantity_kind, d.quantity_kind)))
        .or_next(fault_of(wanted_text(w.component_field, d.component_field)))
}

/// The descriptors a caller gets.
pub open spec fn descriptors_out(d: DescriptorsView, w: Wanted) -> DescriptorsOutView {
    DescriptorsOutView {
        application_data: wanted_text(w.application_data, d.application_data)->Ok_0,
        element_type: if w.element_type {
            owned_text(d.element_type.spelling())
        } else {
            None
        },
        units: wanted_text(w.units, d.units)->Ok_0,
        quantity_kind: wanted_text(w.quantity_kind, d.quantity_kind)->Ok_0,
        unit_system: match d.unit_system {
            Some(u) if w.unit_system => owned_text(u.spelling()),
            _ => None,
        },
        time_reference: match d.time_reference {
            Some(reference) if w.time_reference => owned_text(reference.storage_text()),
            _ => None,
        },
        component_field: wanted_text(w.component_field, d.component_field)->Ok_0,
    }
}

/// A series' descriptors, all of them or none: every text is looked at before any is handed
/// out, so that a failure leaves nothing behind.
pub fn emit_descriptors(d: &Descriptors, w: Wanted) -> (r: Result<DescriptorsOut, Failure>)
    ensures
        match (r, descriptors_fault(d@, w)) {
            (Ok(out), None) => out@ == descriptors_out(d@, w),
            (Err(f), Some(expected)) => f@ == expected,
            _ => false,
        },
{
    let application_data = match emit_text(w.application_data, &d.application_data) {
        Ok(v) => v,
        Err(f) => {
            return Err(f);
        },
    };
    let units = match emit_text(w.units, &d.units) {
        Ok(v) => v,
        Err(f) => {
            return Err(f);
        },
    };
    let quantity_kind = match emit_text(w.quantity_kind, &d.quantity_kind) {
        Ok(v) => v,
        Err(f) => {
            return Err(f);
        },
    };
    let component_field = match emit_text(w.component_field, &d.component_field) {
        Ok(v) => v,
        Err(f) => {
            return Err(f);
        },
    };
    let unit_system = match d.unit_system {
        Some(u) => {
            if w.unit_system {
                owned_cstr(u.as_str().to_string())
            } else {
                None
            }
        },
        None => None,
    };
    let time_reference = match &d.time_reference {
        Some(reference) => {
            if w.time_reference {
                owned_cstr(reference.as_storage_string())
            } else {
                None
            }
        },
        None => None,
    };
    let element_type = if w.element_type {
        owned_cstr(d.element_type.spelled())
    } else {
        None
    };
    Ok(
        DescriptorsOut {
            application_data,
            element_type,
            units,
            quantity_kind,
            unit_system,
            time_reference,
            component_field,
        },
    )
}

// ---- Items --------------------------------------------------------------------------------

pub open spec fn out_of_bounds() -> FailureView {
    said(INFRASTORE_ERR_INVALID_PARAMETER, "bulk-read index out of bounds"@)
}

fn no_item() -> (r: Failure)
    ensures
        r@ == out_of_bounds(),
{
    fail(INFRASTORE_ERR_INVALID_PARAMETER, "bulk-read index out of bounds".to_string())
}

/// What is said of an item of another type than the call reads.
pub open spec fn wrong_item(index: u64, kind: TimeSeriesType, what: Seq<char>) -> FailureView {
    said(
        INFRASTORE_ERR_INVALID_PARAMETER,
        "bulk-read item "@ + decimal_text(index as nat) + " is a "@ + kind.spelling() + ", not a "@
            + what,
    )
}

fn not_a(index: u64, kind: TimeSeriesType, what: &str) -> (r: Failure)
    ensures
        r@ == wrong_item(index, kind, what@),
{
    let mut message = "bulk-read item ".to_string();
    message.append(decimal(index).as_str());
    message.append(" is a ");
    message.append(kind.as_str());
    message.append(", not a ");
    message.append(what);
    fail(INFRASTORE_ERR_INVALID_PARAMETER, message)
}

/// What keeps an item from being read as this kind of thing.
pub open spec fn item_fault(
    items: Seq<BulkItem>,
    index: u64,
    readable: bool,
    what: Seq<char>,
    w: Wanted,
) -> Option<FailureView> {
    if index >= items.len() {
        Some(out_of_bounds())
    } else if !readable {
        Some(wrong_item(index, items[index as int].data@.axis.kind(), what))
    } else {
        descriptors_fault(items[index as int].data@.descriptors, w)
    }
}

/// The items of a bulk read, where the call may write what it hands back.
pub open spec fn handed_fault(result: Option<&Vec<BulkItem>>, out: bool, message: Seq<char>) -> Option<
    FailureView,
> {
    pointer_fault(result is Some, "bulk-read result handle is null"@).or_next(
        pointer_fault(out, message),
    )
}

fn items_of<'a>(result: Option<&'a Vec<BulkItem>>, out: bool, message: &str) -> (r: Result<
    &'a Vec<BulkItem>,
    Failure,
>)
    ensures
        match (r, handed_fault(result, out, message@)) {
            (Ok(items), None) => result == Some(items),
            (Err(f), Some(expected)) => f@ == expected,
            _ => false,
        },
{
    match result {
        None => Err(
            fail(
                INFRASTORE_ERR_NULL_POINTER,
                "bulk-read result handle is null".to_string(),
            ),
        ),
        Some(items) => match require_pointer(out, message) {
            Ok(_) => Ok(items),
            Err(f) => Err(f),
        },
    }
}

/// How many series a bulk read holds; -1 where there is no bulk read.
pub fn infrastore_bulk_result_len(items: Option<&Vec<BulkItem>>) -> (r: i64)
    requires
        items matches Some(v) ==> v@.len() <= i64::MAX,
    ensures
        r == (match items {
            Some(v) => v@.len() as int,
            None => -1,
        }),
{
    match items {
        Some(v) => v.len() as i64,
        None => -1,
    }
}

/// Why an item's name cannot be handed back, if it cannot: there is no such item, or a C string
/// cannot hold the name.
pub open spec fn name_fault(items: Seq<BulkItem>, index: u64) -> Option<FailureView> {
    if index >= items.len() {
        Some(out_of_bounds())
    } else {
        fault_of(
            owned_output(
                items[index as int].data.name@,
                "series name contained an interior NUL"@,
            ),
        )
    }
}

/// The name of an item, refused where a C string cannot hold it.
pub fn infrastore_bulk_result_item_name(
    result: Option<&Vec<BulkItem>>,
    out_name: bool,
    index: u64) -> (r: Result<String, Failure>)
    ensures
        match (
            r,
            handed_fault(result, out_name, "out_name pointer is null"@).or_next(
                name_fault(result->0@, index),
            ),
        ) {
            (Ok(name), None) => name@ == result->0@[index as int].data.name@,
            (Err(f), Some(expected)) => f@ == expected,
            _ => false,
        },
{
    let items = match items_of(result, out_name, "out_name pointer is null") {
        Ok(items) => items,
        Err(f) => {
            return Err(f);
        },
    };
    if index >= items.len() as u64 {
        return Err(no_item());
    }
    let i: usize = index as usize;
    match write_owned_str_out(
        items[i].data.name.clone(),
        "series name contained an interior NUL",
    ) {
        Ok((name, _)) => Ok(name),
        Err(f) => Err(f),
    }
}

/// The type code of an item, by which a caller picks how to read it.
pub fn infrastore_bulk_result_item_type(
    result: Option<&Vec<BulkItem>>,
    out_type: bool,
    index: u64) -> (r: Result<i32, Failure>)
    requires
        result matches Some(items) ==> index < items@.len()
            ==> items@[index as int].data@.axis.kind() != TimeSeriesType::PersistentTimeSeries,
    ensures
        match (
            r,
            handed_fault(result, out_type, "out_type pointer is null"@).or_next(
                if index >= result->0@.len() {
                    Some(out_of_bounds())
                } else {
                    None
                },
            ),
        ) {
            (Ok(code), None) => code == result->0@[index as int].data@.axis.kind().number(),
            (Err(f), Some(expected)) => f@ == expected,
            _ => false,
        },
{
    let items = match items_of(result, out_type, "out_type pointer is null") {
        Ok(items) => items,
        Err(f) => {
            return Err(f);
        },
    };
    if index >= items.len() as u64 {
        return Err(no_item());
    }
    let i: usize = index as usize;
    Ok(time_series_type_to_int(items[i].data.time_series_type()))
}

/// A regular series as a caller gets it.
#[derive(Debug)]
pub struct SingleOut {
    pub initial_timestamp: i64,
    pub resolution: Option<String>,
    pub dtype_code: i32,
    pub shape: Vec<usize>,
    pub bytes: Vec<u8>,
    pub descriptors: DescriptorsOut,
}

/// Whether an output is what a caller gets of a regular series.
pub open spec fn is_single_out(out: SingleOut, item: BulkItem, w: Wanted) -> bool {
    &&& item.data@.axis matches AxisView::SingleTimeSeries { initial_timestamp, resolution, .. }
        && out.initial_timestamp == initial_timestamp && opt_text(out.resolution) == owned_text(
        resolution.iso,
    )
    &&& out.dtype_code == item.code()
    &&& out.shape@ == item.data@.array.shape
    &&& out.bytes@ == item.data@.array.bytes
    &&& out.descriptors@ == descriptors_out(item.data@.descriptors, w)
}

/// A regular series of a bulk read. The item stays, so it may be read again.
pub fn infrastore_bulk_result_get_single(
    result: Option<&Vec<BulkItem>>,
    outs: bool,
    index: u64, w: Wanted) -> (r: Result<
    SingleOut,
    Failure,
>)
    ensures
        match (
            r,
            handed_fault(result, outs, "an out pointer is null"@).or_next(
                item_fault(
                    result->0@,
                    index,
                    result->0@[index as int].data@.axis is SingleTimeSeries,
                    "SingleTimeSeries"@,
                    w,
                ),
            ),
        ) {
            (Ok(out), None) => is_single_out(out, result->0@[index as int], w),
            (Err(f), Some(expected)) => f@ == expected,
            _ => false,
        },
{
    let items = match items_of(result, outs, "an out pointer is null") {
        Ok(items) => items,
        Err(f) => {
            return Err(f);
        },
    };
    if index >= items.len() as u64 {
        return Err(no_item());
    }
    let i: usize = index as usize;
    let item = &items[i];
    match &item.data.axis {
        TimeAxis::SingleTimeSeries { initial_timestamp, resolution, .. } => {
            let descriptors = match emit_descriptors(&item.data.descriptors, w) {
                Ok(v) => v,
                Err(f) => {
                    return Err(f);
                },
            };
            Ok(
                SingleOut {
                    initial_timestamp: *initial_timestamp,
                    resolution: period_cstr(resolution),
                    dtype_code: item.dtype_code(),
                    shape: copy_sizes(&item.data.array.shape),
                    bytes: item.data.array.bytes.clone(),
                    descriptors,
                },
            )
        },
        _ => Err(not_a(index, item.data.time_series_type(), "SingleTimeSeries")),
    }
}

/// An irregular series as a caller gets it.
#[derive(Debug)]
pub struct NonSequentialOut {
    pub timestamps: Vec<i64>,
    pub dtype_code: i32,
    pub shape: Vec<usize>,
    pub bytes: Vec<u8>,
    pub descriptors: DescriptorsOut,
}

/// Whether an output is what a caller gets of an irregular series.
pub open spec fn is_non_sequential_out(out: NonSequentialOut, item: BulkItem, w: Wanted) -> bool {
    &&& item.data@.axis matches AxisView::NonSequentialTimeSeries { timestamps }
        && out.timestamps@ == timestamps
    &&& out.dtype_code == item.code()
    &&& out.shape@ == item.data@.array.shape
    &&& out.bytes@ == item.data@.array.bytes
    &&& out.descriptors@ == descriptors_out(item.data@.descriptors, w)
}

/// An irregular series of a bulk read.
pub fn infrastore_bulk_result_get_non_sequential(
    result: Option<&Vec<BulkItem>>,
    outs: bool,
    index: u64, w: Wanted) -> (r: Result<
    NonSequentialOut,
    Failure,
>)
    ensures
        match (
            r,
            handed_fault(result, outs, "an out pointer is null"@).or_next(
                item_fault(
                    result->0@,
                    index,
                    result->0@[index as int].data@.axis is NonSequentialTimeSeries,
                    "NonSequentialTimeSeries"@,
                    w,
                ),
            ),
        ) {
            (Ok(out), None) => is_non_sequential_out(out, result->0@[index as int], w),
            (Err(f), Some(expected)) => f@ == expected,
            _ => false,
        },
{
    let items = match items_of(result, outs, "an out pointer is null") {
        Ok(items) => items,
        Err(f) => {
            return Err(f);
        },
    };
    if index >= items.len() as u64 {
        return Err(no_item());
    }
    let i: usize = index as usize;
    let item = &items[i];
    match &item.data.axis {
        TimeAxis::NonSequentialTimeSeries { timestamps } => {
            let descriptors = match emit_descriptors(&item.data.descriptors, w) {
                Ok(v) => v,
                Err(f) => {
                    return Err(f);
                },
            };
            Ok(
                NonSequentialOut {
                    timestamps: timestamps.clone(),
                    dtype_code: item.dtype_code(),
                    shape: copy_sizes(&item.data.array.shape),
                    bytes: item.data.array.bytes.clone(),
                    descriptors,
                },
            )
        },
        _ => Err(not_a(index, item.data.time_series_type(), "NonSequentialTimeSeries")),
    }
}

/// The windows, the lanes and the cube of a forecast as a caller gets them.
#[derive(Debug)]
pub struct ForecastData {
    pub initial_timestamp: i64,
    pub resolution: Option<String>,
    pub horizon: Option<String>,
    pub interval: Option<String>,
    pub count: usize,
    /// Nonzero only for scenarios.
    pub scenario_count: usize,
    pub shape: Vec<usize>,
    pub dtype_code: i32,
    pub bytes: Vec<u8>,
    /// As IEEE 754 bits, for a probabilistic forecast only.
    pub percentiles: Option<Vec<u64>>,
}

/// Whether an output is what a caller gets of a forecast.
pub open spec fn is_forecast_data(out: ForecastData, item: BulkItem) -> bool {
    let axis = item.data@.axis;
    let grid = grid_of_axis(axis);
    &&& out.initial_timestamp == grid.initial_timestamp
    &&& opt_text(out.resolution) == owned_text(grid.resolution.iso)
    &&& opt_text(out.horizon) == owned_text(grid.horizon.iso)
    &&& opt_text(out.interval) == owned_text(grid.interval.iso)
    &&& out.count == grid.count
    &&& out.scenario_count == (match axis {
        AxisView::Scenarios { scenario_count, .. } => scenario_count,
        _ => 0nat,
    })
    &&& out.shape@ == item.data@.array.shape
    &&& out.dtype_code == item.code()
    &&& out.bytes@ == item.data@.array.bytes
    &&& match axis {
        AxisView::Probabilistic { percentiles, .. } => out.percentiles matches Some(p) && p@
            == percentiles,
        _ => out.percentiles is None,
    }
}

/// What is said of a series that is no dense forecast.
pub open spec fn no_forecast(kind: TimeSeriesType) -> FailureView {
    said(
        INFRASTORE_ERR_INVALID_PARAMETER,
        "key identifies a "@ + kind.spelling()
            + " time series; use the matching read function"@,
    )
}

fn forecast_data(
    grid: &ForecastGrid,
    scenario_count: usize,
    percentiles: Option<Vec<u64>>,
    item: &BulkItem,
) -> (r: ForecastData)
    ensures
        r.initial_timestamp == grid.initial_timestamp,
        opt_text(r.resolution) == owned_text(grid@.resolution.iso),
        opt_text(r.horizon) == owned_text(grid@.horizon.iso),
        opt_text(r.interval) == owned_text(grid@.interval.iso),
        r.count == grid.count,
        r.scenario_count == scenario_count,
        r.shape@ == item.data@.array.shape,
        r.dtype_code == item.code(),
        r.bytes@ == item.data@.array.bytes,
        r.percentiles == percentiles,
{
    ForecastData {
        initial_timestamp: grid.initial_timestamp,
        resolution: period_cstr(&grid.resolution),
        horizon: period_cstr(&grid.horizon),
        interval: period_cstr(&grid.interval),
        count: grid.count,
        scenario_count,
        shape: copy_sizes(&item.data.array.shape),
        dtype_code: item.dtype_code(),
        bytes: item.data.array.bytes.clone(),
        percentiles,
    }
}

/// A forecast as a caller gets it, whichever kind it is.
pub fn emit_forecast_data(item: &BulkItem) -> (r: Result<ForecastData, Failure>)
    ensures
        match r {
            Ok(out) => item.data@.axis.kind().forecasts() && is_forecast_data(out, *item),
            Err(f) => !item.data@.axis.kind().forecasts() && f@ == no_forecast(
                item.data@.axis.kind(),
            ),
        },
{
    match &item.data.axis {
        TimeAxis::Deterministic { grid } => Ok(forecast_data(grid, 0, None, item)),
        TimeAxis::Probabilistic { grid, percentiles } => Ok(
            forecast_data(grid, 0, Some(percentiles.clone()), item),
        ),
        TimeAxis::Scenarios { grid, scenario_count } => Ok(
            forecast_data(grid, *scenario_count, None, item),
        ),
        other => {
            let mut message = "key identifies a ".to_string();
            message.append(other.time_series_type().as_str());
            message.append(" time series; use the matching read function");
            Err(fail(INFRASTORE_ERR_INVALID_PARAMETER, message))
        },
    }
}

/// A forecast and its descriptors as a caller gets them.
#[derive(Debug)]
pub struct ForecastOut {
    pub data: ForecastData,
    pub descriptors: DescriptorsOut,
}

/// What keeps an item from being read as a forecast.
pub open spec fn forecast_item_fault(items: Seq<BulkItem>, index: u64, w: Wanted) -> Option<
    FailureView,
> {
    if index >= items.len() {
        Some(out_of_bounds())
    } else if !items[index as int].data@.axis.kind().forecasts() {
        Some(
            said(
                INFRASTORE_ERR_INVALID_PARAMETER,
                "bulk-read item "@ + decimal_text(index as nat) + " is a "@
                    + items[index as int].data@.axis.kind().spelling() + ", not a forecast"@,
            ),
        )
    } else {
        descriptors_fault(items[index as int].data@.descriptors, w)
    }
}

/// A forecast of a bulk read, whichever kind it is.
pub fn infrastore_bulk_result_get_forecast(
    result: Option<&Vec<BulkItem>>,
    outs: bool,
    index: u64, w: Wanted) -> (r: Result<
    ForecastOut,
    Failure,
>)
    ensures
        match (
            r,
            handed_fault(result, outs, "an out pointer is null"@).or_next(
                forecast_item_fault(result->0@, index, w),
            ),
        ) {
            (Ok(out), None) => is_forecast_data(out.data, result->0@[index as int])
                && out.descriptors@ == descriptors_out(
                result->0@[index as int].data@.descriptors,
                w,
            ),
            (Err(f), Some(expected)) => f@ == expected,
            _ => false,
        },
{
    let items = match items_of(result, outs, "an out pointer is null") {
        Ok(items) => items,
        Err(f) => {
            return Err(f);
        },
    };
    if index >= items.len() as u64 {
        return Err(no_item());
    }
    let i: usize = index as usize;
    let item = &items[i];
    let kind = item.data.time_series_type();
    if !kind.is_forecast() {
        let mut message = "bulk-read item ".to_string();
        message.append(decimal(index).as_str());
        message.append(" is a ");
        message.append(kind.as_str());
        message.append(", not a forecast");
        return Err(fail(INFRASTORE_ERR_INVALID_PARAMETER, message));
    }
    let descriptors = match emit_descriptors(&item.data.descriptors, w) {
        Ok(v) => v,
        Err(f) => {
            return Err(f);
        },
    };
    match emit_forecast_data(item) {
        Ok(data) => Ok(ForecastOut { data, descriptors }),
        Err(f) => Err(f),
    }
}

/// A bulk read of `n` series has `n` items: every index below has the series' own type, and its
/// own name wherever a C string can hold it, and no index beyond has anything.
pub proof fn items_are_counted_from_zero(
    items: Vec<BulkItem>,
    index: u64,
    len: i64,
    name: Result<String, Failure>,
    kind: Result<i32, Failure>,
)
    requires
        items@.len() <= i64::MAX,
        call_ensures(infrastore_bulk_result_len, (Some(&items),), len),
        call_ensures(infrastore_bulk_result_item_name, (Some(&items), true, index), name),
        call_ensures(infrastore_bulk_result_item_type, (Some(&items), true, index), kind),
    ensures
        len == items@.len(),
        index < len <==> kind is Ok,
        name is Ok ==> index < len && name->Ok_0@ == items@[index as int].data.name@,
        index < len && unterminated(items@[index as int].data.name@) ==> name is Ok,
        index >= len ==> name->Err_0.code == INFRASTORE_ERR_INVALID_PARAMETER,
        index < len ==> kind->Ok_0 == items@[index as int].data@.axis.kind().number(),
{
    if index < len {
        crate::probe::zeros_are_found(
            vstd::utf8::encode_utf8(items@[index as int].data.name@),
            0,
        );
    }
}

} // verus!
