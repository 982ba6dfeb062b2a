//! What the calls of the C boundary check, one argument after the other, before they turn to
//! the store.
//!
//! A pointer or a handle argument is whether it is there. Each function hands back what the
//! call asks of the store, or the first argument that keeps it from asking.
use crate::arguments::{
    build_time_range, catalog_from_code, catalog_of, category_of, compression_from_code,
    compression_of, cstr_to_optional_period, extent_of, cstr_to_optional_string, optional_owner,
    optional_string_said, optional_text, optional_text_said, optional_type, owner_category,
    owner_guard, range_of, read_by_id_plan, read_optional, read_plan, required_forecast_type,
    required_text, required_text_said, required_type, text_argument, text_argument_said, typed,
    typed_forecast, typed_if, any_category_of, read_argument, Argument, CText, CatalogMode,
    Compression, ReadWindow, TimeRange,
};
use crate::filters::{
    as_listing, build_list_filter, given, build_typed_key_from_attrs, exact_identity_filter,
    filter_fault, identity_fault, is_filter_for, is_identity_for, owner_filter, owner_filter_fault,
    reader_filter, typed_identity_fault, FilterArguments, FilterView, IdentityArguments,
    ListFilter, ReaderArguments,
};
use crate::instant::{is_instant, unix_ms_to_datetime, Period};
use crate::kinds::{
    reference_view, OwnerCategory, TimeReference, TimeReferenceView, TimeSeriesType,
};
use crate::probe::{
    assoc_filter_from_json, assoc_rows_from_json, association_filter, association_rows,
    attachment_count, bad_count_text, bad_endpoint_text, bounds_text, edge_endpoint, index_within,
    owned_cstr, owned_text, period_cstr, period_output, transform_fault, transform_plan,
    AttachmentCount, Endpoint, TransformArguments, TransformPlan,
};
use crate::requests::{
    build_forecast_request, build_non_sequential_request, build_probabilistic_request,
    build_single_request, first_of, forecast_axis_of, forecast_request_fault, is_draft_for,
    is_request_for, non_sequential_head_fault, probabilistic_fault, single_fault, AddRequest,
    ForecastArguments, NonSequentialArguments, NonSequentialDraft, ProbabilisticArguments,
    SingleArguments,
};
use crate::series::{opt_text, AxisView, GridView};
use crate::status::{
    fail, fault_of, handle_fault, pointer_fault, require_handle, require_pointer, said, Checks,
    Failure, FailureView, INFRASTORE_ERR_INVALID_PARAMETER, INFRASTORE_ERR_NULL_POINTER,
};
use vstd::prelude::*;

verus! {

/// The ids a call names: none where it names none, whatever the pointer.
pub open spec fn ids_argument(n: u64, ids: Option<Vec<i64>>) -> Result<Seq<i64>, FailureView> {
    if n == 0 {
        Ok(seq![])
    } else {
        match ids {
            Some(v) => Ok(v@),
            None => Err(said(INFRASTORE_ERR_NULL_POINTER, "ids pointer is null"@)),
        }
    }
}

/// The ids a call names.
pub fn id_list(n: u64, ids: Option<Vec<i64>>) -> (r: Result<Vec<i64>, Failure>)
    ensures
        match (r, ids_argument(n, ids)) {
            (Ok(v), Ok(expected)) => v@ == expected,
            (Err(f), Err(expected)) => f@ == expected,
            _ => false,
        },
{
    if n == 0 {
        return Ok(Vec::new());
    }
    match ids {
        Some(v) => Ok(v),
        None => Err(fail(INFRASTORE_ERR_NULL_POINTER, "ids pointer is null".to_string())),
    }
}

/// The instant a reader is asked to read at.
pub open spec fn stamp_argument(ms: i64) -> Result<i64, FailureView> {
    if is_instant(ms as int) {
        Ok(ms)
    } else {
        Err(said(INFRASTORE_ERR_INVALID_PARAMETER, "timestamp out of range"@))
    }
}

fn instant_in_range(ms: i64) -> (r: Result<i64, Failure>)
    ensures
        match (r, stamp_argument(ms)) {
            (Ok(v), Ok(expected)) => v == expected,
            (Err(f), Err(expected)) => f@ == expected,
            _ => false,
        },
{
    match unix_ms_to_datetime(ms) {
        Some(at) => Ok(at),
        None => Err(fail(INFRASTORE_ERR_INVALID_PARAMETER, "timestamp out of range".to_string())),
    }
}

/// An index into a list of so many things.
pub open spec fn index_argument(what: Seq<char>, index: u64, length: usize) -> Result<
    usize,
    FailureView,
> {
    if index < length {
        Ok(index as usize)
    } else {
        Err(said(INFRASTORE_ERR_INVALID_PARAMETER, bounds_text(what, index)))
    }
}

/// What a count of attachments counts, by code.
pub open spec fn count_argument(kind: i32) -> Result<AttachmentCount, FailureView> {
    if kind == 0 {
        Ok(AttachmentCount::Rows)
    } else if kind == 1 {
        Ok(AttachmentCount::Attributes)
    } else if kind == 2 {
        Ok(AttachmentCount::Components)
    } else {
        Err(said(INFRASTORE_ERR_INVALID_PARAMETER, bad_count_text(kind)))
    }
}

/// One end of a parent-child edge, by code.
pub open spec fn endpoint_argument(endpoint: i32) -> Result<Endpoint, FailureView> {
    if endpoint == 0 {
        Ok(Endpoint::Parent)
    } else if endpoint == 1 {
        Ok(Endpoint::Child)
    } else {
        Err(said(INFRASTORE_ERR_INVALID_PARAMETER, bad_endpoint_text(endpoint)))
    }
}

/// The filter of an owner's series.
pub open spec fn is_owner_filter(
    filter: FilterView,
    owner_id: i64,
    category: i32,
    use_type: bool,
    ts_type: i32,
) -> bool {
    filter == (FilterView {
        owner_id: Some(owner_id),
        owner_category: Some(category_of(category)->Ok_0),
        time_series_type: given(use_type, typed(ts_type)->Ok_0),
        name: None,
        name_glob: None,
        resolution: None,
        interval: None,
        features: None,
        features_exact: false,
        component_field: None,
        zoneless: None,
    })
}

/// The transform that arguments describe.
pub open spec fn is_transform_for(plan: TransformPlan, a: TransformArguments) -> bool {
    plan == (TransformPlan {
        horizon: read_argument(a.horizon)->Ok_0,
        interval: read_argument(a.interval)->Ok_0,
        owner_category: any_category_of(a.owner_category)->Ok_0,
        resolution: read_optional(a.resolution)->Ok_0,
        dry_run: a.dry_run,
        normalize_single_window: a.normalize_single_window,
        require_uniform_forecast_grid: a.require_uniform_forecast_grid,
    })
}

/// The axis of a regular series that is added.
pub open spec fn single_axis_of(a: SingleArguments) -> AxisView {
    AxisView::SingleTimeSeries {
        initial_timestamp: a.initial_ts_unix_ms,
        resolution: read_argument(a.resolution)->Ok_0@,
        length: first_of(a.series.dims@) as nat,
    }
}

/// The axis of a probabilistic forecast that is added.
pub open spec fn probabilistic_axis_of(a: ProbabilisticArguments) -> AxisView {
    AxisView::Probabilistic {
        grid: GridView {
            initial_timestamp: a.initial_ts_unix_ms,
            resolution: read_argument(a.resolution)->Ok_0@,
            horizon: read_argument(a.horizon)->Ok_0@,
            interval: read_argument(a.interval)->Ok_0@,
            count: a.count as nat,
        },
        percentiles: a.percentiles->0@,
    }
}

// ---- Calls ----------------------------------------------------------------------------------

/// The path of a store to create, if it has one.
pub fn infrastore_store_create(
    out: bool,
    path: &CText,
) -> (r: Result<Option<String>, Failure>)
    ensures
        match (
            r,
            pointer_fault(out, "out pointer is null"@)
            .or_next(fault_of(optional_text_said(*path, "invalid path"@))),
        ) {
            (Ok(v), None) => opt_text(v) == optional_text_said(*path, "invalid path"@)->Ok_0,
            (Err(f), Some(expected)) => f@ == expected,
            _ => false,
        },
{
    match require_pointer(out, "out pointer is null") {
        Ok(_) => {},
        Err(f) => {
            return Err(f);
        },
    }
    let path: Option<String> = match optional_string_said(path, "invalid path") {
        Ok(v) => v,
        Err(f) => {
            return Err(f);
        },
    };
    Ok(path)
}

/// The path of a store to create, and how its arrays are compressed.
pub fn infrastore_store_create_with_compression(
    out: bool,
    path: &CText,
    kind: u8,
    level: u8,
    shuffle: bool,
) -> (r: Result<(Option<String>, Compression), Failure>)
    ensures
        match (
            r,
            pointer_fault(out, "out pointer is null"@)
            .or_next(fault_of(optional_text_said(*path, "invalid path"@)))
            .or_next(fault_of(compression_of(kind, level, shuffle))),
        ) {
            (Ok(v), None) => {
                let (v0, v1) = v;
                &&& opt_text(v0) == optional_text_said(*path, "invalid path"@)->Ok_0
                &&& v1 == compression_of(kind, level, shuffle)->Ok_0
            },
            (Err(f), Some(expected)) => f@ == expected,
            _ => false,
        },
{
    match require_pointer(out, "out pointer is null") {
        Ok(_) => {},
        Err(f) => {
            return Err(f);
        },
    }
    let path: Option<String> = match optional_string_said(path, "invalid path") {
        Ok(v) => v,
        Err(f) => {
            return Err(f);
        },
    };
    let compression: Compression = match compression_from_code(kind, level, shuffle) {
        Ok(v) => v,
        Err(f) => {
            return Err(f);
        },
    };
    Ok((path, compression))
}

/// The path of a store to create, how its arrays are compressed, and where its catalog lives.
pub fn infrastore_store_create_with_catalog(
    out: bool,
    path: &CText,
    kind: u8,
    level: u8,
    shuffle: bool,
    mode: u8,
) -> (r: Result<(Option<String>, Compression, CatalogMode), Failure>)
    ensures
        match (
            r,
            pointer_fault(out, "out pointer is null"@)
            .or_next(fault_of(optional_text_said(*path, "invalid path"@)))
            .or_next(fault_of(compression_of(kind, level, shuffle)))
            .or_next(fault_of(catalog_of(mode))),
        ) {
            (Ok(v), None) => {
                let (v0, v1, v2) = v;
                &&& opt_text(v0) == optional_text_said(*path, "invalid path"@)->Ok_0
                &&& v1 == compression_of(kind, level, shuffle)->Ok_0
                &&& v2 == catalog_of(mode)->Ok_0
            },
            (Err(f), Some(expected)) => f@ == expected,
            _ => false,
        },
{
    match require_pointer(out, "out pointer is null") {
        Ok(_) => {},
        Err(f) => {
            return Err(f);
        },
    }
    let path: Option<String> = match optional_string_said(path, "invalid path") {
        Ok(v) => v,
        Err(f) => {
            return Err(f);
        },
    };
    let compression: Compression = match compression_from_code(kind, level, shuffle) {
        Ok(v) => v,
        Err(f) => {
            return Err(f);
        },
    };
    let catalog: CatalogMode = match catalog_from_code(mode) {
        Ok(v) => v,
        Err(f) => {
            return Err(f);
        },
    };
    Ok((path, compression, catalog))
}

/// The path of a store to create in place of whatever is there.
pub fn infrastore_store_create_replacing(
    out: bool,
    path: &CText,
    kind: u8,
    level: u8,
    shuffle: bool,
    mode: u8,
) -> (r: Result<(String, Compression, CatalogMode), Failure>)
    ensures
        match (
            r,
            pointer_fault(out, "out pointer is null"@)
            .or_next(fault_of(text_argument_said(*path, "invalid path string"@)))
            .or_next(fault_of(compression_of(kind, level, shuffle)))
            .or_next(fault_of(catalog_of(mode))),
        ) {
            (Ok(v), None) => {
                let (v0, v1, v2) = v;
                &&& v0@ == text_argument_said(*path, "invalid path string"@)->Ok_0
                &&& v1 == compression_of(kind, level, shuffle)->Ok_0
                &&& v2 == catalog_of(mode)->Ok_0
            },
            (Err(f), Some(expected)) => f@ == expected,
            _ => false,
        },
{
    match require_pointer(out, "out pointer is null") {
        Ok(_) => {},
        Err(f) => {
            return Err(f);
        },
    }
    let path: String = match required_text_said(path, "invalid path string") {
        Ok(v) => v,
        Err(f) => {
            return Err(f);
        },
    };
    let compression: Compression = match compression_from_code(kind, level, shuffle) {
        Ok(v) => v,
        Err(f) => {
            return Err(f);
        },
    };
    let catalog: CatalogMode = match catalog_from_code(mode) {
        Ok(v) => v,
        Err(f) => {
            return Err(f);
        },
    };
    Ok((path, compression, catalog))
}

/// The path of a store to open.
pub fn infrastore_store_open(
    out: bool,
    path: &CText,
) -> (r: Result<String, Failure>)
    ensures
        match (
            r,
            pointer_fault(out, "out pointer is null"@)
            .or_next(fault_of(text_argument_said(*path, "invalid path string"@))),
        ) {
            (Ok(v), None) => v@ == text_argument_said(*path, "invalid path string"@)->Ok_0,
            (Err(f), Some(expected)) => f@ == expected,
            _ => false,
        },
{
    match require_pointer(out, "out pointer is null") {
        Ok(_) => {},
        Err(f) => {
            return Err(f);
        },
    }
    let path: String = match required_text_said(path, "invalid path string") {
        Ok(v) => v,
        Err(f) => {
            return Err(f);
        },
    };
    Ok(path)
}

/// The path of a store to open, and where its catalog is to live.
pub fn infrastore_store_open_with_catalog(
    out: bool,
    path: &CText,
    mode: u8,
) -> (r: Result<(String, CatalogMode), Failure>)
    ensures
        match (
            r,
            pointer_fault(out, "out pointer is null"@)
            .or_next(fault_of(text_argument_said(*path, "invalid path string"@)))
            .or_next(fault_of(catalog_of(mode))),
        ) {
            (Ok(v), None) => {
                let (v0, v1) = v;
                &&& v0@ == text_argument_said(*path, "invalid path string"@)->Ok_0
                &&& v1 == catalog_of(mode)->Ok_0
            },
            (Err(f), Some(expected)) => f@ == expected,
            _ => false,
        },
{
    match require_pointer(out, "out pointer is null") {
        Ok(_) => {},
        Err(f) => {
            return Err(f);
        },
    }
    let path: String = match required_text_said(path, "invalid path string") {
        Ok(v) => v,
        Err(f) => {
            return Err(f);
        },
    };
    let catalog: CatalogMode = match catalog_from_code(mode) {
        Ok(v) => v,
        Err(f) => {
            return Err(f);
        },
    };
    Ok((path, catalog))
}

/// The path of a store to open without the catalog it has, and where the new one is to live.
pub fn infrastore_store_open_without_catalog(
    out: bool,
    path: &CText,
    mode: u8,
) -> (r: Result<(String, CatalogMode), Failure>)
    ensures
        match (
            r,
            pointer_fault(out, "out pointer is null"@)
            .or_next(fault_of(text_argument_said(*path, "invalid path string"@)))
            .or_next(fault_of(catalog_of(mode))),
        ) {
            (Ok(v), None) => {
                let (v0, v1) = v;
                &&& v0@ == text_argument_said(*path, "invalid path string"@)->Ok_0
                &&& v1 == catalog_of(mode)->Ok_0
            },
            (Err(f), Some(expected)) => f@ == expected,
            _ => false,
        },
{
    match require_pointer(out, "out pointer is null") {
        Ok(_) => {},
        Err(f) => {
            return Err(f);
        },
    }
    let path: String = match required_text_said(path, "invalid path string") {
        Ok(v) => v,
        Err(f) => {
            return Err(f);
        },
    };
    let catalog: CatalogMode = match catalog_from_code(mode) {
        Ok(v) => v,
        Err(f) => {
            return Err(f);
        },
    };
    Ok((path, catalog))
}

/// The paths of a store to copy, from and to, and where the catalog of the copy is to live.
pub fn infrastore_store_open_copy(
    out: bool,
    src: &CText,
    dest: &CText,
    mode: u8,
) -> (r: Result<(String, String, CatalogMode), Failure>)
    ensures
        match (
            r,
            pointer_fault(out, "out pointer is null"@)
            .or_next(fault_of(text_argument_said(*src, "invalid src path string"@)))
            .or_next(fault_of(text_argument_said(*dest, "invalid dest path string"@)))
            .or_next(fault_of(catalog_of(mode))),
        ) {
            (Ok(v), None) => {
                let (v0, v1, v2) = v;
                &&& v0@ == text_argument_said(*src, "invalid src path string"@)->Ok_0
                &&& v1@ == text_argument_said(*dest, "invalid dest path string"@)->Ok_0
                &&& v2 == catalog_of(mode)->Ok_0
            },
            (Err(f), Some(expected)) => f@ == expected,
            _ => false,
        },
{
    match require_pointer(out, "out pointer is null") {
        Ok(_) => {},
        Err(f) => {
            return Err(f);
        },
    }
    let src: String = match required_text_said(src, "invalid src path string") {
        Ok(v) => v,
        Err(f) => {
            return Err(f);
        },
    };
    let dest: String = match required_text_said(dest, "invalid dest path string") {
        Ok(v) => v,
        Err(f) => {
            return Err(f);
        },
    };
    let catalog: CatalogMode = match catalog_from_code(mode) {
        Ok(v) => v,
        Err(f) => {
            return Err(f);
        },
    };
    Ok((src, dest, catalog))
}

/// Whether a store can be asked where its catalog lives.
pub fn infrastore_store_catalog_mode(
    out: bool,
    handle: bool,
) -> (r: Result<(), Failure>)
    ensures
        match (
            r,
            pointer_fault(out, "out pointer is null"@)
            .or_next(pointer_fault(handle, "store handle is null"@)),
        ) {
            (Ok(_), None) => true,
            (Err(f), Some(expected)) => f@ == expected,
            _ => false,
        },
{
    match require_pointer(out, "out pointer is null") {
        Ok(_) => {},
        Err(f) => {
            return Err(f);
        },
    }
    match require_pointer(handle, "store handle is null") {
        Ok(_) => {},
        Err(f) => {
            return Err(f);
        },
    }
    Ok(())
}

/// The path to write a store to.
pub fn infrastore_store_persist(
    handle: bool,
    path: &CText,
) -> (r: Result<String, Failure>)
    ensures
        match (
            r,
            handle_fault(handle)
            .or_next(fault_of(text_argument_said(*path, "invalid path string"@))),
        ) {
            (Ok(v), None) => v@ == text_argument_said(*path, "invalid path string"@)->Ok_0,
            (Err(f), Some(expected)) => f@ == expected,
            _ => false,
        },
{
    match require_handle(handle) {
        Ok(_) => {},
        Err(f) => {
            return Err(f);
        },
    }
    let path: String = match required_text_said(path, "invalid path string") {
        Ok(v) => v,
        Err(f) => {
            return Err(f);
        },
    };
    Ok(path)
}

/// The path to write a store's arrays to.
pub fn infrastore_store_persist_arrays(
    handle: bool,
    path: &CText,
) -> (r: Result<String, Failure>)
    ensures
        match (
            r,
            handle_fault(handle)
            .or_next(fault_of(text_argument_said(*path, "invalid path string"@))),
        ) {
            (Ok(v), None) => v@ == text_argument_said(*path, "invalid path string"@)->Ok_0,
            (Err(f), Some(expected)) => f@ == expected,
            _ => false,
        },
{
    match require_handle(handle) {
        Ok(_) => {},
        Err(f) => {
            return Err(f);
        },
    }
    let path: String = match required_text_said(path, "invalid path string") {
        Ok(v) => v,
        Err(f) => {
            return Err(f);
        },
    };
    Ok(path)
}

/// The rows to remove, and the owner they must have, if they must have one.
pub fn infrastore_store_remove_by_ids(
    handle: bool,
    out_removed: bool,
    n: u64,
    ids: Option<Vec<i64>>,
    has_owner: bool,
    owner_id: i64,
    category: i32,
) -> (r: Result<(Vec<i64>, Option<(i64, OwnerCategory)>), Failure>)
    ensures
        match (
            r,
            handle_fault(handle)
            .or_next(pointer_fault(out_removed, "out_removed pointer is null"@))
            .or_next(fault_of(ids_argument(n, ids)))
            .or_next(fault_of(owner_guard(has_owner, owner_id, category))),
        ) {
            (Ok(v), None) => {
                let (v0, v1) = v;
                &&& v0@ == ids_argument(n, ids)->Ok_0
                &&& v1 == owner_guard(has_owner, owner_id, category)->Ok_0
            },
            (Err(f), Some(expected)) => f@ == expected,
            _ => false,
        },
{
    match require_handle(handle) {
        Ok(_) => {},
        Err(f) => {
            return Err(f);
        },
    }
    match require_pointer(out_removed, "out_removed pointer is null") {
        Ok(_) => {},
        Err(f) => {
            return Err(f);
        },
    }
    let list: Vec<i64> = match id_list(n, ids) {
        Ok(v) => v,
        Err(f) => {
            return Err(f);
        },
    };
    let owner: Option<(i64, OwnerCategory)> = match optional_owner(has_owner, owner_id, category) {
        Ok(v) => v,
        Err(f) => {
            return Err(f);
        },
    };
    Ok((list, owner))
}

/// The rows to read.
pub fn infrastore_store_read_by_ids(
    handle: bool,
    out_result: bool,
    n: u64,
    ids: Option<Vec<i64>>,
) -> (r: Result<Vec<i64>, Failure>)
    ensures
        match (
            r,
            handle_fault(handle)
            .or_next(pointer_fault(out_result, "out_result pointer is null"@))
            .or_next(fault_of(ids_argument(n, ids))),
        ) {
            (Ok(v), None) => v@ == ids_argument(n, ids)->Ok_0,
            (Err(f), Some(expected)) => f@ == expected,
            _ => false,
        },
{
    match require_handle(handle) {
        Ok(_) => {},
        Err(f) => {
            return Err(f);
        },
    }
    match require_pointer(out_result, "out_result pointer is null") {
        Ok(_) => {},
        Err(f) => {
            return Err(f);
        },
    }
    let list: Vec<i64> = match id_list(n, ids) {
        Ok(v) => v,
        Err(f) => {
            return Err(f);
        },
    };
    Ok(list)
}

/// The rows to read, and the range to read of each.
pub fn infrastore_store_read_by_ids_range(
    handle: bool,
    out_result: bool,
    n: u64,
    ids: Option<Vec<i64>>,
    zoneless: bool,
    start_ms: i64,
    end_ms: i64,
) -> (r: Result<(Vec<i64>, Option<TimeRange>), Failure>)
    ensures
        match (
            r,
            handle_fault(handle)
            .or_next(pointer_fault(out_result, "out_result pointer is null"@))
            .or_next(fault_of(ids_argument(n, ids)))
            .or_next(fault_of(range_of(true, zoneless, start_ms, end_ms))),
        ) {
            (Ok(v), None) => {
                let (v0, v1) = v;
                &&& v0@ == ids_argument(n, ids)->Ok_0
                &&& v1 == range_of(true, zoneless, start_ms, end_ms)->Ok_0
            },
            (Err(f), Some(expected)) => f@ == expected,
            _ => false,
        },
{
    match require_handle(handle) {
        Ok(_) => {},
        Err(f) => {
            return Err(f);
        },
    }
    match require_pointer(out_result, "out_result pointer is null") {
        Ok(_) => {},
        Err(f) => {
            return Err(f);
        },
    }
    let list: Vec<i64> = match id_list(n, ids) {
        Ok(v) => v,
        Err(f) => {
            return Err(f);
        },
    };
    let range: Option<TimeRange> = match build_time_range(true, zoneless, start_ms, end_ms) {
        Ok(v) => v,
        Err(f) => {
            return Err(f);
        },
    };
    Ok((list, range))
}

/// The rows to list.
pub fn infrastore_store_list_metadata_by_ids(
    handle: bool,
    outs: bool,
    n: u64,
    ids: Option<Vec<i64>>,
) -> (r: Result<Vec<i64>, Failure>)
    ensures
        match (
            r,
            handle_fault(handle)
            .or_next(pointer_fault(outs, "a required pointer is null"@))
            .or_next(fault_of(ids_argument(n, ids))),
        ) {
            (Ok(v), None) => v@ == ids_argument(n, ids)->Ok_0,
            (Err(f), Some(expected)) => f@ == expected,
            _ => false,
        },
{
    match require_handle(handle) {
        Ok(_) => {},
        Err(f) => {
            return Err(f);
        },
    }
    match require_pointer(outs, "a required pointer is null") {
        Ok(_) => {},
        Err(f) => {
            return Err(f);
        },
    }
    let list: Vec<i64> = match id_list(n, ids) {
        Ok(v) => v,
        Err(f) => {
            return Err(f);
        },
    };
    Ok(list)
}

/// The resolution and the interval that the forecasts asked about must have, if they must have
/// any.
pub fn infrastore_store_get_forecast_parameters(
    handle: bool,
    outs: bool,
    resolution: Argument<Period>,
    interval: Argument<Period>,
) -> (r: Result<(Option<Period>, Option<Period>), Failure>)
    ensures
        match (
            r,
            handle_fault(handle)
            .or_next(handle_fault(outs))
            .or_next(fault_of(read_optional(resolution)))
            .or_next(fault_of(read_optional(interval))),
        ) {
            (Ok(v), None) => {
                let (v0, v1) = v;
                &&& v0 == read_optional(resolution)->Ok_0
                &&& v1 == read_optional(interval)->Ok_0
            },
            (Err(f), Some(expected)) => f@ == expected,
            _ => false,
        },
{
    match require_handle(handle) {
        Ok(_) => {},
        Err(f) => {
            return Err(f);
        },
    }
    match require_handle(outs) {
        Ok(_) => {},
        Err(f) => {
            return Err(f);
        },
    }
    let resolution: Option<Period> = match cstr_to_optional_period(resolution) {
        Ok(v) => v,
        Err(f) => {
            return Err(f);
        },
    };
    let interval: Option<Period> = match cstr_to_optional_period(interval) {
        Ok(v) => v,
        Err(f) => {
            return Err(f);
        },
    };
    Ok((resolution, interval))
}

/// The resolution that the series asked about must have, if they must have one.
pub fn infrastore_store_check_static_consistency(
    handle: bool,
    out_len: bool,
    resolution: Argument<Period>,
) -> (r: Result<Option<Period>, Failure>)
    ensures
        match (
            r,
            handle_fault(handle)
            .or_next(pointer_fault(out_len, "out_len is null"@))
            .or_next(fault_of(read_optional(resolution))),
        ) {
            (Ok(v), None) => v == read_optional(resolution)->Ok_0,
            (Err(f), Some(expected)) => f@ == expected,
            _ => false,
        },
{
    match require_handle(handle) {
        Ok(_) => {},
        Err(f) => {
            return Err(f);
        },
    }
    match require_pointer(out_len, "out_len is null") {
        Ok(_) => {},
        Err(f) => {
            return Err(f);
        },
    }
    let resolution: Option<Period> = match cstr_to_optional_period(resolution) {
        Ok(v) => v,
        Err(f) => {
            return Err(f);
        },
    };
    Ok(resolution)
}

/// The type that the series asked about must have, if they must have one.
pub fn infrastore_store_get_resolutions(
    handle: bool,
    out_len: bool,
    named: bool,
    code: i32,
) -> (r: Result<Option<TimeSeriesType>, Failure>)
    ensures
        match (
            r,
            handle_fault(handle)
            .or_next(pointer_fault(out_len, "out_len is null"@))
            .or_next(fault_of(typed_if(named, code))),
        ) {
            (Ok(v), None) => v == typed_if(named, code)->Ok_0,
            (Err(f), Some(expected)) => f@ == expected,
            _ => false,
        },
{
    match require_handle(handle) {
        Ok(_) => {},
        Err(f) => {
            return Err(f);
        },
    }
    match require_pointer(out_len, "out_len is null") {
        Ok(_) => {},
        Err(f) => {
            return Err(f);
        },
    }
    let kind: Option<TimeSeriesType> = match optional_type(named, code) {
        Ok(v) => v,
        Err(f) => {
            return Err(f);
        },
    };
    Ok(kind)
}

/// The type that the series asked about must have, if they must have one.
pub fn infrastore_store_get_intervals(
    handle: bool,
    out_len: bool,
    named: bool,
    code: i32,
) -> (r: Result<Option<TimeSeriesType>, Failure>)
    ensures
        match (
            r,
            handle_fault(handle)
            .or_next(pointer_fault(out_len, "out_len is null"@))
            .or_next(fault_of(typed_if(named, code))),
        ) {
            (Ok(v), None) => v == typed_if(named, code)->Ok_0,
            (Err(f), Some(expected)) => f@ == expected,
            _ => false,
        },
{
    match require_handle(handle) {
        Ok(_) => {},
        Err(f) => {
            return Err(f);
        },
    }
    match require_pointer(out_len, "out_len is null") {
        Ok(_) => {},
        Err(f) => {
            return Err(f);
        },
    }
    let kind: Option<TimeSeriesType> = match optional_type(named, code) {
        Ok(v) => v,
        Err(f) => {
            return Err(f);
        },
    };
    Ok(kind)
}

/// Whose owners to list: of what category, with series of what type and resolution.
pub fn infrastore_store_list_owner_ids(
    handle: bool,
    out_len: bool,
    category: i32,
    named: bool,
    code: i32,
    resolution: Argument<Period>,
) -> (r: Result<(OwnerCategory, Option<TimeSeriesType>, Option<Period>), Failure>)
    ensures
        match (
            r,
            handle_fault(handle)
            .or_next(pointer_fault(out_len, "out_len is null"@))
            .or_next(fault_of(category_of(category)))
            .or_next(fault_of(typed_if(named, code)))
            .or_next(fault_of(read_optional(resolution))),
        ) {
            (Ok(v), None) => {
                let (v0, v1, v2) = v;
                &&& v0 == category_of(category)->Ok_0
                &&& v1 == typed_if(named, code)->Ok_0
                &&& v2 == read_optional(resolution)->Ok_0
            },
            (Err(f), Some(expected)) => f@ == expected,
            _ => false,
        },
{
    match require_handle(handle) {
        Ok(_) => {},
        Err(f) => {
            return Err(f);
        },
    }
    match require_pointer(out_len, "out_len is null") {
        Ok(_) => {},
        Err(f) => {
            return Err(f);
        },
    }
    let category: OwnerCategory = match owner_category(category) {
        Ok(v) => v,
        Err(f) => {
            return Err(f);
        },
    };
    let kind: Option<TimeSeriesType> = match optional_type(named, code) {
        Ok(v) => v,
        Err(f) => {
            return Err(f);
        },
    };
    let resolution: Option<Period> = match cstr_to_optional_period(resolution) {
        Ok(v) => v,
        Err(f) => {
            return Err(f);
        },
    };
    Ok((category, kind, resolution))
}

/// The type of the owner to copy a series to, and what to call the copy, if anything else.
pub fn infrastore_store_copy_time_series(
    handle: bool,
    owner_type: &CText,
    new_name: &CText,
) -> (r: Result<(String, Option<String>), Failure>)
    ensures
        match (
            r,
            handle_fault(handle)
            .or_next(fault_of(text_argument(*owner_type)))
            .or_next(fault_of(optional_text(*new_name))),
        ) {
            (Ok(v), None) => {
                let (v0, v1) = v;
                &&& v0@ == text_argument(*owner_type)->Ok_0
                &&& opt_text(v1) == optional_text(*new_name)->Ok_0
            },
            (Err(f), Some(expected)) => f@ == expected,
            _ => false,
        },
{
    match require_handle(handle) {
        Ok(_) => {},
        Err(f) => {
            return Err(f);
        },
    }
    let owner_type: String = match required_text(owner_type) {
        Ok(v) => v,
        Err(f) => {
            return Err(f);
        },
    };
    let new_name: Option<String> = match cstr_to_optional_string(new_name) {
        Ok(v) => v,
        Err(f) => {
            return Err(f);
        },
    };
    Ok((owner_type, new_name))
}

/// The new name of a series.
pub fn infrastore_store_rename(
    handle: bool,
    new_name: &CText,
) -> (r: Result<String, Failure>)
    ensures
        match (
            r,
            handle_fault(handle)
            .or_next(fault_of(text_argument(*new_name))),
        ) {
            (Ok(v), None) => v@ == text_argument(*new_name)->Ok_0,
            (Err(f), Some(expected)) => f@ == expected,
            _ => false,
        },
{
    match require_handle(handle) {
        Ok(_) => {},
        Err(f) => {
            return Err(f);
        },
    }
    let new_name: String = match required_text(new_name) {
        Ok(v) => v,
        Err(f) => {
            return Err(f);
        },
    };
    Ok(new_name)
}

/// The owner whose series to remove, if not all are to be removed.
pub fn infrastore_store_clear(
    handle: bool,
    has_owner: bool,
    owner_id: i64,
    category: i32,
) -> (r: Result<Option<(i64, OwnerCategory)>, Failure>)
    ensures
        match (
            r,
            handle_fault(handle)
            .or_next(fault_of(owner_guard(has_owner, owner_id, category))),
        ) {
            (Ok(v), None) => v == owner_guard(has_owner, owner_id, category)->Ok_0,
            (Err(f), Some(expected)) => f@ == expected,
            _ => false,
        },
{
    match require_handle(handle) {
        Ok(_) => {},
        Err(f) => {
            return Err(f);
        },
    }
    let owner: Option<(i64, OwnerCategory)> = match optional_owner(has_owner, owner_id, category) {
        Ok(v) => v,
        Err(f) => {
            return Err(f);
        },
    };
    Ok(owner)
}

/// The category of the owners that change places.
pub fn infrastore_store_replace_owner(
    handle: bool,
    category: i32,
) -> (r: Result<OwnerCategory, Failure>)
    ensures
        match (
            r,
            handle_fault(handle)
            .or_next(fault_of(category_of(category))),
        ) {
            (Ok(v), None) => v == category_of(category)->Ok_0,
            (Err(f), Some(expected)) => f@ == expected,
            _ => false,
        },
{
    match require_handle(handle) {
        Ok(_) => {},
        Err(f) => {
            return Err(f);
        },
    }
    let category: OwnerCategory = match owner_category(category) {
        Ok(v) => v,
        Err(f) => {
            return Err(f);
        },
    };
    Ok(category)
}

/// The types of the component and of the attribute that are attached.
pub fn infrastore_store_add_supplemental_attribute_association(
    handle: bool,
    component_type: &CText,
    attribute_type: &CText,
) -> (r: Result<(String, String), Failure>)
    ensures
        match (
            r,
            handle_fault(handle)
            .or_next(fault_of(text_argument(*component_type)))
            .or_next(fault_of(text_argument(*attribute_type))),
        ) {
            (Ok(v), None) => {
                let (v0, v1) = v;
                &&& v0@ == text_argument(*component_type)->Ok_0
                &&& v1@ == text_argument(*attribute_type)->Ok_0
            },
            (Err(f), Some(expected)) => f@ == expected,
            _ => false,
        },
{
    match require_handle(handle) {
        Ok(_) => {},
        Err(f) => {
            return Err(f);
        },
    }
    let component_type: String = match required_text(component_type) {
        Ok(v) => v,
        Err(f) => {
            return Err(f);
        },
    };
    let attribute_type: String = match required_text(attribute_type) {
        Ok(v) => v,
        Err(f) => {
            return Err(f);
        },
    };
    Ok((component_type, attribute_type))
}

/// The types of the parent and of the child that are joined.
pub fn infrastore_store_add_parent_child_association(
    handle: bool,
    parent_type: &CText,
    child_type: &CText,
) -> (r: Result<(String, String), Failure>)
    ensures
        match (
            r,
            handle_fault(handle)
            .or_next(fault_of(text_argument(*parent_type)))
            .or_next(fault_of(text_argument(*child_type))),
        ) {
            (Ok(v), None) => {
                let (v0, v1) = v;
                &&& v0@ == text_argument(*parent_type)->Ok_0
                &&& v1@ == text_argument(*child_type)->Ok_0
            },
            (Err(f), Some(expected)) => f@ == expected,
            _ => false,
        },
{
    match require_handle(handle) {
        Ok(_) => {},
        Err(f) => {
            return Err(f);
        },
    }
    let parent_type: String = match required_text(parent_type) {
        Ok(v) => v,
        Err(f) => {
            return Err(f);
        },
    };
    let child_type: String = match required_text(child_type) {
        Ok(v) => v,
        Err(f) => {
            return Err(f);
        },
    };
    Ok((parent_type, child_type))
}

/// The filter an attachment must match, if it must match one.
pub fn infrastore_store_has_supplemental_attribute_association<T>(
    handle: bool,
    out_found: bool,
    filter: Argument<T>,
) -> (r: Result<Option<T>, Failure>)
    ensures
        match (
            r,
            handle_fault(handle)
            .or_next(pointer_fault(out_found, "out_found is null"@))
            .or_next(fault_of(association_filter(filter))),
        ) {
            (Ok(v), None) => v == association_filter(filter)->Ok_0,
            (Err(f), Some(expected)) => f@ == expected,
            _ => false,
        },
{
    match require_handle(handle) {
        Ok(_) => {},
        Err(f) => {
            return Err(f);
        },
    }
    match require_pointer(out_found, "out_found is null") {
        Ok(_) => {},
        Err(f) => {
            return Err(f);
        },
    }
    let filter: Option<T> = match assoc_filter_from_json(filter) {
        Ok(v) => v,
        Err(f) => {
            return Err(f);
        },
    };
    Ok(filter)
}

/// The filter attachments must match, if they must match one.
pub fn infrastore_store_list_supplemental_attribute_associations<T>(
    handle: bool,
    outs: bool,
    filter: Argument<T>,
) -> (r: Result<Option<T>, Failure>)
    ensures
        match (
            r,
            handle_fault(handle)
            .or_next(pointer_fault(outs, "a required pointer is null"@))
            .or_next(fault_of(association_filter(filter))),
        ) {
            (Ok(v), None) => v == association_filter(filter)->Ok_0,
            (Err(f), Some(expected)) => f@ == expected,
            _ => false,
        },
{
    match require_handle(handle) {
        Ok(_) => {},
        Err(f) => {
            return Err(f);
        },
    }
    match require_pointer(outs, "a required pointer is null") {
        Ok(_) => {},
        Err(f) => {
            return Err(f);
        },
    }
    let filter: Option<T> = match assoc_filter_from_json(filter) {
        Ok(v) => v,
        Err(f) => {
            return Err(f);
        },
    };
    Ok(filter)
}

/// The filter the attachments of attributes must match, if they must match one.
pub fn infrastore_store_list_supplemental_attribute_ids<T>(
    handle: bool,
    out_len: bool,
    filter: Argument<T>,
) -> (r: Result<Option<T>, Failure>)
    ensures
        match (
            r,
            handle_fault(handle)
            .or_next(pointer_fault(out_len, "out_len is null"@))
            .or_next(fault_of(association_filter(filter))),
        ) {
            (Ok(v), None) => v == association_filter(filter)->Ok_0,
            (Err(f), Some(expected)) => f@ == expected,
            _ => false,
        },
{
    match require_handle(handle) {
        Ok(_) => {},
        Err(f) => {
            return Err(f);
        },
    }
    match require_pointer(out_len, "out_len is null") {
        Ok(_) => {},
        Err(f) => {
            return Err(f);
        },
    }
    let filter: Option<T> = match assoc_filter_from_json(filter) {
        Ok(v) => v,
        Err(f) => {
            return Err(f);
        },
    };
    Ok(filter)
}

/// The filter the attachments of components must match, if they must match one.
pub fn infrastore_store_list_components_with_attributes<T>(
    handle: bool,
    out_len: bool,
    filter: Argument<T>,
) -> (r: Result<Option<T>, Failure>)
    ensures
        match (
            r,
            handle_fault(handle)
            .or_next(pointer_fault(out_len, "out_len is null"@))
            .or_next(fault_of(association_filter(filter))),
        ) {
            (Ok(v), None) => v == association_filter(filter)->Ok_0,
            (Err(f), Some(expected)) => f@ == expected,
            _ => false,
        },
{
    match require_handle(handle) {
        Ok(_) => {},
        Err(f) => {
            return Err(f);
        },
    }
    match require_pointer(out_len, "out_len is null") {
        Ok(_) => {},
        Err(f) => {
            return Err(f);
        },
    }
    let filter: Option<T> = match assoc_filter_from_json(filter) {
        Ok(v) => v,
        Err(f) => {
            return Err(f);
        },
    };
    Ok(filter)
}

/// The filter attachments that go must match: all of them, where there is none.
pub fn infrastore_store_remove_supplemental_attribute_associations<T>(
    handle: bool,
    filter: Argument<T>,
) -> (r: Result<Option<T>, Failure>)
    ensures
        match (
            r,
            handle_fault(handle)
            .or_next(fault_of(association_filter(filter))),
        ) {
            (Ok(v), None) => v == association_filter(filter)->Ok_0,
            (Err(f), Some(expected)) => f@ == expected,
            _ => false,
        },
{
    match require_handle(handle) {
        Ok(_) => {},
        Err(f) => {
            return Err(f);
        },
    }
    let filter: Option<T> = match assoc_filter_from_json(filter) {
        Ok(v) => v,
        Err(f) => {
            return Err(f);
        },
    };
    Ok(filter)
}

/// The filter attachments must match, if they must match one, and what is counted of them.
pub fn infrastore_store_count_supplemental_attribute_associations<T>(
    handle: bool,
    out_count: bool,
    filter: Argument<T>,
    kind: i32,
) -> (r: Result<(Option<T>, AttachmentCount), Failure>)
    ensures
        match (
            r,
            handle_fault(handle)
            .or_next(pointer_fault(out_count, "out_count is null"@))
            .or_next(fault_of(association_filter(filter)))
            .or_next(fault_of(count_argument(kind))),
        ) {
            (Ok(v), None) => v.0 == association_filter(filter)->Ok_0 && v.1 == count_argument(
                kind,
            )->Ok_0,
            (Err(f), Some(expected)) => f@ == expected,
            _ => false,
        },
{
    match require_handle(handle) {
        Ok(_) => {},
        Err(f) => {
            return Err(f);
        },
    }
    match require_pointer(out_count, "out_count is null") {
        Ok(_) => {},
        Err(f) => {
            return Err(f);
        },
    }
    let filter: Option<T> = match assoc_filter_from_json(filter) {
        Ok(v) => v,
        Err(f) => {
            return Err(f);
        },
    };
    let counted: AttachmentCount = match attachment_count(kind) {
        Ok(v) => v,
        Err(f) => {
            return Err(f);
        },
    };
    Ok((filter, counted))
}

/// The attachments to add, all or none of them.
pub fn infrastore_store_add_supplemental_attribute_associations<T>(
    handle: bool,
    rows: Argument<Vec<T>>,
) -> (r: Result<Vec<T>, Failure>)
    ensures
        match (
            r,
            handle_fault(handle)
            .or_next(fault_of(association_rows(rows))),
        ) {
            (Ok(v), None) => v == association_rows(rows)->Ok_0,
            (Err(f), Some(expected)) => f@ == expected,
            _ => false,
        },
{
    match require_handle(handle) {
        Ok(_) => {},
        Err(f) => {
            return Err(f);
        },
    }
    let rows: Vec<T> = match assoc_rows_from_json(rows) {
        Ok(v) => v,
        Err(f) => {
            return Err(f);
        },
    };
    Ok(rows)
}

/// The edges to add, all or none of them.
pub fn infrastore_store_add_parent_child_associations<T>(
    handle: bool,
    rows: Argument<Vec<T>>,
) -> (r: Result<Vec<T>, Failure>)
    ensures
        match (
            r,
            handle_fault(handle)
            .or_next(fault_of(association_rows(rows))),
        ) {
            (Ok(v), None) => v == association_rows(rows)->Ok_0,
            (Err(f), Some(expected)) => f@ == expected,
            _ => false,
        },
{
    match require_handle(handle) {
        Ok(_) => {},
        Err(f) => {
            return Err(f);
        },
    }
    let rows: Vec<T> = match assoc_rows_from_json(rows) {
        Ok(v) => v,
        Err(f) => {
            return Err(f);
        },
    };
    Ok(rows)
}

/// The filter an edge must match, if it must match one.
pub fn infrastore_store_has_parent_child_association<T>(
    handle: bool,
    out_found: bool,
    filter: Argument<T>,
) -> (r: Result<Option<T>, Failure>)
    ensures
        match (
            r,
            handle_fault(handle)
            .or_next(pointer_fault(out_found, "out_found is null"@))
            .or_next(fault_of(association_filter(filter))),
        ) {
            (Ok(v), None) => v == association_filter(filter)->Ok_0,
            (Err(f), Some(expected)) => f@ == expected,
            _ => false,
        },
{
    match require_handle(handle) {
        Ok(_) => {},
        Err(f) => {
            return Err(f);
        },
    }
    match require_pointer(out_found, "out_found is null") {
        Ok(_) => {},
        Err(f) => {
            return Err(f);
        },
    }
    let filter: Option<T> = match assoc_filter_from_json(filter) {
        Ok(v) => v,
        Err(f) => {
            return Err(f);
        },
    };
    Ok(filter)
}

/// The filter edges must match, if they must match one.
pub fn infrastore_store_list_parent_child_associations<T>(
    handle: bool,
    out_len: bool,
    filter: Argument<T>,
) -> (r: Result<Option<T>, Failure>)
    ensures
        match (
            r,
            handle_fault(handle)
            .or_next(pointer_fault(out_len, "out_len is null"@))
            .or_next(fault_of(association_filter(filter))),
        ) {
            (Ok(v), None) => v == association_filter(filter)->Ok_0,
            (Err(f), Some(expected)) => f@ == expected,
            _ => false,
        },
{
    match require_handle(handle) {
        Ok(_) => {},
        Err(f) => {
            return Err(f);
        },
    }
    match require_pointer(out_len, "out_len is null") {
        Ok(_) => {},
        Err(f) => {
            return Err(f);
        },
    }
    let filter: Option<T> = match assoc_filter_from_json(filter) {
        Ok(v) => v,
        Err(f) => {
            return Err(f);
        },
    };
    Ok(filter)
}

/// The filter edges that go must match: all of them, where there is none.
pub fn infrastore_store_remove_parent_child_associations<T>(
    handle: bool,
    filter: Argument<T>,
) -> (r: Result<Option<T>, Failure>)
    ensures
        match (
            r,
            handle_fault(handle)
            .or_next(fault_of(association_filter(filter))),
        ) {
            (Ok(v), None) => v == association_filter(filter)->Ok_0,
            (Err(f), Some(expected)) => f@ == expected,
            _ => false,
        },
{
    match require_handle(handle) {
        Ok(_) => {},
        Err(f) => {
            return Err(f);
        },
    }
    let filter: Option<T> = match assoc_filter_from_json(filter) {
        Ok(v) => v,
        Err(f) => {
            return Err(f);
        },
    };
    Ok(filter)
}

/// The filter edges that are counted must match, if they must match one.
pub fn infrastore_store_count_parent_child_associations<T>(
    handle: bool,
    out_count: bool,
    filter: Argument<T>,
) -> (r: Result<Option<T>, Failure>)
    ensures
        match (
            r,
            handle_fault(handle)
            .or_next(pointer_fault(out_count, "out_count is null"@))
            .or_next(fault_of(association_filter(filter))),
        ) {
            (Ok(v), None) => v == association_filter(filter)->Ok_0,
            (Err(f), Some(expected)) => f@ == expected,
            _ => false,
        },
{
    match require_handle(handle) {
        Ok(_) => {},
        Err(f) => {
            return Err(f);
        },
    }
    match require_pointer(out_count, "out_count is null") {
        Ok(_) => {},
        Err(f) => {
            return Err(f);
        },
    }
    let filter: Option<T> = match assoc_filter_from_json(filter) {
        Ok(v) => v,
        Err(f) => {
            return Err(f);
        },
    };
    Ok(filter)
}

/// The filter edges must match, if they must match one, and which end of them is listed.
pub fn infrastore_store_list_parent_child_ids<T>(
    handle: bool,
    out_len: bool,
    filter: Argument<T>,
    endpoint: i32,
) -> (r: Result<(Option<T>, Endpoint), Failure>)
    ensures
        match (
            r,
            handle_fault(handle)
            .or_next(pointer_fault(out_len, "out_len is null"@))
            .or_next(fault_of(association_filter(filter)))
            .or_next(fault_of(endpoint_argument(endpoint))),
        ) {
            (Ok(v), None) => v.0 == association_filter(filter)->Ok_0 && v.1 == endpoint_argument(
                endpoint,
            )->Ok_0,
            (Err(f), Some(expected)) => f@ == expected,
            _ => false,
        },
{
    match require_handle(handle) {
        Ok(_) => {},
        Err(f) => {
            return Err(f);
        },
    }
    match require_pointer(out_len, "out_len is null") {
        Ok(_) => {},
        Err(f) => {
            return Err(f);
        },
    }
    let filter: Option<T> = match assoc_filter_from_json(filter) {
        Ok(v) => v,
        Err(f) => {
            return Err(f);
        },
    };
    let end: Endpoint = match edge_endpoint(endpoint) {
        Ok(v) => v,
        Err(f) => {
            return Err(f);
        },
    };
    Ok((filter, end))
}

/// The document of the rows to import.
pub fn infrastore_store_import_time_series_associations_openapi(
    handle: bool,
    json: &CText,
) -> (r: Result<String, Failure>)
    ensures
        match (
            r,
            handle_fault(handle)
            .or_next(fault_of(text_argument(*json))),
        ) {
            (Ok(v), None) => v@ == text_argument(*json)->Ok_0,
            (Err(f), Some(expected)) => f@ == expected,
            _ => false,
        },
{
    match require_handle(handle) {
        Ok(_) => {},
        Err(f) => {
            return Err(f);
        },
    }
    let json: String = match required_text(json) {
        Ok(v) => v,
        Err(f) => {
            return Err(f);
        },
    };
    Ok(json)
}

/// The document of the attachments to import.
pub fn infrastore_store_import_supplemental_attribute_associations_openapi(
    handle: bool,
    json: &CText,
) -> (r: Result<String, Failure>)
    ensures
        match (
            r,
            handle_fault(handle)
            .or_next(fault_of(text_argument(*json))),
        ) {
            (Ok(v), None) => v@ == text_argument(*json)->Ok_0,
            (Err(f), Some(expected)) => f@ == expected,
            _ => false,
        },
{
    match require_handle(handle) {
        Ok(_) => {},
        Err(f) => {
            return Err(f);
        },
    }
    let json: String = match required_text(json) {
        Ok(v) => v,
        Err(f) => {
            return Err(f);
        },
    };
    Ok(json)
}

/// The instant to read at.
pub fn infrastore_static_reader_read(
    reader: bool,
    store: bool,
    at_unix_ms: i64,
) -> (r: Result<i64, Failure>)
    ensures
        match (
            r,
            pointer_fault(reader, "reader handle is null"@)
            .or_next(pointer_fault(store, "store handle is null"@))
            .or_next(fault_of(stamp_argument(at_unix_ms))),
        ) {
            (Ok(v), None) => v == stamp_argument(at_unix_ms)->Ok_0,
            (Err(f), Some(expected)) => f@ == expected,
            _ => false,
        },
{
    match require_pointer(reader, "reader handle is null") {
        Ok(_) => {},
        Err(f) => {
            return Err(f);
        },
    }
    match require_pointer(store, "store handle is null") {
        Ok(_) => {},
        Err(f) => {
            return Err(f);
        },
    }
    let at: i64 = match instant_in_range(at_unix_ms) {
        Ok(v) => v,
        Err(f) => {
            return Err(f);
        },
    };
    Ok(at)
}

/// The instant to read at.
pub fn infrastore_forecast_reader_read(
    reader: bool,
    store: bool,
    at_unix_ms: i64,
) -> (r: Result<i64, Failure>)
    ensures
        match (
            r,
            pointer_fault(reader, "reader handle is null"@)
            .or_next(pointer_fault(store, "store handle is null"@))
            .or_next(fault_of(stamp_argument(at_unix_ms))),
        ) {
            (Ok(v), None) => v == stamp_argument(at_unix_ms)->Ok_0,
            (Err(f), Some(expected)) => f@ == expected,
            _ => false,
        },
{
    match require_pointer(reader, "reader handle is null") {
        Ok(_) => {},
        Err(f) => {
            return Err(f);
        },
    }
    match require_pointer(store, "store handle is null") {
        Ok(_) => {},
        Err(f) => {
            return Err(f);
        },
    }
    let at: i64 = match instant_in_range(at_unix_ms) {
        Ok(v) => v,
        Err(f) => {
            return Err(f);
        },
    };
    Ok(at)
}

/// The group asked about, among so many.
pub fn infrastore_static_reader_group_info(
    reader: bool,
    outs: bool,
    group_idx: u64,
    groups: usize,
) -> (r: Result<usize, Failure>)
    ensures
        match (
            r,
            pointer_fault(reader, "reader handle is null"@)
            .or_next(pointer_fault(outs, "an out pointer is null"@))
            .or_next(fault_of(index_argument("group"@, group_idx, groups))),
        ) {
            (Ok(v), None) => v == index_argument("group"@, group_idx, groups)->Ok_0,
            (Err(f), Some(expected)) => f@ == expected,
            _ => false,
        },
{
    match require_pointer(reader, "reader handle is null") {
        Ok(_) => {},
        Err(f) => {
            return Err(f);
        },
    }
    match require_pointer(outs, "an out pointer is null") {
        Ok(_) => {},
        Err(f) => {
            return Err(f);
        },
    }
    let place: usize = match index_within("group", group_idx, groups) {
        Ok(v) => v,
        Err(f) => {
            return Err(f);
        },
    };
    Ok(place)
}

/// The group whose values are asked for, among so many.
pub fn infrastore_static_reader_group_values(
    reader: bool,
    outs: bool,
    group_idx: u64,
    groups: usize,
) -> (r: Result<usize, Failure>)
    ensures
        match (
            r,
            pointer_fault(reader, "reader handle is null"@)
            .or_next(pointer_fault(outs, "an out pointer is null"@))
            .or_next(fault_of(index_argument("group"@, group_idx, groups))),
        ) {
            (Ok(v), None) => v == index_argument("group"@, group_idx, groups)->Ok_0,
            (Err(f), Some(expected)) => f@ == expected,
            _ => false,
        },
{
    match require_pointer(reader, "reader handle is null") {
        Ok(_) => {},
        Err(f) => {
            return Err(f);
        },
    }
    match require_pointer(outs, "an out pointer is null") {
        Ok(_) => {},
        Err(f) => {
            return Err(f);
        },
    }
    let place: usize = match index_within("group", group_idx, groups) {
        Ok(v) => v,
        Err(f) => {
            return Err(f);
        },
    };
    Ok(place)
}

/// The entry asked about, among so many.
pub fn infrastore_forecast_reader_entry_info(
    reader: bool,
    outs: bool,
    entry_idx: u64,
    entries: usize,
) -> (r: Result<usize, Failure>)
    ensures
        match (
            r,
            pointer_fault(reader, "reader handle is null"@)
            .or_next(pointer_fault(outs, "an out pointer is null"@))
            .or_next(fault_of(index_argument("entry"@, entry_idx, entries))),
        ) {
            (Ok(v), None) => v == index_argument("entry"@, entry_idx, entries)->Ok_0,
            (Err(f), Some(expected)) => f@ == expected,
            _ => false,
        },
{
    match require_pointer(reader, "reader handle is null") {
        Ok(_) => {},
        Err(f) => {
            return Err(f);
        },
    }
    match require_pointer(outs, "an out pointer is null") {
        Ok(_) => {},
        Err(f) => {
            return Err(f);
        },
    }
    let place: usize = match index_within("entry", entry_idx, entries) {
        Ok(v) => v,
        Err(f) => {
            return Err(f);
        },
    };
    Ok(place)
}

/// The entry whose values are asked for, among so many.
pub fn infrastore_forecast_reader_entry_values(
    reader: bool,
    outs: bool,
    entry_idx: u64,
    entries: usize,
) -> (r: Result<usize, Failure>)
    ensures
        match (
            r,
            pointer_fault(reader, "reader handle is null"@)
            .or_next(pointer_fault(outs, "an out pointer is null"@))
            .or_next(fault_of(index_argument("entry"@, entry_idx, entries))),
        ) {
            (Ok(v), None) => v == index_argument("entry"@, entry_idx, entries)->Ok_0,
            (Err(f), Some(expected)) => f@ == expected,
            _ => false,
        },
{
    match require_pointer(reader, "reader handle is null") {
        Ok(_) => {},
        Err(f) => {
            return Err(f);
        },
    }
    match require_pointer(outs, "an out pointer is null") {
        Ok(_) => {},
        Err(f) => {
            return Err(f);
        },
    }
    let place: usize = match index_within("entry", entry_idx, entries) {
        Ok(v) => v,
        Err(f) => {
            return Err(f);
        },
    };
    Ok(place)
}

/// The entry whose slot is asked for, among so many.
pub fn infrastore_forecast_reader_entry_slot(
    reader: bool,
    out_slot: bool,
    entry_idx: u64,
    entries: usize,
) -> (r: Result<usize, Failure>)
    ensures
        match (
            r,
            pointer_fault(reader, "reader handle is null"@)
            .or_next(pointer_fault(out_slot, "out_slot is null"@))
            .or_next(fault_of(index_argument("entry"@, entry_idx, entries))),
        ) {
            (Ok(v), None) => v == index_argument("entry"@, entry_idx, entries)->Ok_0,
            (Err(f), Some(expected)) => f@ == expected,
            _ => false,
        },
{
    match require_pointer(reader, "reader handle is null") {
        Ok(_) => {},
        Err(f) => {
            return Err(f);
        },
    }
    match require_pointer(out_slot, "out_slot is null") {
        Ok(_) => {},
        Err(f) => {
            return Err(f);
        },
    }
    let place: usize = match index_within("entry", entry_idx, entries) {
        Ok(v) => v,
        Err(f) => {
            return Err(f);
        },
    };
    Ok(place)
}

/// The entry whose id is asked for, among so many.
pub fn infrastore_forecast_reader_entry_id(
    reader: bool,
    out_id: bool,
    entry_idx: u64,
    entries: usize,
) -> (r: Result<usize, Failure>)
    ensures
        match (
            r,
            pointer_fault(reader, "reader handle is null"@)
            .or_next(pointer_fault(out_id, "out_id pointer is null"@))
            .or_next(fault_of(index_argument("entry"@, entry_idx, entries))),
        ) {
            (Ok(v), None) => v == index_argument("entry"@, entry_idx, entries)->Ok_0,
            (Err(f), Some(expected)) => f@ == expected,
            _ => false,
        },
{
    match require_pointer(reader, "reader handle is null") {
        Ok(_) => {},
        Err(f) => {
            return Err(f);
        },
    }
    match require_pointer(out_id, "out_id pointer is null") {
        Ok(_) => {},
        Err(f) => {
            return Err(f);
        },
    }
    let place: usize = match index_within("entry", entry_idx, entries) {
        Ok(v) => v,
        Err(f) => {
            return Err(f);
        },
    };
    Ok(place)
}

/// The filter that any series must match.
pub fn infrastore_store_has_any_by_filter(
    handle: bool,
    out_present: bool,
    a: FilterArguments,
) -> (r: Result<ListFilter, Failure>)
    ensures
        match (
            r,
            handle_fault(handle)
            .or_next(handle_fault(out_present))
            .or_next(filter_fault(a)),
        ) {
            (Ok(v), None) => is_filter_for(v@, a),
            (Err(f), Some(expected)) => f@ == expected,
            _ => false,
        },
{
    match require_handle(handle) {
        Ok(_) => {},
        Err(f) => {
            return Err(f);
        },
    }
    match require_handle(out_present) {
        Ok(_) => {},
        Err(f) => {
            return Err(f);
        },
    }
    let filter: ListFilter = match build_list_filter(a) {
        Ok(v) => v,
        Err(f) => {
            return Err(f);
        },
    };
    Ok(filter)
}

/// The filter that the series to remove must match.
pub fn infrastore_store_remove_by_filter(
    handle: bool,
    out_removed: bool,
    a: FilterArguments,
) -> (r: Result<ListFilter, Failure>)
    ensures
        match (
            r,
            handle_fault(handle)
            .or_next(pointer_fault(out_removed, "out_removed is null"@))
            .or_next(filter_fault(a)),
        ) {
            (Ok(v), None) => is_filter_for(v@, a),
            (Err(f), Some(expected)) => f@ == expected,
            _ => false,
        },
{
    match require_handle(handle) {
        Ok(_) => {},
        Err(f) => {
            return Err(f);
        },
    }
    match require_pointer(out_removed, "out_removed is null") {
        Ok(_) => {},
        Err(f) => {
            return Err(f);
        },
    }
    let filter: ListFilter = match build_list_filter(a) {
        Ok(v) => v,
        Err(f) => {
            return Err(f);
        },
    };
    Ok(filter)
}

/// The filter that the rows to list must match.
pub fn infrastore_store_list_metadata(
    handle: bool,
    outs: bool,
    a: FilterArguments,
) -> (r: Result<ListFilter, Failure>)
    ensures
        match (
            r,
            handle_fault(handle)
            .or_next(pointer_fault(outs, "a required pointer is null"@))
            .or_next(filter_fault(a)),
        ) {
            (Ok(v), None) => is_filter_for(v@, a),
            (Err(f), Some(expected)) => f@ == expected,
            _ => false,
        },
{
    match require_handle(handle) {
        Ok(_) => {},
        Err(f) => {
            return Err(f);
        },
    }
    match require_pointer(outs, "a required pointer is null") {
        Ok(_) => {},
        Err(f) => {
            return Err(f);
        },
    }
    let filter: ListFilter = match build_list_filter(a) {
        Ok(v) => v,
        Err(f) => {
            return Err(f);
        },
    };
    Ok(filter)
}

/// The filter that the series whose names are listed must match.
pub fn infrastore_store_list_names(
    handle: bool,
    outs: bool,
    a: FilterArguments,
) -> (r: Result<ListFilter, Failure>)
    ensures
        match (
            r,
            handle_fault(handle)
            .or_next(pointer_fault(outs, "a required pointer is null"@))
            .or_next(filter_fault(a)),
        ) {
            (Ok(v), None) => is_filter_for(v@, a),
            (Err(f), Some(expected)) => f@ == expected,
            _ => false,
        },
{
    match require_handle(handle) {
        Ok(_) => {},
        Err(f) => {
            return Err(f);
        },
    }
    match require_pointer(outs, "a required pointer is null") {
        Ok(_) => {},
        Err(f) => {
            return Err(f);
        },
    }
    let filter: ListFilter = match build_list_filter(a) {
        Ok(v) => v,
        Err(f) => {
            return Err(f);
        },
    };
    Ok(filter)
}

/// The filter that the series whose owners are listed must match.
pub fn infrastore_store_list_owner_types(
    handle: bool,
    outs: bool,
    a: FilterArguments,
) -> (r: Result<ListFilter, Failure>)
    ensures
        match (
            r,
            handle_fault(handle)
            .or_next(pointer_fault(outs, "a required pointer is null"@))
            .or_next(filter_fault(a)),
        ) {
            (Ok(v), None) => is_filter_for(v@, a),
            (Err(f), Some(expected)) => f@ == expected,
            _ => false,
        },
{
    match require_handle(handle) {
        Ok(_) => {},
        Err(f) => {
            return Err(f);
        },
    }
    match require_pointer(outs, "a required pointer is null") {
        Ok(_) => {},
        Err(f) => {
            return Err(f);
        },
    }
    let filter: ListFilter = match build_list_filter(a) {
        Ok(v) => v,
        Err(f) => {
            return Err(f);
        },
    };
    Ok(filter)
}

/// The filter that the rows to export must match.
pub fn infrastore_store_export_time_series_associations_openapi(
    handle: bool,
    outs: bool,
    a: FilterArguments,
) -> (r: Result<ListFilter, Failure>)
    ensures
        match (
            r,
            handle_fault(handle)
            .or_next(pointer_fault(outs, "a required pointer is null"@))
            .or_next(filter_fault(a)),
        ) {
            (Ok(v), None) => is_filter_for(v@, a),
            (Err(f), Some(expected)) => f@ == expected,
            _ => false,
        },
{
    match require_handle(handle) {
        Ok(_) => {},
        Err(f) => {
            return Err(f);
        },
    }
    match require_pointer(outs, "a required pointer is null") {
        Ok(_) => {},
        Err(f) => {
            return Err(f);
        },
    }
    let filter: ListFilter = match build_list_filter(a) {
        Ok(v) => v,
        Err(f) => {
            return Err(f);
        },
    };
    Ok(filter)
}

/// The filter of an owner's series, of one type where the call names one.
pub fn infrastore_store_has_for_owner(
    handle: bool,
    out_present: bool,
    owner_id: i64,
    category: i32,
    use_type: bool,
    ts_type: i32,
) -> (r: Result<ListFilter, Failure>)
    ensures
        match (
            r,
            handle_fault(handle)
            .or_next(handle_fault(out_present))
            .or_next(owner_filter_fault(category, use_type, ts_type)),
        ) {
            (Ok(v), None) => is_owner_filter(v@, owner_id, category, use_type, ts_type),
            (Err(f), Some(expected)) => f@ == expected,
            _ => false,
        },
{
    match require_handle(handle) {
        Ok(_) => {},
        Err(f) => {
            return Err(f);
        },
    }
    match require_handle(out_present) {
        Ok(_) => {},
        Err(f) => {
            return Err(f);
        },
    }
    let filter: ListFilter = match owner_filter(owner_id, category, use_type, ts_type) {
        Ok(v) => v,
        Err(f) => {
            return Err(f);
        },
    };
    Ok(filter)
}

/// The filter that addresses exactly one single time series.
pub fn infrastore_store_has_by_attrs(
    handle: bool,
    out_present: bool,
    a: IdentityArguments,
) -> (r: Result<ListFilter, Failure>)
    ensures
        match (
            r,
            handle_fault(handle)
            .or_next(handle_fault(out_present))
            .or_next(identity_fault(a)),
        ) {
            (Ok(v), None) => is_identity_for(
                v@,
                a,
                None,
                Some(TimeSeriesType::SingleTimeSeries),
            ),
            (Err(f), Some(expected)) => f@ == expected,
            _ => false,
        },
{
    match require_handle(handle) {
        Ok(_) => {},
        Err(f) => {
            return Err(f);
        },
    }
    match require_handle(out_present) {
        Ok(_) => {},
        Err(f) => {
            return Err(f);
        },
    }
    let filter: ListFilter = match exact_identity_filter(a, None) {
        Ok(v) => v,
        Err(f) => {
            return Err(f);
        },
    };
    Ok(ListFilter { time_series_type: Some(TimeSeriesType::SingleTimeSeries), ..filter })
}

/// The filter that addresses exactly one series of one type.
pub fn infrastore_store_has_typed(
    handle: bool,
    out_present: bool,
    a: IdentityArguments,
    ts_type: i32,
    interval: Argument<Period>,
) -> (r: Result<ListFilter, Failure>)
    ensures
        match (
            r,
            handle_fault(handle)
            .or_next(handle_fault(out_present))
            .or_next(typed_identity_fault(a, ts_type, interval)),
        ) {
            (Ok(v), None) => is_identity_for(
                v@,
                a,
                read_optional(interval)->Ok_0,
                Some(typed(ts_type)->Ok_0),
            ),
            (Err(f), Some(expected)) => f@ == expected,
            _ => false,
        },
{
    match require_handle(handle) {
        Ok(_) => {},
        Err(f) => {
            return Err(f);
        },
    }
    match require_handle(out_present) {
        Ok(_) => {},
        Err(f) => {
            return Err(f);
        },
    }
    let filter: ListFilter = match build_typed_key_from_attrs(a, ts_type, interval) {
        Ok(v) => v,
        Err(f) => {
            return Err(f);
        },
    };
    Ok(filter)
}

/// What to read of a row, and the owner it must have, if it must have one.
pub fn infrastore_store_read_by_id(
    handle: bool,
    out_result: bool,
    start_present: bool,
    start_zoneless: bool,
    start_ms: i64,
    len_present: bool,
    len: u64,
    count_present: bool,
    count: u64,
    has_owner: bool,
    owner_id: i64,
    category: i32,
) -> (r: Result<(ReadWindow, Option<(i64, OwnerCategory)>), Failure>)
    ensures
        match (
            r,
            handle_fault(handle)
            .or_next(pointer_fault(out_result, "out_result pointer is null"@))
            .or_next(fault_of(read_plan(
                start_present,
                start_zoneless,
                start_ms,
                extent_of(len_present, len, "len"@),
                extent_of(count_present, count, "count"@),
                owner_guard(has_owner, owner_id, category),
            ))),
        ) {
            (Ok(v), None) => v == read_plan(
                start_present,
                start_zoneless,
                start_ms,
                extent_of(len_present, len, "len"@),
                extent_of(count_present, count, "count"@),
                owner_guard(has_owner, owner_id, category),
            )->Ok_0,
            (Err(f), Some(expected)) => f@ == expected,
            _ => false,
        },
{
    match require_handle(handle) {
        Ok(_) => {},
        Err(f) => {
            return Err(f);
        },
    }
    match require_pointer(out_result, "out_result pointer is null") {
        Ok(_) => {},
        Err(f) => {
            return Err(f);
        },
    }
    let plan: (ReadWindow, Option<(i64, OwnerCategory)>) = match read_by_id_plan(
        start_present,
        start_zoneless,
        start_ms,
        len_present,
        len,
        count_present,
        count,
        has_owner,
        owner_id,
        category,
    ) {
        Ok(v) => v,
        Err(f) => {
            return Err(f);
        },
    };
    Ok(plan)
}

/// The transform a call asks for.
pub fn infrastore_store_transform_single_time_series(
    handle: bool,
    out_count: bool,
    a: TransformArguments,
) -> (r: Result<TransformPlan, Failure>)
    ensures
        match (
            r,
            handle_fault(handle)
            .or_next(pointer_fault(out_count, "a required pointer is null"@))
            .or_next(transform_fault(a)),
        ) {
            (Ok(v), None) => is_transform_for(v, a),
            (Err(f), Some(expected)) => f@ == expected,
            _ => false,
        },
{
    match require_handle(handle) {
        Ok(_) => {},
        Err(f) => {
            return Err(f);
        },
    }
    match require_pointer(out_count, "a required pointer is null") {
        Ok(_) => {},
        Err(f) => {
            return Err(f);
        },
    }
    let plan: TransformPlan = match transform_plan(a) {
        Ok(v) => v,
        Err(f) => {
            return Err(f);
        },
    };
    Ok(plan)
}

/// The request to add a regular series.
pub fn infrastore_store_add_single(
    handle: bool,
    a: SingleArguments,
) -> (r: Result<AddRequest, Failure>)
    ensures
        match (
            r,
            pointer_fault(handle, "store handle is null"@)
            .or_next(single_fault(a)),
        ) {
            (Ok(v), None) => is_request_for(v, a.series, single_axis_of(a)),
            (Err(f), Some(expected)) => f@ == expected,
            _ => false,
        },
{
    match require_pointer(handle, "store handle is null") {
        Ok(_) => {},
        Err(f) => {
            return Err(f);
        },
    }
    let request: AddRequest = match build_single_request(a) {
        Ok(v) => v,
        Err(f) => {
            return Err(f);
        },
    };
    Ok(request)
}

/// The request to add an irregular series, as far as it is read before the store looks at it.
pub fn infrastore_store_add_non_sequential(
    handle: bool,
    a: NonSequentialArguments,
) -> (r: Result<NonSequentialDraft, Failure>)
    ensures
        match (
            r,
            pointer_fault(handle, "store handle is null"@)
            .or_next(non_sequential_head_fault(a)),
        ) {
            (Ok(v), None) => is_draft_for(v, a),
            (Err(f), Some(expected)) => f@ == expected,
            _ => false,
        },
{
    match require_pointer(handle, "store handle is null") {
        Ok(_) => {},
        Err(f) => {
            return Err(f);
        },
    }
    let draft: NonSequentialDraft = match build_non_sequential_request(a) {
        Ok(v) => v,
        Err(f) => {
            return Err(f);
        },
    };
    Ok(draft)
}

/// The request to add a forecast.
pub fn infrastore_store_add_forecast(
    handle: bool,
    a: ForecastArguments,
) -> (r: Result<AddRequest, Failure>)
    ensures
        match (
            r,
            handle_fault(handle)
            .or_next(forecast_request_fault(a)),
        ) {
            (Ok(v), None) => is_request_for(v, a.series, forecast_axis_of(a)),
            (Err(f), Some(expected)) => f@ == expected,
            _ => false,
        },
{
    match require_handle(handle) {
        Ok(_) => {},
        Err(f) => {
            return Err(f);
        },
    }
    let request: AddRequest = match build_forecast_request(a) {
        Ok(v) => v,
        Err(f) => {
            return Err(f);
        },
    };
    Ok(request)
}

/// The request to add a probabilistic forecast.
pub fn infrastore_store_add_probabilistic(
    handle: bool,
    a: ProbabilisticArguments,
) -> (r: Result<AddRequest, Failure>)
    ensures
        match (
            r,
            handle_fault(handle)
            .or_next(probabilistic_fault(a)),
        ) {
            (Ok(v), None) => is_request_for(v, a.series, probabilistic_axis_of(a)),
            (Err(f), Some(expected)) => f@ == expected,
            _ => false,
        },
{
    match require_handle(handle) {
        Ok(_) => {},
        Err(f) => {
            return Err(f);
        },
    }
    let request: AddRequest = match build_probabilistic_request(a) {
        Ok(v) => v,
        Err(f) => {
            return Err(f);
        },
    };
    Ok(request)
}

/// The request to put into a batch.
pub fn infrastore_batch_add_single(
    batch: bool,
    a: SingleArguments,
) -> (r: Result<AddRequest, Failure>)
    ensures
        match (
            r,
            pointer_fault(batch, "batch handle is null"@)
            .or_next(single_fault(a)),
        ) {
            (Ok(v), None) => is_request_for(v, a.series, single_axis_of(a)),
            (Err(f), Some(expected)) => f@ == expected,
            _ => false,
        },
{
    match require_pointer(batch, "batch handle is null") {
        Ok(_) => {},
        Err(f) => {
            return Err(f);
        },
    }
    let request: AddRequest = match build_single_request(a) {
        Ok(v) => v,
        Err(f) => {
            return Err(f);
        },
    };
    Ok(request)
}

/// The request to put into a batch, as far as it is read before the store looks at it.
pub fn infrastore_batch_add_non_sequential(
    batch: bool,
    a: NonSequentialArguments,
) -> (r: Result<NonSequentialDraft, Failure>)
    ensures
        match (
            r,
            pointer_fault(batch, "batch handle is null"@)
            .or_next(non_sequential_head_fault(a)),
        ) {
            (Ok(v), None) => is_draft_for(v, a),
            (Err(f), Some(expected)) => f@ == expected,
            _ => false,
        },
{
    match require_pointer(batch, "batch handle is null") {
        Ok(_) => {},
        Err(f) => {
            return Err(f);
        },
    }
    let draft: NonSequentialDraft = match build_non_sequential_request(a) {
        Ok(v) => v,
        Err(f) => {
            return Err(f);
        },
    };
    Ok(draft)
}

/// The request to put into a batch.
pub fn infrastore_batch_add_forecast(
    batch: bool,
    a: ForecastArguments,
) -> (r: Result<AddRequest, Failure>)
    ensures
        match (
            r,
            pointer_fault(batch, "batch handle is null"@)
            .or_next(forecast_request_fault(a)),
        ) {
            (Ok(v), None) => is_request_for(v, a.series, forecast_axis_of(a)),
            (Err(f), Some(expected)) => f@ == expected,
            _ => false,
        },
{
    match require_pointer(batch, "batch handle is null") {
        Ok(_) => {},
        Err(f) => {
            return Err(f);
        },
    }
    let request: AddRequest = match build_forecast_request(a) {
        Ok(v) => v,
        Err(f) => {
            return Err(f);
        },
    };
    Ok(request)
}

/// The request to put into a batch.
pub fn infrastore_batch_add_probabilistic(
    batch: bool,
    a: ProbabilisticArguments,
) -> (r: Result<AddRequest, Failure>)
    ensures
        match (
            r,
            pointer_fault(batch, "batch handle is null"@)
            .or_next(probabilistic_fault(a)),
        ) {
            (Ok(v), None) => is_request_for(v, a.series, probabilistic_axis_of(a)),
            (Err(f), Some(expected)) => f@ == expected,
            _ => false,
        },
{
    match require_pointer(batch, "batch handle is null") {
        Ok(_) => {},
        Err(f) => {
            return Err(f);
        },
    }
    let request: AddRequest = match build_probabilistic_request(a) {
        Ok(v) => v,
        Err(f) => {
            return Err(f);
        },
    };
    Ok(request)
}

/// The requests of a batch, to be added together. They are taken out of it in all cases, also
/// where they cannot be added.
pub fn infrastore_store_add_batch(
    handle: bool,
    batch: Option<&mut Vec<AddRequest>>,
    outs: bool,
) -> (r: Result<Vec<AddRequest>, Failure>)
    ensures
        batch matches Some(items) ==> final(items)@.len() == 0,
        match (
            r,
            pointer_fault(handle, "store handle is null"@)
            .or_next(pointer_fault(batch is Some, "batch handle is null"@))
            .or_next(pointer_fault(outs, "an out pointer is null"@)),
        ) {
            (Ok(v), None) => batch matches Some(items) && v@ == (*items)@,
            (Err(f), Some(expected)) => f@ == expected,
            _ => false,
        },
{
    let mut taken: Vec<AddRequest> = Vec::new();
    let present: bool = match batch {
        Some(items) => {
            core::mem::swap(items, &mut taken);
            true
        },
        None => false,
    };
    match require_pointer(handle, "store handle is null") {
        Ok(_) => {},
        Err(f) => {
            return Err(f);
        },
    }
    match require_pointer(present, "batch handle is null") {
        Ok(_) => {},
        Err(f) => {
            return Err(f);
        },
    }
    match require_pointer(outs, "an out pointer is null") {
        Ok(_) => {},
        Err(f) => {
            return Err(f);
        },
    }
    Ok(taken)
}

/// The column of a group whose id is asked for, among the columns of each group.
pub fn infrastore_static_reader_group_id(
    reader: bool,
    group_idx: u64,
    columns: &Vec<usize>,
    out_id: bool,
    col_idx: u64,
) -> (r: Result<(usize, usize), Failure>)
    ensures
        match (
            r,
            pointer_fault(reader, "reader handle is null"@)
                .or_next(fault_of(index_argument("group"@, group_idx, columns@.len() as usize)))
                .or_next(pointer_fault(out_id, "out_id pointer is null"@))
                .or_next(
                fault_of(index_argument("column"@, col_idx, columns@[group_idx as int])),
            ),
        ) {
            (Ok(v), None) => v.0 == group_idx && v.1 == col_idx,
            (Err(f), Some(expected)) => f@ == expected,
            _ => false,
        },
{
    match require_pointer(reader, "reader handle is null") {
        Ok(_) => {},
        Err(f) => {
            return Err(f);
        },
    }
    let groups: usize = columns.len();
    let group: usize = match index_within("group", group_idx, groups) {
        Ok(v) => v,
        Err(f) => {
            return Err(f);
        },
    };
    match require_pointer(out_id, "out_id pointer is null") {
        Ok(_) => {},
        Err(f) => {
            return Err(f);
        },
    }
    let column: usize = match index_within("column", col_idx, columns[group]) {
        Ok(v) => v,
        Err(f) => {
            return Err(f);
        },
    };
    Ok((group, column))
}

/// The filter a reader of static series is built for.
pub fn infrastore_store_build_static_reader(
    handle: bool,
    out_reader: bool,
    ts_type: i32,
    a: ReaderArguments,
) -> (r: Result<ListFilter, Failure>)
    ensures
        match (
            r,
            pointer_fault(handle, "store handle is null"@)
                .or_next(pointer_fault(out_reader, "out_reader is null"@))
                .or_next(fault_of(typed(ts_type)))
                .or_next(filter_fault(as_listing(a))),
        ) {
            (Ok(filter), None) => filter@.time_series_type == Some(typed(ts_type)->Ok_0)
                && is_filter_for(
                FilterView { time_series_type: None, ..filter@ },
                as_listing(a),
            ),
            (Err(f), Some(expected)) => f@ == expected,
            _ => false,
        },
{
    match require_pointer(handle, "store handle is null") {
        Ok(_) => {},
        Err(f) => {
            return Err(f);
        },
    }
    match require_pointer(out_reader, "out_reader is null") {
        Ok(_) => {},
        Err(f) => {
            return Err(f);
        },
    }
    let kind: TimeSeriesType = match required_type(ts_type) {
        Ok(v) => v,
        Err(f) => {
            return Err(f);
        },
    };
    let filter = match reader_filter(a) {
        Ok(v) => v,
        Err(f) => {
            return Err(f);
        },
    };
    Ok(ListFilter { time_series_type: Some(kind), ..filter })
}

/// The filter a reader of forecasts is built for.
pub fn infrastore_store_build_forecast_reader(
    handle: bool,
    out_reader: bool,
    ts_type: i32,
    a: ReaderArguments,
) -> (r: Result<ListFilter, Failure>)
    ensures
        match (
            r,
            pointer_fault(handle, "store handle is null"@)
                .or_next(pointer_fault(out_reader, "out_reader is null"@))
                .or_next(fault_of(typed_forecast(ts_type)))
                .or_next(filter_fault(as_listing(a))),
        ) {
            (Ok(filter), None) => filter@.time_series_type == Some(typed_forecast(ts_type)->Ok_0)
                && is_filter_for(
                FilterView { time_series_type: None, ..filter@ },
                as_listing(a),
            ),
            (Err(f), Some(expected)) => f@ == expected,
            _ => false,
        },
{
    match require_pointer(handle, "store handle is null") {
        Ok(_) => {},
        Err(f) => {
            return Err(f);
        },
    }
    match require_pointer(out_reader, "out_reader is null") {
        Ok(_) => {},
        Err(f) => {
            return Err(f);
        },
    }
    let kind: TimeSeriesType = match required_forecast_type(ts_type) {
        Ok(v) => v,
        Err(f) => {
            return Err(f);
        },
    };
    let filter = match reader_filter(a) {
        Ok(v) => v,
        Err(f) => {
            return Err(f);
        },
    };
    Ok(ListFilter { time_series_type: Some(kind), ..filter })
}

// ---- Calls that ask for nothing but an answer ---------------------------------------------

/// Whether a store can be asked for its counts.
pub fn infrastore_store_counts(handle: bool, outs: bool) -> (r: Result<(), Failure>)
    ensures
        match (
            r,
            handle_fault(handle)
            .or_next(handle_fault(outs)),
        ) {
            (Ok(_), None) => true,
            (Err(f), Some(expected)) => f@ == expected,
            _ => false,
        },
{
    match require_handle(handle) {
        Ok(_) => {},
        Err(f) => {
            return Err(f);
        },
    }
    require_handle(outs)
}

/// Whether a store can be asked for its counts by kind of owner.
pub fn infrastore_store_counts_detailed(handle: bool, outs: bool) -> (r: Result<(), Failure>)
    ensures
        match (
            r,
            handle_fault(handle)
            .or_next(handle_fault(outs)),
        ) {
            (Ok(_), None) => true,
            (Err(f), Some(expected)) => f@ == expected,
            _ => false,
        },
{
    match require_handle(handle) {
        Ok(_) => {},
        Err(f) => {
            return Err(f);
        },
    }
    require_handle(outs)
}

/// Whether a store can be asked for its compression.
pub fn infrastore_store_get_compression(handle: bool, outs: bool) -> (r: Result<(), Failure>)
    ensures
        match (
            r,
            handle_fault(handle)
            .or_next(handle_fault(outs)),
        ) {
            (Ok(_), None) => true,
            (Err(f), Some(expected)) => f@ == expected,
            _ => false,
        },
{
    match require_handle(handle) {
        Ok(_) => {},
        Err(f) => {
            return Err(f);
        },
    }
    require_handle(outs)
}

/// Whether a store can be asked to check its arrays.
pub fn infrastore_store_verify(handle: bool, outs: bool) -> (r: Result<(), Failure>)
    ensures
        match (
            r,
            handle_fault(handle)
            .or_next(handle_fault(outs)),
        ) {
            (Ok(_), None) => true,
            (Err(f), Some(expected)) => f@ == expected,
            _ => false,
        },
{
    match require_handle(handle) {
        Ok(_) => {},
        Err(f) => {
            return Err(f);
        },
    }
    require_handle(outs)
}

/// Whether a store can be asked if it can be written to.
pub fn infrastore_store_read_only(handle: bool, out_read_only: bool) -> (r: Result<(), Failure>)
    ensures
        match (
            r,
            handle_fault(handle)
            .or_next(pointer_fault(out_read_only, "out_read_only is null"@)),
        ) {
            (Ok(_), None) => true,
            (Err(f), Some(expected)) => f@ == expected,
            _ => false,
        },
{
    match require_handle(handle) {
        Ok(_) => {},
        Err(f) => {
            return Err(f);
        },
    }
    require_pointer(out_read_only, "out_read_only is null")
}

/// Whether a store can be asked if it is empty.
pub fn infrastore_store_is_empty(handle: bool, out: bool) -> (r: Result<(), Failure>)
    ensures
        match (
            r,
            handle_fault(handle)
            .or_next(pointer_fault(out, "out is null"@)),
        ) {
            (Ok(_), None) => true,
            (Err(f), Some(expected)) => f@ == expected,
            _ => false,
        },
{
    match require_handle(handle) {
        Ok(_) => {},
        Err(f) => {
            return Err(f);
        },
    }
    require_pointer(out, "out is null")
}

/// Whether a store can be asked where it is.
pub fn infrastore_store_get_path(handle: bool, outs: bool) -> (r: Result<(), Failure>)
    ensures
        match (
            r,
            handle_fault(handle)
            .or_next(pointer_fault(outs, "out_has_path or out_len is null"@)),
        ) {
            (Ok(_), None) => true,
            (Err(f), Some(expected)) => f@ == expected,
            _ => false,
        },
{
    match require_handle(handle) {
        Ok(_) => {},
        Err(f) => {
            return Err(f);
        },
    }
    require_pointer(outs, "out_has_path or out_len is null")
}

/// Whether a store can be asked for its counts by type.
pub fn infrastore_store_counts_by_type(handle: bool, out_len: bool) -> (r: Result<(), Failure>)
    ensures
        match (
            r,
            handle_fault(handle)
            .or_next(pointer_fault(out_len, "out_len is null"@)),
        ) {
            (Ok(_), None) => true,
            (Err(f), Some(expected)) => f@ == expected,
            _ => false,
        },
{
    match require_handle(handle) {
        Ok(_) => {},
        Err(f) => {
            return Err(f);
        },
    }
    require_pointer(out_len, "out_len is null")
}

/// Whether a store can be asked for a summary of its static series.
pub fn infrastore_store_static_summary(handle: bool, out_len: bool) -> (r: Result<(), Failure>)
    ensures
        match (
            r,
            handle_fault(handle)
            .or_next(pointer_fault(out_len, "out_len is null"@)),
        ) {
            (Ok(_), None) => true,
            (Err(f), Some(expected)) => f@ == expected,
            _ => false,
        },
{
    match require_handle(handle) {
        Ok(_) => {},
        Err(f) => {
            return Err(f);
        },
    }
    require_pointer(out_len, "out_len is null")
}

/// Whether a store can be asked for a summary of its forecasts.
pub fn infrastore_store_forecast_summary(handle: bool, out_len: bool) -> (r: Result<(), Failure>)
    ensures
        match (
            r,
            handle_fault(handle)
            .or_next(pointer_fault(out_len, "out_len is null"@)),
        ) {
            (Ok(_), None) => true,
            (Err(f), Some(expected)) => f@ == expected,
            _ => false,
        },
{
    match require_handle(handle) {
        Ok(_) => {},
        Err(f) => {
            return Err(f);
        },
    }
    require_pointer(out_len, "out_len is null")
}

/// Whether a store can be asked for its attributes by type.
pub fn infrastore_store_supplemental_attribute_counts_by_type(
    handle: bool,
    out_len: bool,
) -> (r: Result<(), Failure>)
    ensures
        match (
            r,
            handle_fault(handle)
            .or_next(pointer_fault(out_len, "out_len is null"@)),
        ) {
            (Ok(_), None) => true,
            (Err(f), Some(expected)) => f@ == expected,
            _ => false,
        },
{
    match require_handle(handle) {
        Ok(_) => {},
        Err(f) => {
            return Err(f);
        },
    }
    require_pointer(out_len, "out_len is null")
}

/// Whether a store can be asked for a summary of its attachments.
pub fn infrastore_store_supplemental_attribute_summary(
    handle: bool,
    out_len: bool,
) -> (r: Result<(), Failure>)
    ensures
        match (
            r,
            handle_fault(handle)
            .or_next(pointer_fault(out_len, "out_len is null"@)),
        ) {
            (Ok(_), None) => true,
            (Err(f), Some(expected)) => f@ == expected,
            _ => false,
        },
{
    match require_handle(handle) {
        Ok(_) => {},
        Err(f) => {
            return Err(f);
        },
    }
    require_pointer(out_len, "out_len is null")
}

/// Whether a store can be asked how many arrays it keeps.
pub fn infrastore_store_num_distinct_arrays(
    handle: bool,
    out_count: bool,
) -> (r: Result<(), Failure>)
    ensures
        match (
            r,
            handle_fault(handle)
            .or_next(pointer_fault(out_count, "out_count is null"@)),
        ) {
            (Ok(_), None) => true,
            (Err(f), Some(expected)) => f@ == expected,
            _ => false,
        },
{
    match require_handle(handle) {
        Ok(_) => {},
        Err(f) => {
            return Err(f);
        },
    }
    require_pointer(out_count, "out_count is null")
}

/// Whether a store can be asked to give back the room it does not need.
pub fn infrastore_store_compact(handle: bool, outs: bool) -> (r: Result<(), Failure>)
    ensures
        match (
            r,
            handle_fault(handle)
            .or_next(pointer_fault(outs, "a required pointer is null"@)),
        ) {
            (Ok(_), None) => true,
            (Err(f), Some(expected)) => f@ == expected,
            _ => false,
        },
{
    match require_handle(handle) {
        Ok(_) => {},
        Err(f) => {
            return Err(f);
        },
    }
    require_pointer(outs, "a required pointer is null")
}

/// Whether a store can be asked for its attachments as a document.
pub fn infrastore_store_export_supplemental_attribute_associations_openapi(
    handle: bool,
    outs: bool,
) -> (r: Result<(), Failure>)
    ensures
        match (
            r,
            handle_fault(handle)
            .or_next(pointer_fault(outs, "a required pointer is null"@)),
        ) {
            (Ok(_), None) => true,
            (Err(f), Some(expected)) => f@ == expected,
            _ => false,
        },
{
    match require_handle(handle) {
        Ok(_) => {},
        Err(f) => {
            return Err(f);
        },
    }
    require_pointer(outs, "a required pointer is null")
}

/// Whether a store can be asked to begin a transaction.
pub fn infrastore_store_begin_transaction(handle: bool) -> (r: Result<(), Failure>)
    ensures
        match (
            r,
            handle_fault(handle),
        ) {
            (Ok(_), None) => true,
            (Err(f), Some(expected)) => f@ == expected,
            _ => false,
        },
{
    require_handle(handle)
}

/// Whether a store can be asked to commit its transaction.
pub fn infrastore_store_commit_transaction(handle: bool) -> (r: Result<(), Failure>)
    ensures
        match (
            r,
            handle_fault(handle),
        ) {
            (Ok(_), None) => true,
            (Err(f), Some(expected)) => f@ == expected,
            _ => false,
        },
{
    require_handle(handle)
}

/// Whether a store can be asked to give up its transaction.
pub fn infrastore_store_rollback_transaction(handle: bool) -> (r: Result<(), Failure>)
    ensures
        match (
            r,
            handle_fault(handle),
        ) {
            (Ok(_), None) => true,
            (Err(f), Some(expected)) => f@ == expected,
            _ => false,
        },
{
    require_handle(handle)
}

/// Whether a store can be asked to write out what it holds back.
pub fn infrastore_store_flush(handle: bool) -> (r: Result<(), Failure>)
    ensures
        match (
            r,
            handle_fault(handle),
        ) {
            (Ok(_), None) => true,
            (Err(f), Some(expected)) => f@ == expected,
            _ => false,
        },
{
    require_handle(handle)
}

/// Whether a store can be asked to write out its catalog.
pub fn infrastore_store_persist_catalog(handle: bool) -> (r: Result<(), Failure>)
    ensures
        match (
            r,
            handle_fault(handle),
        ) {
            (Ok(_), None) => true,
            (Err(f), Some(expected)) => f@ == expected,
            _ => false,
        },
{
    require_handle(handle)
}

/// Whether a store can be asked to move attachments to another component.
pub fn infrastore_store_replace_supplemental_attribute_component_id(
    handle: bool,
) -> (r: Result<(), Failure>)
    ensures
        match (
            r,
            handle_fault(handle),
        ) {
            (Ok(_), None) => true,
            (Err(f), Some(expected)) => f@ == expected,
            _ => false,
        },
{
    require_handle(handle)
}

/// Whether a store can be asked to move edges to another component.
pub fn infrastore_store_replace_parent_child_component_id(handle: bool) -> (r: Result<(), Failure>)
    ensures
        match (
            r,
            handle_fault(handle),
        ) {
            (Ok(_), None) => true,
            (Err(f), Some(expected)) => f@ == expected,
            _ => false,
        },
{
    require_handle(handle)
}

/// Whether a store can be asked if a transaction is open.
pub fn infrastore_store_in_transaction(out: bool, handle: bool) -> (r: Result<(), Failure>)
    ensures
        match (
            r,
            pointer_fault(out, "out pointer is null"@)
            .or_next(handle_fault(handle)),
        ) {
            (Ok(_), None) => true,
            (Err(f), Some(expected)) => f@ == expected,
            _ => false,
        },
{
    match require_pointer(out, "out pointer is null") {
        Ok(_) => {},
        Err(f) => {
            return Err(f);
        },
    }
    require_handle(handle)
}

/// Whether a store can be asked for one row of its catalog.
pub fn infrastore_store_get_metadata_by_id(handle: bool, outs: bool) -> (r: Result<(), Failure>)
    ensures
        match (
            r,
            handle_fault(handle)
            .or_next(pointer_fault(outs, "out_len or out_present is null"@)),
        ) {
            (Ok(_), None) => true,
            (Err(f), Some(expected)) => f@ == expected,
            _ => false,
        },
{
    match require_handle(handle) {
        Ok(_) => {},
        Err(f) => {
            return Err(f);
        },
    }
    require_pointer(outs, "out_len or out_present is null")
}

/// Whether a store can be asked if a row is in its catalog.
pub fn infrastore_store_association_exists(
    handle: bool,
    out_present: bool,
) -> (r: Result<(), Failure>)
    ensures
        match (
            r,
            handle_fault(handle)
            .or_next(pointer_fault(out_present, "out_present is null"@)),
        ) {
            (Ok(_), None) => true,
            (Err(f), Some(expected)) => f@ == expected,
            _ => false,
        },
{
    match require_handle(handle) {
        Ok(_) => {},
        Err(f) => {
            return Err(f);
        },
    }
    require_pointer(out_present, "out_present is null")
}

/// Whether a store can be asked for an array by its hash.
pub fn infrastore_store_get_array_by_hash(handle: bool, pointers: bool) -> (r: Result<(), Failure>)
    ensures
        match (
            r,
            handle_fault(handle)
            .or_next(pointer_fault(pointers, "a pointer is null"@)),
        ) {
            (Ok(_), None) => true,
            (Err(f), Some(expected)) => f@ == expected,
            _ => false,
        },
{
    match require_handle(handle) {
        Ok(_) => {},
        Err(f) => {
            return Err(f);
        },
    }
    require_pointer(pointers, "a pointer is null")
}

/// Whether a store can be asked how many series read an array.
pub fn infrastore_store_count_array_references(
    handle: bool,
    pointers: bool,
) -> (r: Result<(), Failure>)
    ensures
        match (
            r,
            pointer_fault(handle, "store handle is null"@)
            .or_next(pointer_fault(pointers, "a pointer is null"@)),
        ) {
            (Ok(_), None) => true,
            (Err(f), Some(expected)) => f@ == expected,
            _ => false,
        },
{
    match require_pointer(handle, "store handle is null") {
        Ok(_) => {},
        Err(f) => {
            return Err(f);
        },
    }
    require_pointer(pointers, "a pointer is null")
}

/// Whether a reader can be asked for its timestamps.
pub fn infrastore_static_reader_timestamps(reader: bool, out_len: bool) -> (r: Result<(), Failure>)
    ensures
        match (
            r,
            pointer_fault(reader, "reader handle is null"@)
            .or_next(pointer_fault(out_len, "out_len is null"@)),
        ) {
            (Ok(_), None) => true,
            (Err(f), Some(expected)) => f@ == expected,
            _ => false,
        },
{
    match require_pointer(reader, "reader handle is null") {
        Ok(_) => {},
        Err(f) => {
            return Err(f);
        },
    }
    require_pointer(out_len, "out_len is null")
}

/// Whether a reader can be asked how many groups it has.
pub fn infrastore_static_reader_num_groups(reader: bool, out_n: bool) -> (r: Result<(), Failure>)
    ensures
        match (
            r,
            pointer_fault(reader, "reader handle is null"@)
            .or_next(pointer_fault(out_n, "out_n is null"@)),
        ) {
            (Ok(_), None) => true,
            (Err(f), Some(expected)) => f@ == expected,
            _ => false,
        },
{
    match require_pointer(reader, "reader handle is null") {
        Ok(_) => {},
        Err(f) => {
            return Err(f);
        },
    }
    require_pointer(out_n, "out_n is null")
}

/// Whether a reader can be asked how many entries it has.
pub fn infrastore_forecast_reader_num_entries(reader: bool, out_n: bool) -> (r: Result<(), Failure>)
    ensures
        match (
            r,
            pointer_fault(reader, "reader handle is null"@)
            .or_next(pointer_fault(out_n, "out_n is null"@)),
        ) {
            (Ok(_), None) => true,
            (Err(f), Some(expected)) => f@ == expected,
            _ => false,
        },
{
    match require_pointer(reader, "reader handle is null") {
        Ok(_) => {},
        Err(f) => {
            return Err(f);
        },
    }
    require_pointer(out_n, "out_n is null")
}

/// Whether a reader can be asked how many slots it has.
pub fn infrastore_forecast_reader_num_slots(reader: bool, out_n: bool) -> (r: Result<(), Failure>)
    ensures
        match (
            r,
            pointer_fault(reader, "reader handle is null"@)
            .or_next(pointer_fault(out_n, "out_n is null"@)),
        ) {
            (Ok(_), None) => true,
            (Err(f), Some(expected)) => f@ == expected,
            _ => false,
        },
{
    match require_pointer(reader, "reader handle is null") {
        Ok(_) => {},
        Err(f) => {
            return Err(f);
        },
    }
    require_pointer(out_n, "out_n is null")
}

// ---- What a reader says of itself ------------------------------------------------------------

/// The text of a time reference as a C string; nothing where there is none.
pub open spec fn reference_output(reference: Option<TimeReferenceView>) -> Option<Seq<char>> {
    match reference {
        None => None,
        Some(r) => owned_text(r.storage_text()),
    }
}

fn reference_cstr(reference: &Option<TimeReference>) -> (r: Option<String>)
    ensures
        opt_text(r) == reference_output(reference_view(*reference)),
{
    match reference {
        None => None,
        Some(reference) => owned_cstr(reference.as_storage_string()),
    }
}

/// How the instants of a reader are to be read, as a caller gets it.
pub open spec fn is_reference_answer(
    r: Result<Option<String>, Failure>,
    reader: Option<&Option<TimeReference>>,
    out: bool,
) -> bool {
    match (
        r,
        pointer_fault(reader is Some, "reader handle is null"@).or_next(
            pointer_fault(out, "an out pointer is null"@),
        ),
    ) {
        (Ok(text), None) => opt_text(text) == reference_output(reference_view(*reader->0)),
        (Err(f), Some(expected)) => f@ == expected,
        _ => false,
    }
}

/// How the instants of a reader of static series are to be read.
pub fn infrastore_static_reader_time_reference(
    reader: Option<&Option<TimeReference>>,
    out_time_reference: bool,
) -> (r: Result<Option<String>, Failure>)
    ensures
        is_reference_answer(r, reader, out_time_reference),
{
    match reader {
        None => Err(fail(INFRASTORE_ERR_NULL_POINTER, "reader handle is null".to_string())),
        Some(reference) => match require_pointer(out_time_reference, "an out pointer is null") {
            Ok(_) => Ok(reference_cstr(reference)),
            Err(f) => Err(f),
        },
    }
}

/// How the instants of a reader of forecasts are to be read.
pub fn infrastore_forecast_reader_time_reference(
    reader: Option<&Option<TimeReference>>,
    out_time_reference: bool,
) -> (r: Result<Option<String>, Failure>)
    ensures
        is_reference_answer(r, reader, out_time_reference),
{
    infrastore_static_reader_time_reference(reader, out_time_reference)
}

/// The grid of a reader of static series; one that walks no regular grid has no resolution.
#[derive(Debug)]
pub struct ReaderGrid {
    pub initial_timestamp: i64,
    pub resolution: Option<Period>,
    pub length: usize,
}

/// A reader's grid as a caller gets it.
#[derive(Debug)]
pub struct ReaderGridOut {
    pub initial_ms: i64,
    pub resolution: Option<String>,
    pub length: u64,
}

/// The grid of a reader of static series.
pub fn infrastore_static_reader_grid(reader: Option<&ReaderGrid>, outs: bool) -> (r: Result<
    ReaderGridOut,
    Failure,
>)
    ensures
        match (
            r,
            pointer_fault(reader is Some, "reader handle is null"@).or_next(
                pointer_fault(outs, "an out pointer is null"@),
            ),
        ) {
            (Ok(out), None) => {
                &&& out.initial_ms == reader->0.initial_timestamp
                &&& opt_text(out.resolution) == period_output(reader->0.resolution)
                &&& out.length == reader->0.length
            },
            (Err(f), Some(expected)) => f@ == expected,
            _ => false,
        },
{
    match reader {
        None => Err(fail(INFRASTORE_ERR_NULL_POINTER, "reader handle is null".to_string())),
        Some(grid) => match require_pointer(outs, "an out pointer is null") {
            Ok(_) => Ok(
                ReaderGridOut {
                    initial_ms: grid.initial_timestamp,
                    resolution: match &grid.resolution {
                        Some(p) => period_cstr(p),
                        None => None,
                    },
                    length: grid.length as u64,
                },
            ),
            Err(f) => Err(f),
        },
    }
}

/// The windows of a reader of forecasts.
#[derive(Debug)]
pub struct ReaderTimeline {
    pub initial_timestamp: i64,
    pub resolution: Period,
    pub interval: Period,
    pub count: usize,
}

/// A reader's windows as a caller gets them.
#[derive(Debug)]
pub struct ReaderTimelineOut {
    pub initial_ms: i64,
    pub resolution: Option<String>,
    pub interval: Option<String>,
    pub count: u64,
}

/// The windows of a reader of forecasts.
pub fn infrastore_forecast_reader_timeline(reader: Option<&ReaderTimeline>, outs: bool) -> (r:
    Result<ReaderTimelineOut, Failure>)
    ensures
        match (
            r,
            pointer_fault(reader is Some, "reader handle is null"@).or_next(
                pointer_fault(outs, "an out pointer is null"@),
            ),
        ) {
            (Ok(out), None) => {
                &&& out.initial_ms == reader->0.initial_timestamp
                &&& opt_text(out.resolution) == owned_text(reader->0.resolution@.iso)
                &&& opt_text(out.interval) == owned_text(reader->0.interval@.iso)
                &&& out.count == reader->0.count
            },
            (Err(f), Some(expected)) => f@ == expected,
            _ => false,
        },
{
    match reader {
        None => Err(fail(INFRASTORE_ERR_NULL_POINTER, "reader handle is null".to_string())),
        Some(timeline) => match require_pointer(outs, "an out pointer is null") {
            Ok(_) => Ok(
                ReaderTimelineOut {
                    initial_ms: timeline.initial_timestamp,
                    resolution: period_cstr(&timeline.resolution),
                    interval: period_cstr(&timeline.interval),
                    count: timeline.count as u64,
                },
            ),
            Err(f) => Err(f),
        },
    }
}

} // verus!
