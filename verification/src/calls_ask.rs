//! What a call of the C boundary asks of the store is what its arguments name, and a call whose
//! handle or whose place for an answer is missing asks nothing.
use crate::arguments::{
    read_by_id_plan, Argument, CText, CatalogMode, Compression, ReadWindow, TimeRange,
};
use crate::calls::{
    id_list, infrastore_batch_add_forecast, infrastore_batch_add_non_sequential,
    infrastore_batch_add_probabilistic,
    infrastore_batch_add_single, infrastore_forecast_reader_entry_id,
    infrastore_forecast_reader_entry_info, infrastore_forecast_reader_entry_slot,
    infrastore_forecast_reader_entry_values, infrastore_forecast_reader_num_entries,
    infrastore_forecast_reader_num_slots, infrastore_forecast_reader_read,
    infrastore_forecast_reader_time_reference, infrastore_forecast_reader_timeline,
    infrastore_static_reader_grid, infrastore_static_reader_group_id,
    infrastore_static_reader_group_info, infrastore_static_reader_group_values,
    infrastore_static_reader_num_groups, infrastore_static_reader_read,
    infrastore_static_reader_time_reference, infrastore_static_reader_timestamps,
    infrastore_store_add_forecast, infrastore_store_add_non_sequential,
    infrastore_store_add_parent_child_association,
    infrastore_store_add_parent_child_associations, infrastore_store_add_probabilistic,
    infrastore_store_add_single, infrastore_store_add_supplemental_attribute_association,
    infrastore_store_add_supplemental_attribute_associations, infrastore_store_association_exists,
    infrastore_store_begin_transaction, infrastore_store_build_forecast_reader,
    infrastore_store_build_static_reader, infrastore_store_catalog_mode,
    infrastore_store_check_static_consistency, infrastore_store_clear,
    infrastore_store_commit_transaction, infrastore_store_compact,
    infrastore_store_copy_time_series, infrastore_store_count_array_references,
    infrastore_store_count_parent_child_associations,
    infrastore_store_count_supplemental_attribute_associations, infrastore_store_counts,
    infrastore_store_counts_by_type, infrastore_store_counts_detailed, infrastore_store_create,
    infrastore_store_create_replacing, infrastore_store_create_with_catalog,
    infrastore_store_create_with_compression,
    infrastore_store_export_supplemental_attribute_associations_openapi,
    infrastore_store_export_time_series_associations_openapi, infrastore_store_flush,
    infrastore_store_forecast_summary, infrastore_store_get_array_by_hash,
    infrastore_store_get_compression, infrastore_store_get_forecast_parameters,
    infrastore_store_get_intervals, infrastore_store_get_metadata_by_id, infrastore_store_get_path,
    infrastore_store_get_resolutions, infrastore_store_has_any_by_filter,
    infrastore_store_has_by_attrs, infrastore_store_has_for_owner,
    infrastore_store_has_parent_child_association,
    infrastore_store_has_supplemental_attribute_association, infrastore_store_has_typed,
    infrastore_store_import_supplemental_attribute_associations_openapi,
    infrastore_store_import_time_series_associations_openapi, infrastore_store_in_transaction,
    infrastore_store_is_empty, infrastore_store_list_components_with_attributes,
    infrastore_store_list_metadata, infrastore_store_list_metadata_by_ids,
    infrastore_store_list_names, infrastore_store_list_owner_ids,
    infrastore_store_list_owner_types, infrastore_store_list_parent_child_associations,
    infrastore_store_list_parent_child_ids,
    infrastore_store_list_supplemental_attribute_associations,
    infrastore_store_list_supplemental_attribute_ids, infrastore_store_num_distinct_arrays,
    infrastore_store_open, infrastore_store_open_copy, infrastore_store_open_with_catalog,
    infrastore_store_open_without_catalog, infrastore_store_persist,
    infrastore_store_persist_arrays, infrastore_store_persist_catalog, infrastore_store_read_by_id,
    infrastore_store_read_by_ids, infrastore_store_read_by_ids_range, infrastore_store_read_only,
    infrastore_store_remove_by_filter, infrastore_store_remove_by_ids,
    infrastore_store_remove_parent_child_associations,
    infrastore_store_remove_supplemental_attribute_associations, infrastore_store_rename,
    infrastore_store_replace_owner, infrastore_store_replace_parent_child_component_id,
    infrastore_store_replace_supplemental_attribute_component_id,
    infrastore_store_rollback_transaction, infrastore_store_static_summary,
    infrastore_store_supplemental_attribute_counts_by_type,
    infrastore_store_supplemental_attribute_summary, infrastore_store_transform_single_time_series,
    infrastore_store_verify, ReaderGrid, ReaderGridOut, ReaderTimeline, ReaderTimelineOut,
};
use crate::filters::{
    build_list_filter, build_typed_key_from_attrs, exact_identity_filter, names_period,
    owner_filter, reader_filter, FilterArguments, FilterView, IdentityArguments, ListFilter,
    ReaderArguments,
};
use crate::handed_back::{
    carries_arguments, carries_forecast, carries_probabilistic, carries_single, gets, is_text,
    may_say, says,
};
use crate::instant::{is_instant, Period};
use crate::kinds::{OwnerCategory, TimeReference, TimeSeriesType};
use crate::probe::{
    assoc_filter_from_json, assoc_rows_from_json, transform_plan, zeros_are_found,
    AttachmentCount, Endpoint, TransformArguments, TransformPlan,
};
use crate::requests::{
    finish_non_sequential_request, AddRequest, ForecastArguments, NonSequentialArguments,
    NonSequentialDraft, ProbabilisticArguments, SingleArguments,
};
use crate::series::{opt_text, AxisView};
use crate::status::{Failure, INFRASTORE_ERR_NULL_POINTER};
use vstd::prelude::*;
use vstd::utf8::encode_utf8;

verus! {

/// A report is given exactly where there is a store or a reader to report on and a place to put
/// the report.
pub proof fn reports_need_a_handle_and_a_place(handle: bool, place: bool, answers: Seq<Result<(), Failure>>)
    requires
        answers.len() == 11,
        call_ensures(infrastore_store_counts, (handle, place), answers[0]),
        call_ensures(infrastore_store_counts_detailed, (handle, place), answers[1]),
        call_ensures(infrastore_store_get_compression, (handle, place), answers[2]),
        call_ensures(infrastore_store_verify, (handle, place), answers[3]),
        call_ensures(infrastore_store_read_only, (handle, place), answers[4]),
        call_ensures(infrastore_store_is_empty, (handle, place), answers[5]),
        call_ensures(infrastore_store_get_path, (handle, place), answers[6]),
        call_ensures(infrastore_store_counts_by_type, (handle, place), answers[7]),
        call_ensures(infrastore_store_static_summary, (handle, place), answers[8]),
        call_ensures(infrastore_store_forecast_summary, (handle, place), answers[9]),
        call_ensures(infrastore_store_supplemental_attribute_counts_by_type, (handle, place), answers[10]),
    ensures
        answers[0] is Ok <==> handle && place,
        answers[0] matches Err(f) ==> f.code == INFRASTORE_ERR_NULL_POINTER,
        answers[1] is Ok <==> handle && place,
        answers[1] matches Err(f) ==> f.code == INFRASTORE_ERR_NULL_POINTER,
        answers[2] is Ok <==> handle && place,
        answers[2] matches Err(f) ==> f.code == INFRASTORE_ERR_NULL_POINTER,
        answers[3] is Ok <==> handle && place,
        answers[3] matches Err(f) ==> f.code == INFRASTORE_ERR_NULL_POINTER,
        answers[4] is Ok <==> handle && place,
        answers[4] matches Err(f) ==> f.code == INFRASTORE_ERR_NULL_POINTER,
        answers[5] is Ok <==> handle && place,
        answers[5] matches Err(f) ==> f.code == INFRASTORE_ERR_NULL_POINTER,
        answers[6] is Ok <==> handle && place,
        answers[6] matches Err(f) ==> f.code == INFRASTORE_ERR_NULL_POINTER,
        answers[7] is Ok <==> handle && place,
        answers[7] matches Err(f) ==> f.code == INFRASTORE_ERR_NULL_POINTER,
        answers[8] is Ok <==> handle && place,
        answers[8] matches Err(f) ==> f.code == INFRASTORE_ERR_NULL_POINTER,
        answers[9] is Ok <==> handle && place,
        answers[9] matches Err(f) ==> f.code == INFRASTORE_ERR_NULL_POINTER,
        answers[10] is Ok <==> handle && place,
        answers[10] matches Err(f) ==> f.code == INFRASTORE_ERR_NULL_POINTER,
{
}

/// A lookup is made exactly where there is a store or a reader to look into and a place to put
/// the answer.
pub proof fn lookups_need_a_handle_and_a_place(handle: bool, place: bool, answers: Seq<Result<(), Failure>>)
    requires
        answers.len() == 14,
        call_ensures(infrastore_store_supplemental_attribute_summary, (handle, place), answers[0]),
        call_ensures(infrastore_store_num_distinct_arrays, (handle, place), answers[1]),
        call_ensures(infrastore_store_compact, (handle, place), answers[2]),
        call_ensures(infrastore_store_export_supplemental_attribute_associations_openapi, (handle, place), answers[3]),
        call_ensures(infrastore_store_get_metadata_by_id, (handle, place), answers[4]),
        call_ensures(infrastore_store_association_exists, (handle, place), answers[5]),
        call_ensures(infrastore_store_get_array_by_hash, (handle, place), answers[6]),
        call_ensures(infrastore_store_count_array_references, (handle, place), answers[7]),
        call_ensures(infrastore_static_reader_timestamps, (handle, place), answers[8]),
        call_ensures(infrastore_static_reader_num_groups, (handle, place), answers[9]),
        call_ensures(infrastore_forecast_reader_num_entries, (handle, place), answers[10]),
        call_ensures(infrastore_forecast_reader_num_slots, (handle, place), answers[11]),
        call_ensures(infrastore_store_catalog_mode, (place, handle), answers[12]),
        call_ensures(infrastore_store_in_transaction, (place, handle), answers[13]),
    ensures
        answers[0] is Ok <==> handle && place,
        answers[0] matches Err(f) ==> f.code == INFRASTORE_ERR_NULL_POINTER,
        answers[1] is Ok <==> handle && place,
        answers[1] matches Err(f) ==> f.code == INFRASTORE_ERR_NULL_POINTER,
        answers[2] is Ok <==> handle && place,
        answers[2] matches Err(f) ==> f.code == INFRASTORE_ERR_NULL_POINTER,
        answers[3] is Ok <==> handle && place,
        answers[3] matches Err(f) ==> f.code == INFRASTORE_ERR_NULL_POINTER,
        answers[4] is Ok <==> handle && place,
        answers[4] matches Err(f) ==> f.code == INFRASTORE_ERR_NULL_POINTER,
        answers[5] is Ok <==> handle && place,
        answers[5] matches Err(f) ==> f.code == INFRASTORE_ERR_NULL_POINTER,
        answers[6] is Ok <==> handle && place,
        answers[6] matches Err(f) ==> f.code == INFRASTORE_ERR_NULL_POINTER,
        answers[7] is Ok <==> handle && place,
        answers[7] matches Err(f) ==> f.code == INFRASTORE_ERR_NULL_POINTER,
        answers[8] is Ok <==> handle && place,
        answers[8] matches Err(f) ==> f.code == INFRASTORE_ERR_NULL_POINTER,
        answers[9] is Ok <==> handle && place,
        answers[9] matches Err(f) ==> f.code == INFRASTORE_ERR_NULL_POINTER,
        answers[10] is Ok <==> handle && place,
        answers[10] matches Err(f) ==> f.code == INFRASTORE_ERR_NULL_POINTER,
        answers[11] is Ok <==> handle && place,
        answers[11] matches Err(f) ==> f.code == INFRASTORE_ERR_NULL_POINTER,
        answers[12] is Ok <==> handle && place,
        answers[12] matches Err(f) ==> f.code == INFRASTORE_ERR_NULL_POINTER,
        answers[13] is Ok <==> handle && place,
        answers[13] matches Err(f) ==> f.code == INFRASTORE_ERR_NULL_POINTER,
{
}

/// An order that takes nothing is given exactly where there is a store to give it to.
pub proof fn orders_need_a_handle(handle: bool, answers: Seq<Result<(), Failure>>)
    requires
        answers.len() == 7,
        call_ensures(infrastore_store_begin_transaction, (handle,), answers[0]),
        call_ensures(infrastore_store_commit_transaction, (handle,), answers[1]),
        call_ensures(infrastore_store_rollback_transaction, (handle,), answers[2]),
        call_ensures(infrastore_store_flush, (handle,), answers[3]),
        call_ensures(infrastore_store_persist_catalog, (handle,), answers[4]),
        call_ensures(infrastore_store_replace_supplemental_attribute_component_id, (handle,), answers[5]),
        call_ensures(infrastore_store_replace_parent_child_component_id, (handle,), answers[6]),
    ensures
        answers[0] is Ok <==> handle,
        answers[0] matches Err(f) ==> f.code == INFRASTORE_ERR_NULL_POINTER,
        answers[1] is Ok <==> handle,
        answers[1] matches Err(f) ==> f.code == INFRASTORE_ERR_NULL_POINTER,
        answers[2] is Ok <==> handle,
        answers[2] matches Err(f) ==> f.code == INFRASTORE_ERR_NULL_POINTER,
        answers[3] is Ok <==> handle,
        answers[3] matches Err(f) ==> f.code == INFRASTORE_ERR_NULL_POINTER,
        answers[4] is Ok <==> handle,
        answers[4] matches Err(f) ==> f.code == INFRASTORE_ERR_NULL_POINTER,
        answers[5] is Ok <==> handle,
        answers[5] matches Err(f) ==> f.code == INFRASTORE_ERR_NULL_POINTER,
        answers[6] is Ok <==> handle,
        answers[6] matches Err(f) ==> f.code == INFRASTORE_ERR_NULL_POINTER,
{
}

/// Whether a call asks with the filter its arguments name.
pub open spec fn asks_with(r: Result<ListFilter, Failure>, one: Result<ListFilter, Failure>) -> bool {
    match (r, one) {
        (Ok(f), Ok(g)) => f@.owner_id == g@.owner_id && f@.owner_category == g@.owner_category
            && f@.time_series_type == g@.time_series_type && f@.name == g@.name && f@.name_glob
            == g@.name_glob && f@.resolution == g@.resolution && f@.interval == g@.interval
            && f@.features_exact == g@.features_exact && f@.component_field == g@.component_field
            && f@.zoneless == g@.zoneless && (f@.features is Some <==> g@.features is Some),
        (Err(f), Err(g)) => f@ == g@,
        _ => false,
    }
}

/// Every call over a filter asks with the same filter for the same arguments, and asks nothing
/// without a store and a place for the answer.
pub proof fn filters_are_asked_with_alike(
    handle: bool,
    place: bool,
    a: FilterArguments,
    one: Result<ListFilter, Failure>,
    asked: Seq<Result<ListFilter, Failure>>,
)
    requires
        call_ensures(build_list_filter, (a,), one),
        asked.len() == 6,
        call_ensures(infrastore_store_has_any_by_filter, (handle, place, a), asked[0]),
        call_ensures(infrastore_store_remove_by_filter, (handle, place, a), asked[1]),
        call_ensures(infrastore_store_list_metadata, (handle, place, a), asked[2]),
        call_ensures(infrastore_store_list_names, (handle, place, a), asked[3]),
        call_ensures(infrastore_store_list_owner_types, (handle, place, a), asked[4]),
        call_ensures(infrastore_store_export_time_series_associations_openapi, (handle, place, a), asked[5]),
    ensures
        !(handle && place) ==> asked[0] is Err,
        handle && place ==> asks_with(asked[0], one),
        !(handle && place) ==> asked[1] is Err,
        handle && place ==> asks_with(asked[1], one),
        !(handle && place) ==> asked[2] is Err,
        handle && place ==> asks_with(asked[2], one),
        !(handle && place) ==> asked[3] is Err,
        handle && place ==> asks_with(asked[3], one),
        !(handle && place) ==> asked[4] is Err,
        handle && place ==> asks_with(asked[4], one),
        !(handle && place) ==> asked[5] is Err,
        handle && place ==> asks_with(asked[5], one),
{
}

/// Asking whether a series is there addresses it as a key does; without a type, a regular series
/// of any interval.
pub proof fn presence_is_asked_of_one_series(
    handle: bool,
    place: bool,
    a: IdentityArguments,
    ts_type: i32,
    interval: Argument<Period>,
    key: Result<ListFilter, Failure>,
    asked_typed: Result<ListFilter, Failure>,
    plain: Result<ListFilter, Failure>,
    asked: Result<ListFilter, Failure>,
)
    requires
        call_ensures(build_typed_key_from_attrs, (a, ts_type, interval), key),
        call_ensures(infrastore_store_has_typed, (handle, place, a, ts_type, interval), asked_typed),
        call_ensures(exact_identity_filter, (a, None::<Period>), plain),
        call_ensures(infrastore_store_has_by_attrs, (handle, place, a), asked),
    ensures
        !(handle && place) ==> asked_typed is Err && asked is Err,
        handle && place ==> asks_with(asked_typed, key),
        handle && place ==> (asked is Ok <==> plain is Ok),
        asked matches Ok(f) ==> f@.time_series_type == Some(TimeSeriesType::SingleTimeSeries)
            && f@.interval is None && f@.owner_id == Some(a.owner_id) && f@.features_exact,
        asked is Ok && plain is Ok ==> asked->Ok_0@.name == plain->Ok_0@.name
            && asked->Ok_0@.owner_category == plain->Ok_0@.owner_category
            && asked->Ok_0@.resolution == plain->Ok_0@.resolution,
{
}

/// Asking whether an owner has series asks with the owner's filter.
pub proof fn presence_is_asked_of_one_owner(
    handle: bool,
    place: bool,
    owner_id: i64,
    category: i32,
    use_type: bool,
    ts_type: i32,
    one: Result<ListFilter, Failure>,
    asked: Result<ListFilter, Failure>,
)
    requires
        call_ensures(owner_filter, (owner_id, category, use_type, ts_type), one),
        call_ensures(
            infrastore_store_has_for_owner,
            (handle, place, owner_id, category, use_type, ts_type),
            asked,
        ),
    ensures
        !(handle && place) ==> asked is Err,
        handle && place ==> asks_with(asked, one),
{
}

/// A reader is built over the series its arguments name, of the type it names: any type for a
/// reader of static series to refuse, and the forecasts alone for one of forecasts.
pub proof fn readers_are_built_of_one_type(
    handle: bool,
    place: bool,
    ts_type: i32,
    a: ReaderArguments,
    one: Result<ListFilter, Failure>,
    of_static: Result<ListFilter, Failure>,
    of_forecasts: Result<ListFilter, Failure>,
)
    requires
        call_ensures(reader_filter, (a,), one),
        call_ensures(infrastore_store_build_static_reader, (handle, place, ts_type, a), of_static),
        call_ensures(
            infrastore_store_build_forecast_reader,
            (handle, place, ts_type, a),
            of_forecasts,
        ),
    ensures
        of_static is Ok ==> handle && place && one is Ok && 0 <= ts_type <= 5,
        handle && place && one is Ok && 0 <= ts_type <= 5 ==> of_static is Ok,
        of_forecasts is Ok ==> handle && place && one is Ok && 2 <= ts_type <= 5,
        handle && place && one is Ok && 2 <= ts_type <= 5 ==> of_forecasts is Ok,
        of_static matches Ok(f) ==> (f@.time_series_type matches Some(t) && t.number() == ts_type)
            && same_but_for_type(f@, one->Ok_0@),
        of_forecasts matches Ok(f) ==> (f@.time_series_type matches Some(t) && t.number()
            == ts_type && t.forecasts()) && same_but_for_type(f@, one->Ok_0@),
{
}

/// Whether two filters agree but for the type.
pub open spec fn same_but_for_type(f: FilterView, g: FilterView) -> bool {
    f.owner_id == g.owner_id && f.owner_category == g.owner_category && f.name == g.name
        && f.name_glob == g.name_glob && f.resolution == g.resolution && f.interval == g.interval
        && f.features_exact == g.features_exact && f.component_field == g.component_field
        && f.zoneless == g.zoneless
}

/// Whether a compression is the one that codes name.
pub open spec fn names_compression(c: Compression, kind: u8, level: u8, shuffle: bool) -> bool {
    match c {
        Compression::Uncompressed => kind == 0,
        Compression::Deflate { level: l, shuffle: s } => kind == 1 && l == level && s == shuffle,
    }
}

/// Whether a catalog placement is the one that a code names.
pub open spec fn names_catalog(c: CatalogMode, mode: u8) -> bool {
    match c {
        CatalogMode::Attached => mode == 0,
        CatalogMode::InMemory => mode == 1,
    }
}

/// A store is created at the path, with the compression and with the catalog that are named;
/// without a path where none is, except where it is to replace another.
pub proof fn stores_are_created_as_named(
    out: bool,
    path: CText,
    kind: u8,
    level: u8,
    shuffle: bool,
    mode: u8,
    plain: Result<Option<String>, Failure>,
    compressed: Result<(Option<String>, Compression), Failure>,
    placed: Result<(Option<String>, Compression, CatalogMode), Failure>,
    replacing: Result<(String, Compression, CatalogMode), Failure>,
)
    requires
        call_ensures(infrastore_store_create, (out, &path), plain),
        call_ensures(
            infrastore_store_create_with_compression,
            (out, &path, kind, level, shuffle),
            compressed,
        ),
        call_ensures(
            infrastore_store_create_with_catalog,
            (out, &path, kind, level, shuffle, mode),
            placed,
        ),
        call_ensures(
            infrastore_store_create_replacing,
            (out, &path, kind, level, shuffle, mode),
            replacing,
        ),
    ensures
        plain is Ok <==> out && (path is None || is_text(path)),
        compressed is Ok <==> plain is Ok && kind <= 1,
        placed is Ok <==> compressed is Ok && mode <= 1,
        replacing is Ok <==> placed is Ok && path is Some,
        plain matches Ok(p) ==> may_say(path, opt_text(p)),
        compressed matches Ok((p, c)) ==> may_say(path, opt_text(p)) && names_compression(
            c,
            kind,
            level,
            shuffle,
        ),
        placed matches Ok((p, c, m)) ==> may_say(path, opt_text(p)) && names_compression(
            c,
            kind,
            level,
            shuffle,
        ) && names_catalog(m, mode),
        replacing matches Ok((p, c, m)) ==> says(path, p@) && names_compression(
            c,
            kind,
            level,
            shuffle,
        ) && names_catalog(m, mode),
{
}

/// A store is opened at the path that is named, with the catalog that is named; a copy is opened
/// from the source and made at the destination.
pub proof fn stores_are_opened_as_named(
    out: bool,
    path: CText,
    dest: CText,
    mode: u8,
    plain: Result<String, Failure>,
    placed: Result<(String, CatalogMode), Failure>,
    without: Result<(String, CatalogMode), Failure>,
    copied: Result<(String, String, CatalogMode), Failure>,
)
    requires
        call_ensures(infrastore_store_open, (out, &path), plain),
        call_ensures(infrastore_store_open_with_catalog, (out, &path, mode), placed),
        call_ensures(infrastore_store_open_without_catalog, (out, &path, mode), without),
        call_ensures(infrastore_store_open_copy, (out, &path, &dest, mode), copied),
    ensures
        plain is Ok <==> out && is_text(path),
        placed is Ok <==> plain is Ok && mode <= 1,
        without is Ok <==> plain is Ok && mode <= 1,
        copied is Ok <==> placed is Ok && is_text(dest),
        plain matches Ok(p) ==> says(path, p@),
        placed matches Ok((p, m)) ==> says(path, p@) && names_catalog(m, mode),
        without matches Ok((p, m)) ==> says(path, p@) && names_catalog(m, mode),
        copied matches Ok((from, to, m)) ==> says(path, from@) && says(dest, to@) && names_catalog(
            m,
            mode,
        ),
{
}

/// A store is kept at the path that is named, a series is renamed to the name that is given, and
/// copied to the owner type that is given, under its own name where no other is.
pub proof fn names_are_taken_as_given(
    handle: bool,
    path: CText,
    other: CText,
    kept: Result<String, Failure>,
    arrays: Result<String, Failure>,
    renamed: Result<String, Failure>,
    copied: Result<(String, Option<String>), Failure>,
)
    requires
        call_ensures(infrastore_store_persist, (handle, &path), kept),
        call_ensures(infrastore_store_persist_arrays, (handle, &path), arrays),
        call_ensures(infrastore_store_rename, (handle, &path), renamed),
        call_ensures(infrastore_store_copy_time_series, (handle, &path, &other), copied),
    ensures
        kept is Ok <==> handle && is_text(path),
        arrays is Ok <==> handle && is_text(path),
        renamed is Ok <==> handle && is_text(path),
        copied is Ok <==> handle && is_text(path) && (other is None || is_text(other)),
        kept matches Ok(p) ==> says(path, p@),
        arrays matches Ok(p) ==> says(path, p@),
        renamed matches Ok(p) ==> says(path, p@),
        copied matches Ok((owner_type, name)) ==> says(path, owner_type@) && may_say(
            other,
            opt_text(name),
        ),
{
}

/// The ids a call names are those it is given, in their order, and none where it names none,
/// whatever the pointer; they are removed, read and listed alike.
pub proof fn ids_are_asked_for_as_given(
    handle: bool,
    place: bool,
    n: u64,
    ids: Option<Vec<i64>>,
    has_owner: bool,
    owner_id: i64,
    category: i32,
    named: Result<Vec<i64>, Failure>,
    read: Result<Vec<i64>, Failure>,
    listed: Result<Vec<i64>, Failure>,
    removed: Result<(Vec<i64>, Option<(i64, OwnerCategory)>), Failure>,
    cleared: Result<Option<(i64, OwnerCategory)>, Failure>,
)
    requires
        call_ensures(id_list, (n, ids), named),
        call_ensures(infrastore_store_read_by_ids, (handle, place, n, ids), read),
        call_ensures(infrastore_store_list_metadata_by_ids, (handle, place, n, ids), listed),
        call_ensures(
            infrastore_store_remove_by_ids,
            (handle, place, n, ids, has_owner, owner_id, category),
            removed,
        ),
        call_ensures(infrastore_store_clear, (handle, has_owner, owner_id, category), cleared),
    ensures
        named is Ok <==> n == 0 || ids is Some,
        n == 0 ==> named->Ok_0@.len() == 0,
        n > 0 && ids is Some ==> named->Ok_0@ == ids->0@,
        read is Ok <==> handle && place && named is Ok,
        listed is Ok <==> handle && place && named is Ok,
        removed is Ok <==> handle && place && named is Ok && (has_owner ==> 0 <= category <= 1),
        cleared is Ok <==> handle && (has_owner ==> 0 <= category <= 1),
        read matches Ok(v) ==> v@ == named->Ok_0@,
        listed matches Ok(v) ==> v@ == named->Ok_0@,
        removed matches Ok((v, owner)) ==> v@ == named->Ok_0@ && guards(
            owner,
            has_owner,
            owner_id,
            category,
        ),
        cleared matches Ok(owner) ==> guards(owner, has_owner, owner_id, category),
{
}

/// Whether an owner guard is the one that is named.
pub open spec fn guards(
    owner: Option<(i64, OwnerCategory)>,
    has_owner: bool,
    owner_id: i64,
    category: i32,
) -> bool {
    &&& owner is Some <==> has_owner
    &&& owner matches Some((id, c)) ==> id == owner_id && (c == OwnerCategory::Component <==> category
        == 0)
}

/// A read over a range asks for the ids it is given, from the start to the end.
pub proof fn ranges_are_asked_for_as_given(
    handle: bool,
    place: bool,
    n: u64,
    ids: Option<Vec<i64>>,
    zoneless: bool,
    start_ms: i64,
    end_ms: i64,
    named: Result<Vec<i64>, Failure>,
    r: Result<(Vec<i64>, Option<TimeRange>), Failure>,
)
    requires
        call_ensures(id_list, (n, ids), named),
        call_ensures(
            infrastore_store_read_by_ids_range,
            (handle, place, n, ids, zoneless, start_ms, end_ms),
            r,
        ),
    ensures
        r is Ok <==> handle && place && named is Ok && is_instant(start_ms as int) && is_instant(
            end_ms as int,
        ),
        r matches Ok((v, range)) ==> v@ == named->Ok_0@ && range == Some(
            TimeRange { start: start_ms, end: end_ms, zoneless },
        ),
{
}

/// A read by id asks for the window and the owner that a plan of the same arguments has.
pub proof fn reads_by_id_follow_their_plan(
    handle: bool,
    place: bool,
    start_present: bool,
    start_zoneless: bool,
    start_ms: i64,
    len_present: bool,
    len: u64,
    count_present: bool,
    count: u64,
    has_owner: bool,
    owner_id: i64,
    category: i32,
    plan: Result<(ReadWindow, Option<(i64, OwnerCategory)>), Failure>,
    r: Result<(ReadWindow, Option<(i64, OwnerCategory)>), Failure>,
)
    requires
        call_ensures(
            read_by_id_plan,
            (
                start_present,
                start_zoneless,
                start_ms,
                len_present,
                len,
                count_present,
                count,
                has_owner,
                owner_id,
                category,
            ),
            plan,
        ),
        call_ensures(
            infrastore_store_read_by_id,
            (
                handle,
                place,
                start_present,
                start_zoneless,
                start_ms,
                len_present,
                len,
                count_present,
                count,
                has_owner,
                owner_id,
                category,
            ),
            r,
        ),
    ensures
        r is Ok <==> handle && place && plan is Ok,
        r is Ok ==> r->Ok_0 == plan->Ok_0,
{
}

/// What narrows a report is what is named: the category, the type where one is, and the
/// resolution and the interval, each by the argument of its own name.
pub proof fn reports_are_narrowed_as_named(
    handle: bool,
    place: bool,
    category: i32,
    named: bool,
    code: i32,
    resolution: Argument<Period>,
    interval: Argument<Period>,
    owners: Result<(OwnerCategory, Option<TimeSeriesType>, Option<Period>), Failure>,
    parameters: Result<(Option<Period>, Option<Period>), Failure>,
    consistency: Result<Option<Period>, Failure>,
    resolutions: Result<Option<TimeSeriesType>, Failure>,
    intervals: Result<Option<TimeSeriesType>, Failure>,
    replaced: Result<OwnerCategory, Failure>,
)
    requires
        call_ensures(
            infrastore_store_list_owner_ids,
            (handle, place, category, named, code, resolution),
            owners,
        ),
        call_ensures(
            infrastore_store_get_forecast_parameters,
            (handle, place, resolution, interval),
            parameters,
        ),
        call_ensures(
            infrastore_store_check_static_consistency,
            (handle, place, resolution),
            consistency,
        ),
        call_ensures(infrastore_store_get_resolutions, (handle, place, named, code), resolutions),
        call_ensures(infrastore_store_get_intervals, (handle, place, named, code), intervals),
        call_ensures(infrastore_store_replace_owner, (handle, category), replaced),
    ensures
        owners is Ok ==> handle && place && 0 <= category <= 1,
        parameters is Ok ==> handle && place,
        consistency is Ok ==> handle && place,
        resolutions is Ok <==> handle && place && (named ==> 0 <= code <= 5),
        intervals is Ok <==> handle && place && (named ==> 0 <= code <= 5),
        replaced is Ok <==> handle && 0 <= category <= 1,
        owners matches Ok((c, t, p)) ==> (c == OwnerCategory::Component <==> category == 0) && (
        t is Some <==> named) && (t matches Some(t) ==> t.number() == code) && names_period(
            p,
            resolution,
        ),
        parameters matches Ok((p, q)) ==> names_period(p, resolution) && names_period(q, interval),
        consistency matches Ok(p) ==> names_period(p, resolution),
        resolutions matches Ok(t) ==> (t is Some <==> named) && (t matches Some(t) ==> t.number()
            == code),
        intervals matches Ok(t) ==> (t is Some <==> named) && (t matches Some(t) ==> t.number()
            == code),
        replaced matches Ok(c) ==> (c == OwnerCategory::Component <==> category == 0),
{
}

/// An association is made of the two types that are named, the first first: the component's and
/// the attribute's, the parent's and the child's. A document is imported as it is given.
pub proof fn associations_are_made_as_named(
    handle: bool,
    first: CText,
    second: CText,
    attached: Result<(String, String), Failure>,
    related: Result<(String, String), Failure>,
    series: Result<String, Failure>,
    attributes: Result<String, Failure>,
)
    requires
        call_ensures(
            infrastore_store_add_supplemental_attribute_association,
            (handle, &first, &second),
            attached,
        ),
        call_ensures(
            infrastore_store_add_parent_child_association,
            (handle, &first, &second),
            related,
        ),
        call_ensures(
            infrastore_store_import_time_series_associations_openapi,
            (handle, &first),
            series,
        ),
        call_ensures(
            infrastore_store_import_supplemental_attribute_associations_openapi,
            (handle, &first),
            attributes,
        ),
    ensures
        attached is Ok <==> handle && is_text(first) && is_text(second),
        related is Ok <==> handle && is_text(first) && is_text(second),
        series is Ok <==> handle && is_text(first),
        attributes is Ok <==> handle && is_text(first),
        attached matches Ok((a, b)) ==> says(first, a@) && says(second, b@),
        related matches Ok((a, b)) ==> says(first, a@) && says(second, b@),
        series matches Ok(a) ==> says(first, a@),
        attributes matches Ok(a) ==> says(first, a@),
{
}

/// A reader reads at the instant it is asked for, and only at an instant.
pub proof fn readers_read_where_asked(
    reader: bool,
    store: bool,
    at: i64,
    of_static: Result<i64, Failure>,
    of_forecasts: Result<i64, Failure>,
)
    requires
        call_ensures(infrastore_static_reader_read, (reader, store, at), of_static),
        call_ensures(infrastore_forecast_reader_read, (reader, store, at), of_forecasts),
    ensures
        of_static is Ok <==> reader && store && is_instant(at as int),
        of_forecasts is Ok <==> reader && store && is_instant(at as int),
        of_static matches Ok(v) ==> v == at,
        of_forecasts matches Ok(v) ==> v == at,
{
}

/// A group, an entry or a column of a reader is looked at exactly where there is one at the
/// index, and it is the one at the index.
pub proof fn readers_are_indexed_within(
    reader: bool,
    place: bool,
    index: u64,
    length: usize,
    found: Seq<Result<usize, Failure>>,
    column: u64,
    columns: Vec<usize>,
    id: Result<(usize, usize), Failure>,
)
    requires
        found.len() == 6,
        call_ensures(infrastore_static_reader_group_info, (reader, place, index, length), found[0]),
        call_ensures(infrastore_static_reader_group_values, (reader, place, index, length), found[1]),
        call_ensures(infrastore_forecast_reader_entry_info, (reader, place, index, length), found[2]),
        call_ensures(
            infrastore_forecast_reader_entry_values,
            (reader, place, index, length),
            found[3],
        ),
        call_ensures(infrastore_forecast_reader_entry_slot, (reader, place, index, length), found[4]),
        call_ensures(infrastore_forecast_reader_entry_id, (reader, place, index, length), found[5]),
        call_ensures(
            infrastore_static_reader_group_id,
            (reader, index, &columns, place, column),
            id,
        ),
        columns@.len() <= usize::MAX,
    ensures
        forall|i: int|
            0 <= i < 6 ==> (#[trigger] found[i] is Ok <==> reader && place && index < length),
        forall|i: int| 0 <= i < 6 ==> (#[trigger] found[i] matches Ok(v) ==> v == index),
        id is Ok <==> reader && place && index < columns@.len() && column < columns@[index as int],
        id matches Ok((group, col)) ==> group == index && col == column,
{
    assert forall|i: int| 0 <= i < 6 implies (#[trigger] found[i] is Ok <==> reader && place && index
        < length) && (found[i] matches Ok(v) ==> v == index) by {
        if i == 0 {
        } else if i == 1 {
        } else if i == 2 {
        } else if i == 3 {
        } else if i == 4 {
        } else {
            assert(i == 5);
        }
    }
}

/// A transform is asked of the store as it is planned from the same arguments.
pub proof fn transforms_follow_their_plan(
    handle: bool,
    place: bool,
    a: TransformArguments,
    plan: Result<TransformPlan, Failure>,
    r: Result<TransformPlan, Failure>,
)
    requires
        call_ensures(transform_plan, (a,), plan),
        call_ensures(infrastore_store_transform_single_time_series, (handle, place, a), r),
    ensures
        r is Ok ==> handle && place && plan is Ok,
        handle && place && plan is Ok ==> r is Ok,
        r is Ok ==> r->Ok_0 == plan->Ok_0,
{
}

/// Adding to the store and adding to a batch ask for the same series, the one the arguments name.
pub proof fn batches_hold_what_a_store_would_add(
    handle: bool,
    single: SingleArguments,
    forecast: ForecastArguments,
    probabilistic: ProbabilisticArguments,
    stored: Seq<Result<AddRequest, Failure>>,
    batched: Seq<Result<AddRequest, Failure>>,
)
    requires
        stored.len() == 3,
        batched.len() == 3,
        call_ensures(infrastore_store_add_single, (handle, single), stored[0]),
        call_ensures(infrastore_batch_add_single, (handle, single), batched[0]),
        call_ensures(infrastore_store_add_forecast, (handle, forecast), stored[1]),
        call_ensures(infrastore_batch_add_forecast, (handle, forecast), batched[1]),
        call_ensures(infrastore_store_add_probabilistic, (handle, probabilistic), stored[2]),
        call_ensures(infrastore_batch_add_probabilistic, (handle, probabilistic), batched[2]),
    ensures
        forall|i: int| 0 <= i < 3 ==> (#[trigger] stored[i] is Ok ==> handle),
        forall|i: int| 0 <= i < 3 && handle ==> (stored[i] is Ok <==> #[trigger] batched[i] is Ok),
        stored[0] is Ok ==> carries_single(stored[0]->Ok_0, single),
        batched[0] is Ok ==> carries_single(batched[0]->Ok_0, single),
        stored[1] is Ok ==> carries_forecast(stored[1]->Ok_0, forecast),
        batched[1] is Ok ==> carries_forecast(batched[1]->Ok_0, forecast),
        stored[2] is Ok ==> carries_probabilistic(stored[2]->Ok_0, probabilistic),
        batched[2] is Ok ==> carries_probabilistic(batched[2]->Ok_0, probabilistic),
{
}

/// The grid of a reader comes out each part under its own name, and so do the windows of a
/// reader of forecasts.
pub proof fn reader_grids_come_out_by_name(
    grid: ReaderGrid,
    timeline: ReaderTimeline,
    outs: bool,
    of_grid: Result<ReaderGridOut, Failure>,
    of_timeline: Result<ReaderTimelineOut, Failure>,
)
    requires
        call_ensures(infrastore_static_reader_grid, (Some(&grid), outs), of_grid),
        call_ensures(infrastore_forecast_reader_timeline, (Some(&timeline), outs), of_timeline),
    ensures
        of_grid is Ok <==> outs,
        of_timeline is Ok <==> outs,
        of_grid matches Ok(out) ==> {
            &&& out.initial_ms == grid.initial_timestamp
            &&& out.length == grid.length
            &&& grid.resolution is None ==> out.resolution is None
            &&& grid.resolution matches Some(p) ==> gets(out.resolution, p.iso@)
        },
        of_timeline matches Ok(out) ==> {
            &&& out.initial_ms == timeline.initial_timestamp
            &&& out.count == timeline.count
            &&& gets(out.resolution, timeline.resolution.iso@)
            &&& gets(out.interval, timeline.interval.iso@)
        },
{
    if let Some(p) = grid.resolution {
        zeros_are_found(encode_utf8(p.iso@), 0);
    }
    zeros_are_found(encode_utf8(timeline.resolution.iso@), 0);
    zeros_are_found(encode_utf8(timeline.interval.iso@), 0);
}

/// The time reference of a reader comes out as it is stored, and nothing where it has none.
pub proof fn reader_references_come_out(
    reference: Option<TimeReference>,
    out: bool,
    of_static: Result<Option<String>, Failure>,
    of_forecasts: Result<Option<String>, Failure>,
)
    requires
        call_ensures(infrastore_static_reader_time_reference, (Some(&reference), out), of_static),
        call_ensures(
            infrastore_forecast_reader_time_reference,
            (Some(&reference), out),
            of_forecasts,
        ),
    ensures
        of_static is Ok <==> out,
        of_forecasts is Ok <==> out,
        of_static matches Ok(text) ==> match reference {
            None => text is None,
            Some(t) => gets(text, t@.storage_text()),
        },
        of_forecasts matches Ok(text) ==> match reference {
            None => text is None,
            Some(t) => gets(text, t@.storage_text()),
        },
{
    if let Some(t) = reference {
        zeros_are_found(encode_utf8(t@.storage_text()), 0);
    }
}

/// Whether a call asks with the association filter its argument names.
pub open spec fn asks_associations<T>(
    r: Result<Option<T>, Failure>,
    reachable: bool,
    one: Result<Option<T>, Failure>,
) -> bool {
    &&& r is Ok <==> reachable && one is Ok
    &&& r is Ok ==> r->Ok_0 == one->Ok_0
}

/// Every call over associations asks with the same filter for the same argument; a removal needs
/// no place for an answer, and every other does.
pub proof fn associations_are_asked_for_alike<T>(
    handle: bool,
    place: bool,
    filter: Argument<T>,
    one: Result<Option<T>, Failure>,
    asked: Seq<Result<Option<T>, Failure>>,
    kind: i32,
    counted: Result<(Option<T>, AttachmentCount), Failure>,
    endpoint: i32,
    ends: Result<(Option<T>, Endpoint), Failure>,
)
    requires
        call_ensures(assoc_filter_from_json::<T>, (filter,), one),
        asked.len() == 9,
        call_ensures(infrastore_store_has_supplemental_attribute_association::<T>, (handle, place, filter), asked[0]),
        call_ensures(infrastore_store_list_supplemental_attribute_associations::<T>, (handle, place, filter), asked[1]),
        call_ensures(infrastore_store_list_supplemental_attribute_ids::<T>, (handle, place, filter), asked[2]),
        call_ensures(infrastore_store_list_components_with_attributes::<T>, (handle, place, filter), asked[3]),
        call_ensures(infrastore_store_has_parent_child_association::<T>, (handle, place, filter), asked[4]),
        call_ensures(infrastore_store_list_parent_child_associations::<T>, (handle, place, filter), asked[5]),
        call_ensures(infrastore_store_count_parent_child_associations::<T>, (handle, place, filter), asked[6]),
        call_ensures(infrastore_store_remove_supplemental_attribute_associations::<T>, (handle, filter), asked[7]),
        call_ensures(infrastore_store_remove_parent_child_associations::<T>, (handle, filter), asked[8]),
        call_ensures(
            infrastore_store_count_supplemental_attribute_associations::<T>,
            (handle, place, filter, kind),
            counted,
        ),
        call_ensures(
            infrastore_store_list_parent_child_ids::<T>,
            (handle, place, filter, endpoint),
            ends,
        ),
    ensures
        asks_associations(asked[0], handle && place, one),
        asks_associations(asked[1], handle && place, one),
        asks_associations(asked[2], handle && place, one),
        asks_associations(asked[3], handle && place, one),
        asks_associations(asked[4], handle && place, one),
        asks_associations(asked[5], handle && place, one),
        asks_associations(asked[6], handle && place, one),
        asks_associations(asked[7], handle, one),
        asks_associations(asked[8], handle, one),
        counted is Ok <==> handle && place && one is Ok && 0 <= kind <= 2,
        counted matches Ok((f, k)) ==> f == one->Ok_0 && (k == AttachmentCount::Rows <==> kind == 0)
            && (k == AttachmentCount::Attributes <==> kind == 1),
        ends is Ok <==> handle && place && one is Ok && 0 <= endpoint <= 1,
        ends matches Ok((f, e)) ==> f == one->Ok_0 && (e == Endpoint::Parent <==> endpoint == 0),
{
}

/// Associations are added as they are read, of either sort.
pub proof fn associations_are_added_as_read<T>(
    handle: bool,
    rows: Argument<Vec<T>>,
    one: Result<Vec<T>, Failure>,
    attached: Result<Vec<T>, Failure>,
    related: Result<Vec<T>, Failure>,
)
    requires
        call_ensures(assoc_rows_from_json::<T>, (rows,), one),
        call_ensures(
            infrastore_store_add_supplemental_attribute_associations::<T>,
            (handle, rows),
            attached,
        ),
        call_ensures(infrastore_store_add_parent_child_associations::<T>, (handle, rows), related),
    ensures
        attached is Ok <==> handle && one is Ok,
        related is Ok <==> handle && one is Ok,
        attached is Ok ==> attached->Ok_0 == one->Ok_0,
        related is Ok ==> related->Ok_0 == one->Ok_0,
{
}

/// A series of instants is drafted alike for a store and for a batch, and what is added of the
/// draft carries the arguments and the instants of the call.
pub proof fn batches_hold_the_instants_a_store_would_add(
    handle: bool,
    a: NonSequentialArguments,
    stored: Result<NonSequentialDraft, Failure>,
    batched: Result<NonSequentialDraft, Failure>,
    verdict: Result<(), String>,
    of_stored: Result<AddRequest, Failure>,
    of_batched: Result<AddRequest, Failure>,
)
    requires
        call_ensures(infrastore_store_add_non_sequential, (handle, a), stored),
        call_ensures(infrastore_batch_add_non_sequential, (handle, a), batched),
        stored is Ok ==> call_ensures(
            finish_non_sequential_request,
            (stored->Ok_0, verdict),
            of_stored,
        ),
        batched is Ok ==> call_ensures(
            finish_non_sequential_request,
            (batched->Ok_0, verdict),
            of_batched,
        ),
    ensures
        stored is Ok ==> handle,
        stored is Ok <==> batched is Ok,
        !handle ==> stored->Err_0.code == INFRASTORE_ERR_NULL_POINTER && batched->Err_0.code
            == INFRASTORE_ERR_NULL_POINTER,
        stored is Ok && of_stored is Ok ==> {
            &&& verdict is Ok
            &&& carries_arguments(of_stored->Ok_0, a.series)
            &&& of_stored->Ok_0.data@.axis matches AxisView::NonSequentialTimeSeries { timestamps }
                && (a.timestamps_unix_ms matches Some(t) && t@ == timestamps)
        },
        batched is Ok && of_batched is Ok ==> {
            &&& verdict is Ok
            &&& carries_arguments(of_batched->Ok_0, a.series)
            &&& of_batched->Ok_0.data@.axis matches AxisView::NonSequentialTimeSeries { timestamps }
                && (a.timestamps_unix_ms matches Some(t) && t@ == timestamps)
        },
        stored is Ok ==> (of_stored is Ok <==> of_batched is Ok),
{
}

} // verus!
