//! What a caller of the C boundary hands over is what a caller gets back: each argument comes out
//! under its own name.
use crate::arguments::{Argument, CText};
use crate::array::ArrayView;
use crate::instant::{is_instant, Period};
use crate::kinds::{unit_system_spelling_reads_back, OwnerCategory, TimeSeriesType, UnitSystem};
use crate::probe::{owned_text, zeros_are_found};
use crate::requests::{
    build_forecast_request, build_non_sequential_request, build_probabilistic_request,
    build_single_request, finish_non_sequential_request, AddRequest, ForecastArguments,
    NonSequentialArguments, NonSequentialDraft, ProbabilisticArguments, SeriesArguments,
    SingleArguments,
};
use crate::results::{
    infrastore_bulk_result_get_forecast, infrastore_bulk_result_get_non_sequential,
    infrastore_bulk_result_get_single, BulkItem, DescriptorsOut, ForecastOut, NonSequentialOut,
    SingleOut, Wanted,
};
use crate::rows::grid_of_axis;
use crate::series::{opt_text, AxisView, DescriptorsView};
use crate::status::Failure;
use vstd::prelude::*;
use vstd::utf8::{decode_utf8, encode_utf8, valid_utf8};

verus! {

/// Whether a string argument says a text.
pub open spec fn says(p: CText, text: Seq<char>) -> bool {
    p matches Some(bytes) && valid_utf8(bytes@) && decode_utf8(bytes@) == text
}

/// Whether an optional string argument says a text, or is null where there is none.
pub open spec fn may_say(p: CText, text: Option<Seq<char>>) -> bool {
    match text {
        Some(text) => says(p, text),
        None => p is None,
    }
}

/// Whether a text can be a C string: none of its bytes is the terminator.
pub open spec fn unterminated(text: Seq<char>) -> bool {
    forall|i: int| 0 <= i < encode_utf8(text).len() ==> #[trigger] encode_utf8(text)[i] != 0
}

/// Whether a caller gets a text: the whole of it, where it can be a C string.
pub open spec fn gets(out: Option<String>, text: Seq<char>) -> bool {
    unterminated(text) ==> opt_text(out) == Some(text)
}

/// Whether a caller that has room for an attribute gets it, and nothing where it is unset.
pub open spec fn gets_attribute(out: Option<String>, wanted: bool, value: Option<Seq<char>>) -> bool {
    opt_text(out) == if wanted {
        value
    } else {
        None
    }
}

proof fn owned_texts_are_got(text: Seq<char>)
    ensures
        unterminated(text) ==> owned_text(text) == Some(text),
{
    zeros_are_found(encode_utf8(text), 0);
}

/// Whether a request carries the arguments that every add takes: the owner, the name, the
/// elements and each descriptor, each from the argument of its own name.
pub open spec fn carries_arguments(request: AddRequest, a: SeriesArguments) -> bool {
    let d = request.data@.descriptors;
    &&& request.owner_id == a.owner_id
    &&& says(a.owner_type, request.owner_type@)
    &&& request.owner_category == OwnerCategory::Component <==> a.owner_category == 0
    &&& request.owner_category == OwnerCategory::SupplementalAttribute <==> a.owner_category == 1
    &&& says(a.name, request.data@.name)
    &&& a.element_type.reading matches Ok(t) && d.element_type == t@
        && request.data@.array.dtype == t@.physical()
    &&& request.data@.array.shape == a.dims@
    &&& a.data matches Some(bytes) && request.data@.array.bytes == bytes@
    &&& may_say(a.units, d.units)
    &&& may_say(a.quantity_kind, d.quantity_kind)
    &&& may_say(a.component_field, d.component_field)
    &&& may_say(a.application_data, d.application_data)
    &&& match d.unit_system {
        Some(u) => says(a.unit_system, u.spelling()),
        None => a.unit_system is None || says(a.unit_system, Seq::empty()),
    }
    &&& match d.time_reference {
        Some(t) => a.time_reference.reading matches Ok(read) && read@ == t
            && a.time_reference.text is Some,
        None => a.time_reference.text is None || says(a.time_reference.text, Seq::empty()),
    }
}

/// Whether a request for a regular series carries its arguments: it starts at the instant and
/// walks by the step that it was given.
pub open spec fn carries_single(request: AddRequest, a: SingleArguments) -> bool {
    &&& carries_arguments(request, a.series)
    &&& request.data@.axis matches AxisView::SingleTimeSeries {
        initial_timestamp,
        resolution,
        length,
    } && {
        &&& initial_timestamp == a.initial_ts_unix_ms
        &&& a.resolution.reading matches Ok(p) && resolution == p@
        &&& a.series.dims@.len() > 0 ==> length == a.series.dims@[0]
    }
}

/// A request to add a regular series carries its arguments, and starts at the instant and walks
/// by the step that it was given.
pub proof fn single_requests_carry_their_arguments(
    a: SingleArguments,
    r: Result<AddRequest, Failure>,
)
    requires
        call_ensures(build_single_request, (a,), r),
        r is Ok,
    ensures
        carries_single(r->Ok_0, a),
{
}

/// Whether a forecast's grid is the one that arguments name: the start, each of the three
/// periods and the number of windows, each from the argument of its own name.
pub open spec fn walks_as_told(
    axis: AxisView,
    initial: i64,
    resolution: Argument<Period>,
    horizon: Argument<Period>,
    interval: Argument<Period>,
    count: usize,
) -> bool {
    let grid = grid_of_axis(axis);
    &&& grid.initial_timestamp == initial
    &&& resolution.reading matches Ok(p) && grid.resolution == p@
    &&& horizon.reading matches Ok(p) && grid.horizon == p@
    &&& interval.reading matches Ok(p) && grid.interval == p@
    &&& grid.count == count
}

/// Whether a request for a dense forecast carries its arguments: it is of the type they name, on
/// the grid they name, with as many trajectories as the array leads with.
pub open spec fn carries_forecast(request: AddRequest, a: ForecastArguments) -> bool {
    &&& carries_arguments(request, a.series)
    &&& walks_as_told(
        request.data@.axis,
        a.initial_ts_unix_ms,
        a.resolution,
        a.horizon,
        a.interval,
        a.count,
    )
    &&& request.data@.axis.kind().number() == a.ts_type
    &&& request.data@.axis is Deterministic || request.data@.axis is Scenarios
    &&& request.data@.axis matches AxisView::Scenarios { scenario_count, .. }
        ==> a.series.dims@.len() > 0 ==> scenario_count == a.series.dims@[0]
}

/// Whether a request for a probabilistic forecast carries its arguments: it is on the grid they
/// name, with their percentiles.
pub open spec fn carries_probabilistic(request: AddRequest, a: ProbabilisticArguments) -> bool {
    &&& carries_arguments(request, a.series)
    &&& walks_as_told(
        request.data@.axis,
        a.initial_ts_unix_ms,
        a.resolution,
        a.horizon,
        a.interval,
        a.count,
    )
    &&& request.data@.axis matches AxisView::Probabilistic { percentiles, .. } && (
    a.percentiles matches Some(p) && p@ == percentiles)
}

/// A request to add a dense forecast carries its arguments, is of the type it names, and has the
/// start, the resolution, the horizon, the interval and the windows that it was given.
pub proof fn forecast_requests_carry_their_arguments(
    a: ForecastArguments,
    r: Result<AddRequest, Failure>,
)
    requires
        call_ensures(build_forecast_request, (a,), r),
        r is Ok,
    ensures
        carries_forecast(r->Ok_0, a),
{
}

/// A request to add a probabilistic forecast carries its arguments, and has the percentiles, the
/// start, the resolution, the horizon, the interval and the windows that it was given.
pub proof fn probabilistic_requests_carry_their_arguments(
    a: ProbabilisticArguments,
    r: Result<AddRequest, Failure>,
)
    requires
        call_ensures(build_probabilistic_request, (a,), r),
        r is Ok,
    ensures
        carries_probabilistic(r->Ok_0, a),
{
}

/// A request to add an irregular series carries its arguments and has the instants that it was
/// given, whatever the store said on the way.
pub proof fn non_sequential_requests_carry_their_arguments(
    a: NonSequentialArguments,
    draft: Result<NonSequentialDraft, Failure>,
    verdict: Result<(), String>,
    r: Result<AddRequest, Failure>,
)
    requires
        call_ensures(build_non_sequential_request, (a,), draft),
        draft is Ok,
        call_ensures(finish_non_sequential_request, (draft->Ok_0, verdict), r),
        r is Ok,
    ensures
        verdict is Ok,
        carries_arguments(r->Ok_0, a.series),
        r->Ok_0.data@.axis matches AxisView::NonSequentialTimeSeries { timestamps } && (
        a.timestamps_unix_ms matches Some(t) && t@ == timestamps),
{
}

/// Whether the arguments that every add takes can be taken, all of them.
pub open spec fn acceptable(a: SeriesArguments, array: ArrayView) -> bool {
    &&& is_text(a.owner_type)
    &&& is_text(a.name)
    &&& 0 <= a.owner_category <= 1
    &&& is_text(a.element_type.text)
    &&& a.element_type.reading matches Ok(t) && array == (ArrayView {
        dtype: t@.physical(),
        shape: a.dims@,
        bytes: a.data->0@,
    })
    &&& a.data is Some
    &&& array.fits()
    &&& a.units is None || is_text(a.units)
    &&& a.quantity_kind is None || is_text(a.quantity_kind)
    &&& a.component_field is None || is_text(a.component_field)
    &&& a.application_data is None || is_text(a.application_data)
    &&& a.unit_system is None || says(a.unit_system, Seq::empty()) || says(
        a.unit_system,
        UnitSystem::NaturalUnits.spelling(),
    ) || says(a.unit_system, UnitSystem::ComponentBase.spelling())
    &&& a.time_reference.text is None || says(a.time_reference.text, Seq::empty()) || (is_text(
        a.time_reference.text,
    ) && a.time_reference.reading is Ok)
    &&& a.features_json is None
}

/// Whether a string argument is a text.
pub open spec fn is_text(p: CText) -> bool {
    p matches Some(bytes) && valid_utf8(bytes@)
}

/// Whether a period can be taken.
pub open spec fn is_period(a: Argument<Period>) -> bool {
    is_text(a.text) && a.reading is Ok
}

/// Arguments that can all be taken make a request, of whichever kind: nothing else keeps a
/// series without features from being added.
pub proof fn acceptable_arguments_make_a_request(
    single: SingleArguments,
    of_single: Result<AddRequest, Failure>,
    forecast: ForecastArguments,
    of_forecast: Result<AddRequest, Failure>,
    probabilistic: ProbabilisticArguments,
    of_probabilistic: Result<AddRequest, Failure>,
    array: ArrayView,
)
    requires
        call_ensures(build_single_request, (single,), of_single),
        call_ensures(build_forecast_request, (forecast,), of_forecast),
        call_ensures(build_probabilistic_request, (probabilistic,), of_probabilistic),
    ensures
        acceptable(single.series, array) && is_instant(single.initial_ts_unix_ms as int)
            && is_period(single.resolution) ==> of_single is Ok,
        acceptable(forecast.series, array) && is_instant(forecast.initial_ts_unix_ms as int)
            && is_period(forecast.resolution) && is_period(forecast.horizon) && is_period(
            forecast.interval,
        ) && (forecast.ts_type == TimeSeriesType::Deterministic.number() || forecast.ts_type
            == TimeSeriesType::Scenarios.number()) ==> of_forecast is Ok,
        acceptable(probabilistic.series, array) && is_instant(
            probabilistic.initial_ts_unix_ms as int,
        ) && is_period(probabilistic.resolution) && is_period(probabilistic.horizon) && is_period(
            probabilistic.interval,
        ) && probabilistic.percentiles is Some ==> of_probabilistic is Ok,
{
    unit_system_spelling_reads_back(UnitSystem::NaturalUnits);
    unit_system_spelling_reads_back(UnitSystem::ComponentBase);
}

/// A request is not made where an argument cannot be taken: no owner, no name, no values, values
/// that are not as many as the shape says, a start that is no instant, or a period that the store
/// does not read.
pub proof fn unacceptable_arguments_make_none(
    single: SingleArguments,
    of_single: Result<AddRequest, Failure>,
    forecast: ForecastArguments,
    of_forecast: Result<AddRequest, Failure>,
    probabilistic: ProbabilisticArguments,
    of_probabilistic: Result<AddRequest, Failure>,
)
    requires
        call_ensures(build_single_request, (single,), of_single),
        call_ensures(build_forecast_request, (forecast,), of_forecast),
        call_ensures(build_probabilistic_request, (probabilistic,), of_probabilistic),
    ensures
        of_single is Ok ==> is_instant(single.initial_ts_unix_ms as int) && is_period(
            single.resolution,
        ) && of_single->Ok_0.data@.array.fits() && is_text(single.series.element_type.text) && 0
            <= single.series.owner_category <= 1,
        of_forecast is Ok ==> is_instant(forecast.initial_ts_unix_ms as int) && is_period(
            forecast.resolution,
        ) && is_period(forecast.horizon) && is_period(forecast.interval)
            && of_forecast->Ok_0.data@.array.fits() && is_text(forecast.series.element_type.text)
            && 0 <= forecast.series.owner_category <= 1,
        of_probabilistic is Ok ==> is_instant(probabilistic.initial_ts_unix_ms as int) && is_period(
            probabilistic.resolution,
        ) && is_period(probabilistic.horizon) && is_period(probabilistic.interval)
            && of_probabilistic->Ok_0.data@.array.fits() && is_text(
            probabilistic.series.element_type.text,
        ) && 0 <= probabilistic.series.owner_category <= 1,
{
}

// ---- What a caller gets -------------------------------------------------------------------------

/// Whether a caller gets the descriptors it has room for, each under its own name.
pub open spec fn gets_descriptors(out: DescriptorsOut, d: DescriptorsView, w: Wanted) -> bool {
    &&& gets_attribute(out.application_data, w.application_data, d.application_data)
    &&& gets_attribute(out.units, w.units, d.units)
    &&& gets_attribute(out.quantity_kind, w.quantity_kind, d.quantity_kind)
    &&& gets_attribute(out.component_field, w.component_field, d.component_field)
    &&& if w.element_type {
        gets(out.element_type, d.element_type.spelling())
    } else {
        out.element_type is None
    }
    &&& match d.unit_system {
        Some(u) if w.unit_system => gets(out.unit_system, u.spelling()),
        _ => out.unit_system is None,
    }
    &&& match d.time_reference {
        Some(t) if w.time_reference => gets(out.time_reference, t.storage_text()),
        _ => out.time_reference is None,
    }
}

proof fn descriptors_are_got(d: DescriptorsView)
    ensures
        unterminated(d.element_type.spelling()) ==> owned_text(d.element_type.spelling()) == Some(
            d.element_type.spelling(),
        ),
        d.unit_system matches Some(u) ==> unterminated(u.spelling()) ==> owned_text(u.spelling())
            == Some(u.spelling()),
        d.time_reference matches Some(t) ==> unterminated(t.storage_text()) ==> owned_text(
            t.storage_text(),
        ) == Some(t.storage_text()),
{
    owned_texts_are_got(d.element_type.spelling());
    if let Some(u) = d.unit_system {
        owned_texts_are_got(u.spelling());
    }
    if let Some(t) = d.time_reference {
        owned_texts_are_got(t.storage_text());
    }
}

/// A regular series that was added is handed back: a caller gets the start and the step that
/// another gave, the shape and the bytes, and each descriptor under its own name.
pub proof fn added_series_is_handed_back(
    a: SingleArguments,
    added: Result<AddRequest, Failure>,
    items: Vec<BulkItem>,
    outs: bool,
    index: u64,
    w: Wanted,
    got: Result<SingleOut, Failure>,
)
    requires
        call_ensures(build_single_request, (a,), added),
        added is Ok,
        index < items@.len(),
        items@[index as int].data@ == added->Ok_0.data@,
        call_ensures(infrastore_bulk_result_get_single, (Some(&items), outs, index, w), got),
        got is Ok,
    ensures
        got->Ok_0.initial_timestamp == a.initial_ts_unix_ms,
        a.resolution.reading matches Ok(p) && gets(got->Ok_0.resolution, p.iso@),
        got->Ok_0.shape@ == a.series.dims@,
        a.series.data matches Some(bytes) && got->Ok_0.bytes@ == bytes@,
        gets_descriptors(got->Ok_0.descriptors, added->Ok_0.data@.descriptors, w),
{
    single_requests_carry_their_arguments(a, added);
    owned_texts_are_got(a.resolution.reading->Ok_0.iso@);
    descriptors_are_got(added->Ok_0.data@.descriptors);
}

/// A dense forecast that was added is handed back: a caller gets the start, the resolution, the
/// horizon and the interval that another gave, each under its own name, with the windows, the
/// trajectories, the shape and the bytes.
pub proof fn added_forecast_is_handed_back(
    a: ForecastArguments,
    added: Result<AddRequest, Failure>,
    items: Vec<BulkItem>,
    outs: bool,
    index: u64,
    w: Wanted,
    got: Result<ForecastOut, Failure>,
)
    requires
        call_ensures(build_forecast_request, (a,), added),
        added is Ok,
        index < items@.len(),
        items@[index as int].data@ == added->Ok_0.data@,
        call_ensures(infrastore_bulk_result_get_forecast, (Some(&items), outs, index, w), got),
        got is Ok,
    ensures
        got->Ok_0.data.initial_timestamp == a.initial_ts_unix_ms,
        a.resolution.reading matches Ok(p) && gets(got->Ok_0.data.resolution, p.iso@),
        a.horizon.reading matches Ok(p) && gets(got->Ok_0.data.horizon, p.iso@),
        a.interval.reading matches Ok(p) && gets(got->Ok_0.data.interval, p.iso@),
        got->Ok_0.data.count == a.count,
        got->Ok_0.data.percentiles is None,
        got->Ok_0.data.scenario_count == (if a.ts_type == TimeSeriesType::Scenarios.number()
            && a.series.dims@.len() > 0 {
            a.series.dims@[0]
        } else {
            0
        }),
        got->Ok_0.data.shape@ == a.series.dims@,
        a.series.data matches Some(bytes) && got->Ok_0.data.bytes@ == bytes@,
        gets_descriptors(got->Ok_0.descriptors, added->Ok_0.data@.descriptors, w),
{
    forecast_requests_carry_their_arguments(a, added);
    owned_texts_are_got(a.resolution.reading->Ok_0.iso@);
    owned_texts_are_got(a.horizon.reading->Ok_0.iso@);
    owned_texts_are_got(a.interval.reading->Ok_0.iso@);
    descriptors_are_got(added->Ok_0.data@.descriptors);
}

/// A probabilistic forecast that was added is handed back, its percentiles with it.
pub proof fn added_percentiles_are_handed_back(
    a: ProbabilisticArguments,
    added: Result<AddRequest, Failure>,
    items: Vec<BulkItem>,
    outs: bool,
    index: u64,
    w: Wanted,
    got: Result<ForecastOut, Failure>,
)
    requires
        call_ensures(build_probabilistic_request, (a,), added),
        added is Ok,
        index < items@.len(),
        items@[index as int].data@ == added->Ok_0.data@,
        call_ensures(infrastore_bulk_result_get_forecast, (Some(&items), outs, index, w), got),
        got is Ok,
    ensures
        got->Ok_0.data.initial_timestamp == a.initial_ts_unix_ms,
        a.resolution.reading matches Ok(p) && gets(got->Ok_0.data.resolution, p.iso@),
        a.horizon.reading matches Ok(p) && gets(got->Ok_0.data.horizon, p.iso@),
        a.interval.reading matches Ok(p) && gets(got->Ok_0.data.interval, p.iso@),
        got->Ok_0.data.count == a.count,
        got->Ok_0.data.percentiles matches Some(out) && (a.percentiles matches Some(p) && p@
            == out@),
        got->Ok_0.data.scenario_count == 0,
        got->Ok_0.data.shape@ == a.series.dims@,
        a.series.data matches Some(bytes) && got->Ok_0.data.bytes@ == bytes@,
        gets_descriptors(got->Ok_0.descriptors, added->Ok_0.data@.descriptors, w),
{
    probabilistic_requests_carry_their_arguments(a, added);
    owned_texts_are_got(a.resolution.reading->Ok_0.iso@);
    owned_texts_are_got(a.horizon.reading->Ok_0.iso@);
    owned_texts_are_got(a.interval.reading->Ok_0.iso@);
    descriptors_are_got(added->Ok_0.data@.descriptors);
}

/// An irregular series that was added is handed back, at the instants it was given.
pub proof fn added_instants_are_handed_back(
    a: NonSequentialArguments,
    draft: Result<NonSequentialDraft, Failure>,
    verdict: Result<(), String>,
    added: Result<AddRequest, Failure>,
    items: Vec<BulkItem>,
    outs: bool,
    index: u64,
    w: Wanted,
    got: Result<NonSequentialOut, Failure>,
)
    requires
        call_ensures(build_non_sequential_request, (a,), draft),
        draft is Ok,
        call_ensures(finish_non_sequential_request, (draft->Ok_0, verdict), added),
        added is Ok,
        index < items@.len(),
        items@[index as int].data@ == added->Ok_0.data@,
        call_ensures(
            infrastore_bulk_result_get_non_sequential,
            (Some(&items), outs, index, w),
            got,
        ),
        got is Ok,
    ensures
        a.timestamps_unix_ms matches Some(t) && got->Ok_0.timestamps@ == t@,
        got->Ok_0.shape@ == a.series.dims@,
        a.series.data matches Some(bytes) && got->Ok_0.bytes@ == bytes@,
        gets_descriptors(got->Ok_0.descriptors, added->Ok_0.data@.descriptors, w),
{
    non_sequential_requests_carry_their_arguments(a, draft, verdict, added);
    descriptors_are_got(added->Ok_0.data@.descriptors);
}

} // verus!
