//! What a series is filed as: of one that was written out, what it was; of a file that says
//! nothing, what the caller says of it.
use crate::array::product;
use crate::assemble::{
    assemble, features_given, filing_fault, finish_import, grid_columns, is_assembled, is_filed,
    resolved, Assembled, ImportOptions, ImportedSeries, Outcomes, Readings, ReadingsView,
};
use crate::cube::leading_axes;
use crate::features::{
    feature_members, features_read_back, features_text, first_bad_member, floats_finite,
    FeatureView,
};
use crate::footer::{filled_entry, Footer};
use crate::groups::{GroupView, ValuesGroup};
use crate::halves::FooterView;
use crate::json::{reading, reads_as, JsonTree};
use crate::kinds::{
    category_spelling_reads_back, type_spelling_reads_back, unit_system_spelling_reads_back,
    OwnerCategory, TimeSeriesType,
};
use crate::catalog::MetadataView;
use crate::read_back::{
    plain_group, row_of_line, written_forecast_group_reads_back, written_resolution,
    written_static_reads_back,
};
use crate::roundtrip::{tells_apart, written_layout};
use crate::rows::{cube_steps, emission_of, grid_of_axis, rows_of};
use crate::schema;
use crate::series::{AxisView, DataView};
use crate::series_file::series_line;
use crate::series_reader::SeriesRow;
use crate::table::{gridded, ArrayKey, ArrayKeyView};
use vstd::prelude::*;

verus! {

/// Whether the caller says nothing on top of the files.
pub open spec fn says_nothing(options: ImportOptions) -> bool {
    &&& options.time_series_type is None
    &&& options.element_type is None
    &&& options.element_shape is None
    &&& options.resolution is None
    &&& options.name is None
    &&& options.owner_id is None
    &&& options.owner_type is None
    &&& options.owner_category is None
    &&& options.time_reference is None
    &&& options.features is None
    &&& options.units is None
    &&& options.quantity_kind is None
    &&& options.unit_system is None
    &&& options.component_field is None
    &&& options.application_data is None
}

/// Whether the store reads the texts of a catalog row as what they were written from.
pub open spec fn reads_the_row(readings: ReadingsView, row: MetadataView) -> bool {
    &&& readings.element_type == Some(row.element_type)
    &&& row.element_type.spelling().len() > 0
    &&& row.time_reference matches Some(r) ==> r.storage_text().len() > 0 && r.storage_text()
        != schema::UNSPECIFIED_REFERENCE@ && readings.time_reference == Ok::<_, Seq<char>>(r)
    &&& row.resolution matches Some(p) ==> p.iso.len() > 0 && readings.resolution == Ok::<
        _,
        Seq<char>,
    >(p)
    &&& row.interval matches Some(p) ==> p.iso.len() > 0 && readings.interval == Ok::<
        _,
        Seq<char>,
    >(p)
    &&& row.horizon matches Some(p) ==> p.iso.len() > 0 && readings.horizon == Ok::<
        _,
        Seq<char>,
    >(p)
    &&& floats_finite(row.features)
    &&& reading(features_text(row.features)) == reads_as(
        JsonTree::Object(feature_members(row.features)),
    )
    &&& features_text(row.features).len() > 0
}

/// Whether a catalog row can be written so that it reads back: it has a name and an owner, and
/// no descriptor that is the empty text. A derived series is not added from a file.
pub open spec fn reads_as_a_row(row: MetadataView) -> bool {
    &&& row.kind != TimeSeriesType::DeterministicSingleTimeSeries
    &&& row.name.len() > 0
    &&& row.owner_type.len() > 0
    &&& row.units matches Some(t) ==> t.len() > 0
    &&& row.quantity_kind matches Some(t) ==> t.len() > 0
    &&& row.component_field matches Some(t) ==> t.len() > 0
    &&& row.application_data matches Some(t) ==> t.len() > 0
}

proof fn spellings_are_texts(kind: TimeSeriesType, category: OwnerCategory)
    ensures
        kind.spelling().len() > 0,
        category.spelling().len() > 0,
        schema::UNSPECIFIED_REFERENCE@.len() > 0,
{
    reveal_strlit("SingleTimeSeries");
    reveal_strlit("NonSequentialTimeSeries");
    reveal_strlit("Deterministic");
    reveal_strlit("DeterministicSingleTimeSeries");
    reveal_strlit("Probabilistic");
    reveal_strlit("Scenarios");
    reveal_strlit("PersistentTimeSeries");
    reveal_strlit("Component");
    reveal_strlit("SupplementalAttribute");
    reveal_strlit("unspecified");
}

/// A written catalog row resolves to what it was written from.
proof fn written_row_resolves(
    row: MetadataView,
    axis: AxisView,
    key: ArrayKeyView,
    group: GroupView,
    footer: FooterView,
    options: ImportOptions,
    readings: ReadingsView,
)
    requires
        says_nothing(options),
        reads_as_a_row(row),
        reads_the_row(readings, row),
    ensures
        resolved(
            group,
            row_of_line(series_line(key, row, axis), row.kind),
            footer,
            options,
            readings,
        ) matches Ok(v) && {
            &&& v.kind == row.kind
            &&& v.element_type == row.element_type
            &&& v.time_reference == row.time_reference
            &&& v.name == row.name
            &&& v.owner_id == row.owner_id
            &&& v.owner_type == row.owner_type
            &&& v.resolution == if gridded(row.kind) {
                row.resolution
            } else {
                None
            }
        },
{
    type_spelling_reads_back(row.kind);
    spellings_are_texts(row.kind, row.owner_category);
    let written = row_of_line(series_line(key, row, axis), row.kind);
    assert(written.kind.len() > 0);
    assert(written.time_reference.len() > 0);
}

/// Whether a series is filed under the catalog row it was written with.
pub open spec fn filed_under(s: ImportedSeries, row: MetadataView) -> bool {
    &&& s.recorded_id == (match row.id {
        Some(id) => if id == 0 {
            None
        } else {
            Some(id)
        },
        None => None,
    })
    &&& s.owner_id == row.owner_id
    &&& s.owner_type@ == row.owner_type
    &&& s.owner_category == row.owner_category
    &&& s.features@ == row.features
    &&& s.data@.name == row.name
    &&& s.data@.descriptors.element_type == row.element_type
    &&& s.data@.descriptors.units == row.units
    &&& s.data@.descriptors.quantity_kind == row.quantity_kind
    &&& s.data@.descriptors.unit_system == row.unit_system
    &&& s.data@.descriptors.time_reference == row.time_reference
    &&& s.data@.descriptors.component_field == row.component_field
    &&& s.data@.descriptors.application_data == row.application_data
}

/// Whether the store accepts an assembled series as what was written, values and hash alike.
pub open spec fn store_agrees(outcomes: Outcomes, key: ArrayKeyView) -> bool {
    &&& outcomes.verdict is Ok
    &&& outcomes.reencoded matches Ok(None)
    &&& outcomes.actual_hash matches Ok(hash) && hash@ == key.data_hash
}

proof fn row_is_filed(
    row: MetadataView,
    axis: AxisView,
    key: ArrayKeyView,
    group: GroupView,
    footer: FooterView,
    options: ImportOptions,
    readings: ReadingsView,
    outcomes: Outcomes,
    a: Assembled,
    s: ImportedSeries,
)
    requires
        says_nothing(options),
        reads_as_a_row(row),
        reads_the_row(readings, row),
        store_agrees(outcomes, key),
        ({
            let written = row_of_line(series_line(key, row, axis), row.kind);
            &&& is_assembled(a, group, written, footer, options, readings)
            &&& is_filed(s, a, written, options, outcomes)
            &&& features_given(
                options.features,
                written.features,
                Ok::<Map<Seq<char>, FeatureView>, Seq<char>>(s.features@),
            )
        }),
        a.data@.name == row.name,
    ensures
        filed_under(s, row),
        filing_fault(
            a,
            key,
            row_of_line(series_line(key, row, axis), row.kind),
            options,
            outcomes,
        ) is None,
        key.data_hash.len() > 0 ==> (s.array matches Some(k) && k@ == key),
{
    written_row_resolves(row, axis, key, group, footer, options, readings);
    category_spelling_reads_back(row.owner_category);
    spellings_are_texts(row.kind, row.owner_category);
    if let Some(u) = row.unit_system {
        unit_system_spelling_reads_back(u);
    }
    features_read_back(row.features, s.features@);
}

/// No feature that was written is refused when it is read.
proof fn features_are_taken(row: MetadataView, readings: ReadingsView, e: Seq<char>)
    requires
        reads_the_row(readings, row),
    ensures
        !features_given(
            None,
            features_text(row.features),
            Err::<Map<Seq<char>, FeatureView>, Seq<char>>(e),
        ),
{
    let m = feature_members(row.features);
    assert forall|name: Seq<char>| !#[trigger] first_bad_member(m, name) by {
        if m.contains_key(name) {
            assert(row.features.contains_key(name));
        }
    }
}

/// What a read gives back of a write, for a static series: the rows and the catalog row that
/// were written of it are put together and filed without fault, and what is filed has the
/// owner and the owner's category, the features, the name, every descriptor, the axis and the
/// array that the series had.
pub proof fn written_static_series_is_filed(
    row: MetadataView,
    data: DataView,
    key: ArrayKey,
    dims: Seq<usize>,
    zone: Option<Seq<char>>,
    group: ValuesGroup,
    written: SeriesRow,
    footer: Footer,
    options: ImportOptions,
    readings: Readings,
    outcomes: Outcomes,
    assembled: Result<Assembled, String>,
    filed: Result<ImportedSeries, String>,
)
    requires
        says_nothing(options),
        reads_as_a_row(row),
        reads_the_row(readings@, row),
        store_agrees(outcomes, key@),
        data.axis.kind() == row.kind,
        !row.kind.forecasts(),
        row.resolution == written_resolution(data.axis),
        rows_of(data) is Ok,
        0 < rows_of(data)->Ok_0.len() <= usize::MAX,
        data.array.shape == seq![rows_of(data)->Ok_0.len() as usize] + dims,
        data.array.fits(),
        product(dims) > 0,
        group@ == plain_group(key@, data, dims, zone),
        written@ == row_of_line(series_line(key@, row, data.axis), row.kind),
        call_ensures(assemble, (&group, &written, &footer, &options, readings), assembled),
        call_ensures(
            finish_import,
            (assembled->Ok_0, &key, &written, &options, outcomes),
            filed,
        ),
    ensures
        assembled is Ok,
        filed is Ok,
        filed_under(filed->Ok_0, row),
        filed->Ok_0.data@.axis == data.axis,
        filed->Ok_0.data@.array == data.array,
{
    written_row_resolves(row, data.axis, key@, group@, footer@, options, readings@);
    written_static_reads_back(data, key@, dims, zone, readings@.inferred, row.name);
    assert(assembled is Ok);
    if let Err(e) = filed {
        features_are_taken(row, readings@, e@);
    }
    row_is_filed(
        row,
        data.axis,
        key@,
        group@,
        footer@,
        options,
        readings@,
        outcomes,
        assembled->Ok_0,
        filed->Ok_0,
    );
}

/// What a read gives back of a write, for a forecast: the rows and the catalog row that were
/// written of it are put together and filed without fault, and what is filed has the owner and
/// the owner's category, the features, the name, every descriptor, the axis and the array that
/// the forecast had.
pub proof fn written_forecast_is_filed(
    row: MetadataView,
    data: DataView,
    key: ArrayKey,
    dims: Seq<usize>,
    zone: Option<Seq<char>>,
    group: ValuesGroup,
    written: SeriesRow,
    footer: Footer,
    options: ImportOptions,
    readings: Readings,
    outcomes: Outcomes,
    assembled: Result<Assembled, String>,
    filed: Result<ImportedSeries, String>,
)
    requires
        says_nothing(options),
        reads_as_a_row(row),
        reads_the_row(readings@, row),
        store_agrees(outcomes, key@),
        data.axis.kind() == row.kind,
        row.kind.forecasts(),
        rows_of(data) is Ok,
        data.array.fits(),
        product(dims) > 0,
        ({
            let e = emission_of(data.axis, cube_steps(data));
            let grid = grid_of_axis(data.axis);
            &&& tells_apart(e, grid.horizon.step, row.name)
            &&& data.array.shape == leading_axes(written_layout(e, row.name)) + dims
            &&& row.resolution == Some(grid.resolution)
            &&& row.interval == Some(grid.interval)
            &&& row.horizon == Some(grid.horizon)
        }),
        group@ == plain_group(key@, data, dims, zone),
        written@ == row_of_line(series_line(key@, row, data.axis), row.kind),
        call_ensures(assemble, (&group, &written, &footer, &options, readings), assembled),
        call_ensures(
            finish_import,
            (assembled->Ok_0, &key, &written, &options, outcomes),
            filed,
        ),
    ensures
        assembled is Ok,
        filed is Ok,
        filed_under(filed->Ok_0, row),
        filed->Ok_0.data@.axis == data.axis,
        filed->Ok_0.data@.array == data.array,
{
    written_row_resolves(row, data.axis, key@, group@, footer@, options, readings@);
    written_forecast_group_reads_back(
        data,
        key@,
        dims,
        cube_steps(data),
        grid_columns(written@, row.resolution, readings@),
        zone,
        row.name,
        assembled->Ok_0.data@,
    );
    assert(assembled is Ok);
    if let Err(e) = filed {
        features_are_taken(row, readings@, e@);
    }
    row_is_filed(
        row,
        data.axis,
        key@,
        group@,
        footer@,
        options,
        readings@,
        outcomes,
        assembled->Ok_0,
        filed->Ok_0,
    );
}

/// The category of an owner is the one its column spells, for each category there is; what the
/// caller says instead wins, and an empty column stands for a component.
pub proof fn owner_categories_are_filed(
    a: Assembled,
    key: ArrayKey,
    row: SeriesRow,
    options: ImportOptions,
    outcomes: Outcomes,
    category: OwnerCategory,
    filed: Result<ImportedSeries, String>,
)
    requires
        call_ensures(finish_import, (a, &key, &row, &options, outcomes), filed),
        filed is Ok,
    ensures
        options.owner_category is None && row@.owner_category == category.spelling()
            ==> filed->Ok_0.owner_category == category,
        options.owner_category is None && row@.owner_category.len() == 0
            ==> filed->Ok_0.owner_category == OwnerCategory::Component,
        options.owner_category is None && row@.owner_category.len() > 0
            ==> filed->Ok_0.owner_category.spelling() == row@.owner_category,
        options.owner_category == Some(category) ==> filed->Ok_0.owner_category == category,
{
    category_spelling_reads_back(category);
    spellings_are_texts(TimeSeriesType::SingleTimeSeries, category);
}

/// A series whose values do not hash to what was recorded for them is not filed, unless the
/// caller waives the comparison or nothing was recorded.
pub proof fn changed_values_are_not_filed(
    a: Assembled,
    key: ArrayKey,
    row: SeriesRow,
    options: ImportOptions,
    outcomes: Outcomes,
    filed: Result<ImportedSeries, String>,
)
    requires
        call_ensures(finish_import, (a, &key, &row, &options, outcomes), filed),
        filed is Ok,
    ensures
        outcomes.verdict is Ok,
        options.skip_checksum || key@.data_hash.len() == 0 || (outcomes.actual_hash matches Ok(hash)
            && hash@ == key@.data_hash),
{
}

// ---- What the caller says -----------------------------------------------------------------------

/// What the caller supplies is what is filed, whatever the file says: the owner, the owner's
/// category, the name, the features, the time reference and the unit system. A free-form
/// descriptor that is supplied replaces the file's, and the empty text clears it.
pub proof fn supplied_fields_are_filed(
    group: ValuesGroup,
    row: SeriesRow,
    footer: Footer,
    options: ImportOptions,
    readings: Readings,
    key: ArrayKey,
    outcomes: Outcomes,
    assembled: Result<Assembled, String>,
    filed: Result<ImportedSeries, String>,
)
    requires
        call_ensures(assemble, (&group, &row, &footer, &options, readings), assembled),
        assembled is Ok,
        call_ensures(finish_import, (assembled->Ok_0, &key, &row, &options, outcomes), filed),
        filed is Ok,
    ensures
        options.owner_id matches Some(id) ==> filed->Ok_0.owner_id == id,
        options.owner_type matches Some(t) ==> filed->Ok_0.owner_type@ == t@,
        options.owner_category matches Some(c) ==> filed->Ok_0.owner_category == c,
        options.name matches Some(t) ==> filed->Ok_0.data@.name == t@,
        options.features matches Some(f) ==> filed->Ok_0.features@ == f@,
        options.time_reference matches Some(t) ==> filed->Ok_0.data@.descriptors.time_reference == Some(t@),
        options.unit_system matches Some(u) ==> filed->Ok_0.data@.descriptors.unit_system == Some(u),
        options.units matches Some(t) ==> filed->Ok_0.data@.descriptors.units == if t@.len() == 0 {
            None
        } else {
            Some(t@)
        },
        options.quantity_kind matches Some(t) ==> filed->Ok_0.data@.descriptors.quantity_kind == if t@.len()
            == 0 {
            None
        } else {
            Some(t@)
        },
        options.component_field matches Some(t) ==> filed->Ok_0.data@.descriptors.component_field == if t@.len()
            == 0 {
            None
        } else {
            Some(t@)
        },
        options.application_data matches Some(t) ==> filed->Ok_0.data@.descriptors.application_data
            == if t@.len() == 0 {
            None
        } else {
            Some(t@)
        },
{
}

/// A type, an element type or a shape that the caller asserts and the file contradicts is never
/// what is filed: either the file is refused, or the series is what was asserted.
pub proof fn asserted_fields_hold(
    group: ValuesGroup,
    row: SeriesRow,
    footer: Footer,
    options: ImportOptions,
    readings: Readings,
    assembled: Result<Assembled, String>,
)
    requires
        call_ensures(assemble, (&group, &row, &footer, &options, readings), assembled),
        assembled is Ok,
    ensures
        options.time_series_type matches Some(t) ==> assembled->Ok_0.data@.axis.kind() == t || t
            == TimeSeriesType::DeterministicSingleTimeSeries,
        options.element_type matches Some(t) ==> assembled->Ok_0.element_type@ == t@,
        options.element_shape matches Some(dims) ==> group@.dims == dims@,
        options.resolution matches Some(p) ==> match assembled->Ok_0.data@.axis {
            AxisView::SingleTimeSeries { resolution, .. } => resolution.step == p.step,
            AxisView::NonSequentialTimeSeries { .. } => true,
            AxisView::PersistentTimeSeries { .. } => true,
            _ => grid_of_axis(assembled->Ok_0.data@.axis).resolution.step == p.step,
        },
{
}

// ---- Files that say nothing -------------------------------------------------------------------

/// Rows of a type that neither the file nor the caller names are filed as a regular series where
/// the store infers a step from their instants, starting at the first of them and as long as
/// they are many, with the step that was inferred; as an irregular one at those very instants
/// where it does not; and never as a step function or a forecast.
pub proof fn unnamed_rows_are_filed_by_their_instants(
    group: ValuesGroup,
    row: SeriesRow,
    footer: Footer,
    options: ImportOptions,
    readings: Readings,
    assembled: Result<Assembled, String>,
)
    requires
        row@.kind.len() == 0,
        filled_entry(footer@, schema::TIME_SERIES_TYPE@) is None,
        options.time_series_type is None,
        options.resolution is None,
        row@.resolution.len() == 0,
        call_ensures(assemble, (&group, &row, &footer, &options, readings), assembled),
        assembled is Ok,
    ensures
        match readings@.inferred {
            Ok(p) => group@.timestamps.len() > 0 && assembled->Ok_0.data@.axis == (AxisView::SingleTimeSeries {
                initial_timestamp: group@.timestamps[0],
                resolution: p,
                length: group@.timestamps.len(),
            }),
            Err(_) => assembled->Ok_0.data@.axis == (AxisView::NonSequentialTimeSeries {
                timestamps: group@.timestamps,
            }),
        },
        assembled->Ok_0.data@.array == group@.array(),
{
}

/// A file that names no owner, or no series, is refused rather than filed under a made-up one.
pub proof fn nobody_is_made_up(
    group: ValuesGroup,
    row: SeriesRow,
    footer: Footer,
    options: ImportOptions,
    readings: Readings,
    assembled: Result<Assembled, String>,
)
    requires
        call_ensures(assemble, (&group, &row, &footer, &options, readings), assembled),
        options.owner_id is None && row@.owner_id is None || options.owner_type is None
            && row@.owner_type.len() == 0 || options.name is None && row@.name.len() == 0,
    ensures
        assembled is Err,
{
}

} // verus!
