//! Reading one series back out of one table.
//!
//! The footer is consulted where there is one, and the columns' types say the rest, so a file
//! written by anything else reads by the same rules. What is not read back is the row's id: a
//! caller free to name one could file a retired id again.
use crate::array::{ArrayView, TypedArray};
use crate::assemble::{
    asserted_text, element_of, opt_element, period_reading, reference_from_arrow_zone,
    reference_of, reference_reading,
};
use crate::batch::{
    batch_values, descend, level_fault, no_column, no_column_text, read_timestamps, stamps_in,
    values_in, ReadBatch, ReadData, ValueEnd,
};
use crate::features::{decode_features, decodes, FeatureView, Features};
use crate::filename::lower_text;
use crate::footer::{entry, Footer};
use crate::halves::FooterView;
use crate::instant::{
    displayed, instant_text, is_instant, no_steps_lead_nowhere, opt_period, Period, PeriodView,
};
use crate::kinds::{
    category_spelling_reads_back, reference_view, unit_system_spelling_reads_back, Dtype,
    ElementType, ElementTypeView, OwnerCategory, TimeReference, TimeReferenceView, TimeSeriesType,
    UnitSystem,
};
use crate::schema;
use crate::schema::{
    category_in, decode_element_type, decode_owner_category, decode_time_reference,
    decode_time_series_type, decode_unit_system, type_in, unit_system_in,
};
use crate::series::{
    grid_at, grid_instants, grid_reaches, opt_text, AxisView, DataView, Descriptors,
    DescriptorsView, TimeAxis, TimeSeriesData,
};
use crate::single_export::{TIMESTAMP_COLUMN, VALUE_COLUMN};
use crate::table::{ColumnType, ColumnTypeView};
use crate::text::{
    decimal, decimal_text, integer_in, integer_text, integers_read_back, number_fault, read_integer,
};
use vstd::prelude::*;

verus! {

/// The dtype the store would give a leaf of a column's type, if it has one.
pub fn dtype_of(column_type: &ColumnType) -> (r: Option<Dtype>)
    ensures
        r == (match column_type.shape() {
            ColumnTypeView::Primitive(dtype) => Some(dtype),
            _ => None,
        }),
{
    match column_type {
        ColumnType::Primitive(dtype) => Some(*dtype),
        _ => None,
    }
}

/// What the caller asserts or supplies on top of what the file says.
#[derive(Debug)]
pub struct ImportOptions {
    /// Declares the type when the footer is silent, and asserts it when it is not.
    pub time_series_type: Option<TimeSeriesType>,
    /// Declares the element type when the footer is silent, and asserts it when it is not.
    pub element_type: Option<ElementType>,
    /// The name to file the series under, whatever the footer says.
    pub name: Option<String>,
    /// The spelling of the instants, whatever the footer says.
    pub time_reference: Option<TimeReference>,
}

impl Default for ImportOptions {
    fn default() -> (r: ImportOptions)
        ensures
            r.time_series_type is None,
            r.element_type is None,
            r.name is None,
            r.time_reference is None,
    {
        ImportOptions {
            time_series_type: None,
            element_type: None,
            name: None,
            time_reference: None,
        }
    }
}

/// One series read out of a table, with whatever the footer said about its catalog row.
#[derive(Debug)]
pub struct ImportedSeries {
    /// The id the file recorded, for reporting only.
    pub recorded_id: Option<i64>,
    pub owner_id: Option<i64>,
    pub owner_type: Option<String>,
    pub owner_category: Option<OwnerCategory>,
    pub features: Features,
    pub data: TimeSeriesData,
}

// ---- Columns ------------------------------------------------------------------------------------

/// The zone of the time column, nothing where it has none or is no time column.
pub open spec fn stamp_zone(b: ReadBatch) -> Result<Option<Seq<char>>, Seq<char>> {
    match b.column(TIMESTAMP_COLUMN@) {
        None => Err(no_column_text(TIMESTAMP_COLUMN@)),
        Some(c) => match c.data {
            ReadData::Timestamp { zone, .. } => Ok(opt_text(zone)),
            _ => Ok(None),
        },
    }
}

fn timestamp_zone(b: &ReadBatch) -> (r: Result<Option<String>, String>)
    ensures
        match (r, stamp_zone(*b)) {
            (Ok(zone), Ok(expected)) => opt_text(zone) == expected,
            (Err(e), Err(text)) => e@ == text,
            _ => false,
        },
{
    match b.column_by_name(TIMESTAMP_COLUMN) {
        None => Err(no_column(TIMESTAMP_COLUMN)),
        Some(c) => match &c.data {
            ReadData::Timestamp { zone, .. } => Ok(
                match zone {
                    Some(z) => Some(z.clone()),
                    None => None,
                },
            ),
            _ => Ok(None),
        },
    }
}

pub open spec fn ragged_text() -> Seq<char> {
    "the `"@ + VALUE_COLUMN@
        + "` column is a variable-length list; a time series' per-step shape is fixed, so this import reads fixed-size lists only"@
}

pub open spec fn struct_text() -> Seq<char> {
    "the `"@ + VALUE_COLUMN@
        + "` column is a struct; this version reads the packed form composite element types are stored in, not a decoded one"@
}

/// The value column as one array.
pub open spec fn array_in(b: ReadBatch) -> Result<ArrayView, Seq<char>> {
    match b.value {
        Some(column) => if level_fault(column.levels@, column.levels@.len() as int) is None
            && column.end is List {
            Err(ragged_text())
        } else if level_fault(column.levels@, column.levels@.len() as int) is None
            && column.end is Struct {
            Err(struct_text())
        } else {
            match values_in(b) {
                Ok((_, array)) => Ok(array),
                Err(text) => Err(text),
            }
        },
        None => Err(no_column_text(VALUE_COLUMN@)),
    }
}

fn build_array(b: &ReadBatch) -> (r: Result<TypedArray, String>)
    ensures
        match (r, array_in(*b)) {
            (Ok(array), Ok(expected)) => array@ == expected,
            (Err(e), Err(text)) => e@ == text,
            _ => false,
        },
{
    match &b.value {
        None => {
            return Err(no_column(VALUE_COLUMN));
        },
        Some(column) => match (descend(&column.levels), &column.end) {
            (Ok(_), ValueEnd::List) => {
                let mut e = "the `".to_string();
                e.append(VALUE_COLUMN);
                e.append(
                    "` column is a variable-length list; a time series' per-step shape is fixed, so this import reads fixed-size lists only",
                );
                return Err(e);
            },
            (Ok(_), ValueEnd::Struct) => {
                let mut e = "the `".to_string();
                e.append(VALUE_COLUMN);
                e.append(
                    "` column is a struct; this version reads the packed form composite element types are stored in, not a decoded one",
                );
                return Err(e);
            },
            _ => {},
        },
    }
    match batch_values(b) {
        Ok((_, array)) => Ok(array),
        Err(e) => Err(e),
    }
}

// ---- The series ---------------------------------------------------------------------------------

pub open spec fn anchorless_text() -> Seq<char> {
    "a SingleTimeSeries is anchored at its first timestamp, and this file has no rows; give the anchor another way, or import it as a NonSequentialTimeSeries"@
}

pub open spec fn misplaced_text(resolution: PeriodView, first: i64, at: int) -> Seq<char> {
    "the timestamps do not sit on a "@ + resolution.iso + " grid anchored at "@ + instant_text(
        first,
    ) + ": row "@ + decimal_text(at as nat) + " is not where the grid puts it"@
}

/// The first instant, from the `i`-th on, that is not where the grid puts it.
pub open spec fn first_misplaced(timestamps: Seq<i64>, resolution: PeriodView, i: int) -> Option<int>
    decreases timestamps.len() - i,
{
    if i < 0 || i >= timestamps.len() {
        None
    } else if grid_at(timestamps[0], resolution, i) != Some(timestamps[i]) {
        Some(i)
    } else {
        first_misplaced(timestamps, resolution, i + 1)
    }
}

/// The axis of a regular series: its instants must be those of the grid its step generates.
pub open spec fn regular_axis(
    timestamps: Seq<i64>,
    resolution: Option<PeriodView>,
    inferred: Result<PeriodView, Seq<char>>,
) -> Result<AxisView, Seq<char>> {
    if timestamps.len() == 0 {
        Err(anchorless_text())
    } else {
        let axis = |p: PeriodView|
            AxisView::SingleTimeSeries {
                initial_timestamp: timestamps[0],
                resolution: p,
                length: timestamps.len(),
            };
        match resolution {
            None => match inferred {
                Err(e) => Err(e),
                Ok(p) => Ok(axis(p)),
            },
            Some(p) => match first_misplaced(timestamps, p, 0) {
                Some(at) => Err(misplaced_text(p, timestamps[0], at)),
                None => Ok(axis(p)),
            },
        }
    }
}

fn single(timestamps: &Vec<i64>, resolution: Option<Period>, inferred: Result<Period, String>) -> (r:
    Result<TimeAxis, String>)
    requires
        forall|k: int| 0 <= k < timestamps@.len() ==> is_instant(#[trigger] timestamps@[k] as int),
        timestamps@.len() <= i64::MAX,
    ensures
        match (
            r,
            regular_axis(timestamps@, opt_period(resolution), period_reading(inferred)),
        ) {
            (Ok(axis), Ok(expected)) => axis@ == expected,
            (Err(e), Err(text)) => e@ == text,
            _ => false,
        },
{
    if timestamps.len() == 0 {
        return Err(
            "a SingleTimeSeries is anchored at its first timestamp, and this file has no rows; give the anchor another way, or import it as a NonSequentialTimeSeries".to_string(),
        );
    }
    let first: i64 = timestamps[0];
    let n: usize = timestamps.len();
    let period = match resolution {
        None => {
            return match inferred {
                Ok(p) => Ok(
                    TimeAxis::SingleTimeSeries {
                        initial_timestamp: first,
                        resolution: p,
                        length: n,
                    },
                ),
                Err(e) => Err(e),
            };
        },
        Some(p) => p,
    };
    let mut i: usize = 0;
    while i < n
        invariant
            i <= n,
            n == timestamps@.len(),
            n <= i64::MAX,
            n > 0,
            first == timestamps@[0],
            is_instant(first as int),
            opt_period(resolution) == Some(period@),
            first_misplaced(timestamps@, period@, 0) == first_misplaced(
                timestamps@,
                period@,
                i as int,
            ),
        decreases n - i,
    {
        let sits = match period.step.add_to(first, i as i64) {
            Some(at) => at == timestamps[i],
            None => false,
        };
        if !sits {
            let mut e = "the timestamps do not sit on a ".to_string();
            e.append(period.iso.as_str());
            e.append(" grid anchored at ");
            e.append(displayed(first).as_str());
            e.append(": row ");
            e.append(decimal(i as u64).as_str());
            e.append(" is not where the grid puts it");
            return Err(e);
        }
        i += 1;
    }
    Ok(TimeAxis::SingleTimeSeries { initial_timestamp: first, resolution: period, length: n })
}

proof fn nothing_misplaced(timestamps: Seq<i64>, resolution: PeriodView, i: int)
    requires
        0 <= i <= timestamps.len(),
        forall|k: int|
            0 <= k < timestamps.len() ==> grid_at(timestamps[0], resolution, k) == Some(
                #[trigger] timestamps[k],
            ),
    ensures
        first_misplaced(timestamps, resolution, i) is None,
    decreases timestamps.len() - i,
{
    if i < timestamps.len() {
        assert(grid_at(timestamps[0], resolution, i) == Some(timestamps[i]));
        nothing_misplaced(timestamps, resolution, i + 1);
    }
}

/// What a read gives back of a write: the instants of a regular series are read back as the
/// grid they were written from.
pub proof fn written_grid_reads_back(
    initial: i64,
    resolution: PeriodView,
    n: nat,
    inferred: Result<PeriodView, Seq<char>>,
)
    requires
        n > 0,
        grid_reaches(initial, resolution, n as int),
    ensures
        regular_axis(grid_instants(initial, resolution, n as int), Some(resolution), inferred)
            == Ok::<_, Seq<char>>(
            AxisView::SingleTimeSeries { initial_timestamp: initial, resolution, length: n },
        ),
{
    let instants = grid_instants(initial, resolution, n as int);
    assert(grid_at(initial, resolution, 0) is Some);
    no_steps_lead_nowhere(resolution.step, initial);
    assert(instants[0] == initial);
    assert forall|k: int| 0 <= k < instants.len() implies grid_at(instants[0], resolution, k)
        == Some(#[trigger] instants[k]) by {
        assert(grid_at(initial, resolution, k) is Some);
    }
    nothing_misplaced(instants, resolution, 0);
}

/// The type to file the rows under: what the footer declares, or else what was asserted, or
/// else a regular series where the instants walk a grid and an irregular one where they do not.
pub open spec fn footer_type(
    text: Option<Seq<char>>,
    asserted: Option<TimeSeriesType>,
    walks_a_grid: bool,
) -> Result<TimeSeriesType, Seq<char>> {
    match text {
        Some(text) => match type_in(text) {
            Err(e) => Err(e),
            Ok(kind) => match asserted {
                Some(a) => if a != kind {
                    Err(asserted_text(kind.spelling(), a.spelling()))
                } else {
                    Ok(kind)
                },
                None => Ok(kind),
            },
        },
        None => match asserted {
            Some(a) => Ok(a),
            None => if walks_a_grid {
                Ok(TimeSeriesType::SingleTimeSeries)
            } else {
                Ok(TimeSeriesType::NonSequentialTimeSeries)
            },
        },
    }
}

/// The text in which the store is to read the element type: the footer's.
pub fn declared_element_type(footer: &Footer) -> (r: Option<String>)
    ensures
        opt_text(r) == entry(footer@, schema::ELEMENT_TYPE@),
{
    footer.get(schema::ELEMENT_TYPE)
}

/// The text in which the store is to read the time reference: the footer's, or else the zone of
/// the time column.
pub fn declared_reference(footer: &Footer, zone: &Option<String>) -> (r: Option<String>)
    ensures
        opt_text(r) == (match entry(footer@, schema::TIME_REFERENCE@) {
            Some(text) => Some(text),
            None => opt_text(*zone),
        }),
{
    match footer.get(schema::TIME_REFERENCE) {
        Some(text) => Some(text),
        None => match zone {
            Some(z) => Some(z.clone()),
            None => None,
        },
    }
}

/// The text in which the store is to read the step: the footer's.
pub fn declared_resolution(footer: &Footer) -> (r: Option<String>)
    ensures
        opt_text(r) == entry(footer@, schema::RESOLUTION@),
{
    footer.get(schema::RESOLUTION)
}

/// The type to file the rows under. A step function is never inferred.
pub fn resolve_time_series_type(footer: &Footer, options: &ImportOptions, walks_a_grid: bool) -> (r:
    Result<TimeSeriesType, String>)
    ensures
        match (
            r,
            footer_type(
                entry(footer@, schema::TIME_SERIES_TYPE@),
                options.time_series_type,
                walks_a_grid,
            ),
        ) {
            (Ok(kind), Ok(expected)) => kind == expected,
            (Err(e), Err(text)) => e@ == text,
            _ => false,
        },
{
    match footer.get(schema::TIME_SERIES_TYPE) {
        Some(text) => {
            let kind = match decode_time_series_type(text.as_str()) {
                Ok(kind) => kind,
                Err(e) => {
                    return Err(e);
                },
            };
            match options.time_series_type {
                Some(asserted) => {
                    if asserted != kind {
                        let mut e = "the file declares ".to_string();
                        e.append(kind.as_str());
                        e.append(", but ");
                        e.append(asserted.as_str());
                        e.append(" was asserted");
                        return Err(e);
                    }
                },
                None => {},
            }
            Ok(kind)
        },
        None => match options.time_series_type {
            Some(asserted) => Ok(asserted),
            None => {
                if walks_a_grid {
                    Ok(TimeSeriesType::SingleTimeSeries)
                } else {
                    Ok(TimeSeriesType::NonSequentialTimeSeries)
                }
            },
        },
    }
}

/// The element type of the rows. `reading` is what the store reads in the footer's text.
pub fn resolve_element_type(
    array: &TypedArray,
    footer: &Footer,
    options: &ImportOptions,
    reading: Option<ElementType>,
) -> (r: Result<ElementType, String>)
    ensures
        match (
            r,
            element_of(
                entry(footer@, schema::ELEMENT_TYPE@),
                opt_element(reading),
                opt_element(options.element_type),
                array@,
            ),
        ) {
            (Ok(t), Ok(expected)) => t@ == expected,
            (Err(e), Err(text)) => e@ == text,
            _ => false,
        },
{
    match footer.get(schema::ELEMENT_TYPE) {
        Some(text) => {
            let from_file = match decode_element_type(text.as_str(), reading) {
                Ok(t) => t,
                Err(e) => {
                    return Err(e);
                },
            };
            match &options.element_type {
                Some(asserted) => {
                    if !asserted.same(&from_file) {
                        let mut e = "the file declares element_type ".to_string();
                        e.append(from_file.spelled().as_str());
                        e.append(", but ");
                        e.append(asserted.spelled().as_str());
                        e.append(" was asserted");
                        return Err(e);
                    }
                },
                None => {},
            }
            Ok(from_file)
        },
        None => match &options.element_type {
            Some(asserted) => Ok(asserted.copied()),
            None => Ok(ElementType::Scalar(array.dtype)),
        },
    }
}

pub open spec fn unnamed_text() -> Seq<char> {
    "the file records no series name and none was given; a name is part of a series' identity"@
}

/// The name of the series: the option, or else the footer's.
pub open spec fn footer_name(option: Option<Seq<char>>, text: Option<Seq<char>>) -> Result<
    Seq<char>,
    Seq<char>,
> {
    match option {
        Some(name) => Ok(name),
        None => match text {
            Some(name) => Ok(name),
            None => Err(unnamed_text()),
        },
    }
}

/// The name of the series: the option, or else the footer's.
pub fn resolve_name(footer: &Footer, options: &ImportOptions) -> (r: Result<String, String>)
    ensures
        match (r, footer_name(opt_text(options.name), entry(footer@, schema::NAME@))) {
            (Ok(name), Ok(expected)) => name@ == expected,
            (Err(e), Err(text)) => e@ == text,
            _ => false,
        },
{
    match &options.name {
        Some(name) => {
            return Ok(name.clone());
        },
        None => {},
    }
    match footer.get(schema::NAME) {
        Some(name) => Ok(name),
        None => Err(
            "the file records no series name and none was given; a name is part of a series' identity".to_string(),
        ),
    }
}

/// The spelling of the instants: the option, or else the footer's, or else what the zone of
/// the time column implies. The zone comes last because it cannot express everything the store
/// records.
pub fn resolve_time_reference(
    footer: &Footer,
    options: &ImportOptions,
    zone: &Option<String>,
    reading: Result<TimeReference, String>,
) -> (r: Result<Option<TimeReference>, String>)
    ensures
        match (
            r,
            reference_of(
                reference_view(options.time_reference),
                entry(footer@, schema::TIME_REFERENCE@),
                opt_text(*zone),
                reference_reading(reading),
            ),
        ) {
            (Ok(t), Ok(expected)) => reference_view(t) == expected,
            (Err(e), Err(text)) => e@ == text,
            _ => false,
        },
{
    match &options.time_reference {
        Some(t) => {
            return Ok(Some(t.copied()));
        },
        None => {},
    }
    match footer.get(schema::TIME_REFERENCE) {
        Some(text) => decode_time_reference(text.as_str(), reading),
        None => match reference_from_arrow_zone(zone, reading) {
            Ok(t) => Ok(Some(t)),
            Err(e) => Err(e),
        },
    }
}

// ---- What is filed ------------------------------------------------------------------------------

/// What the store reads in the footer's texts, infers from the instants, and says of them.
#[derive(Debug)]
pub struct FileReadings {
    /// The element type in the footer's text.
    pub element_type: Option<ElementType>,
    /// The time reference in the footer's text, or else in the zone of the time column.
    pub time_reference: Result<TimeReference, String>,
    /// The step in the footer's text.
    pub resolution: Result<Period, String>,
    /// The step that the instants walk, if they walk one.
    pub inferred: Result<Period, String>,
    /// Whether the instants are those of an irregular series.
    pub verdict: Result<(), String>,
}

pub open spec fn forecast_text(kind: TimeSeriesType) -> Seq<char> {
    "Parquet import covers the static types; "@ + kind.spelling() + " is a forecast"@
}

/// The step of the series: the footer's, if it has one.
pub open spec fn footer_resolution(
    text: Option<Seq<char>>,
    reading: Result<PeriodView, Seq<char>>,
) -> Result<Option<PeriodView>, Seq<char>> {
    match text {
        None => Ok(None),
        Some(_) => match reading {
            Ok(p) => Ok(Some(p)),
            Err(e) => Err("resolution: "@ + e),
        },
    }
}

/// The axis of the series.
pub open spec fn axis_of(
    kind: TimeSeriesType,
    timestamps: Seq<i64>,
    resolution: Option<PeriodView>,
    readings: FileReadings,
) -> Result<AxisView, Seq<char>> {
    match kind {
        TimeSeriesType::SingleTimeSeries => regular_axis(
            timestamps,
            resolution,
            period_reading(readings.inferred),
        ),
        TimeSeriesType::NonSequentialTimeSeries => match readings.verdict {
            Ok(_) => Ok(AxisView::NonSequentialTimeSeries { timestamps }),
            Err(e) => Err(e@),
        },
        TimeSeriesType::PersistentTimeSeries => match readings.verdict {
            Ok(_) => Ok(AxisView::PersistentTimeSeries { timestamps }),
            Err(e) => Err(e@),
        },
        _ => Err(forecast_text(kind)),
    }
}

/// What a text spells, nothing where there is no text.
pub open spec fn owner_in(text: Option<Seq<char>>) -> Result<Option<i64>, Seq<char>> {
    match text {
        None => Ok(None),
        Some(text) => match integer_in(text) {
            Some(id) => Ok(Some(id)),
            None => Err(schema::OWNER_ID@ + ": "@ + number_fault(text)),
        },
    }
}

/// The category a text spells, nothing where there is no text.
pub open spec fn opt_category_in(text: Option<Seq<char>>) -> Result<
    Option<OwnerCategory>,
    Seq<char>,
> {
    match text {
        None => Ok(None),
        Some(text) => match category_in(text) {
            Ok(c) => Ok(Some(c)),
            Err(e) => Err(e),
        },
    }
}

/// The unit system a text spells, nothing where there is no text.
pub open spec fn opt_unit_system_in(text: Option<Seq<char>>) -> Result<
    Option<UnitSystem>,
    Seq<char>,
> {
    match text {
        None => Ok(None),
        Some(text) => match unit_system_in(text) {
            Ok(u) => Ok(Some(u)),
            Err(e) => Err(e),
        },
    }
}

/// The series that a footer and its rows describe.
pub open spec fn described_series(
    timestamps: Seq<i64>,
    array: ArrayView,
    footer: FooterView,
    options: ImportOptions,
    zone: Option<Seq<char>>,
    readings: FileReadings,
) -> Result<DataView, Seq<char>> {
    match footer_type(
        entry(footer, schema::TIME_SERIES_TYPE@),
        options.time_series_type,
        readings.inferred is Ok,
    ) {
        Err(text) => Err(text),
        Ok(kind) => match element_of(
            entry(footer, schema::ELEMENT_TYPE@),
            opt_element(readings.element_type),
            opt_element(options.element_type),
            array,
        ) {
            Err(text) => Err(text),
            Ok(element_type) => match footer_name(
                opt_text(options.name),
                entry(footer, schema::NAME@),
            ) {
                Err(text) => Err(text),
                Ok(name) => match reference_of(
                    reference_view(options.time_reference),
                    entry(footer, schema::TIME_REFERENCE@),
                    zone,
                    reference_reading(readings.time_reference),
                ) {
                    Err(text) => Err(text),
                    Ok(time_reference) => match footer_resolution(
                        entry(footer, schema::RESOLUTION@),
                        period_reading(readings.resolution),
                    ) {
                        Err(text) => Err(text),
                        Ok(resolution) => match axis_of(kind, timestamps, resolution, readings) {
                            Err(text) => Err(text),
                            Ok(axis) => match opt_unit_system_in(
                                entry(footer, schema::UNIT_SYSTEM@),
                            ) {
                                Err(text) => Err(text),
                                Ok(unit_system) => Ok(
                                    DataView {
                                        name,
                                        axis,
                                        array,
                                        descriptors: DescriptorsView {
                                            element_type,
                                            units: entry(footer, schema::UNITS@),
                                            quantity_kind: entry(footer, schema::QUANTITY_KIND@),
                                            unit_system,
                                            time_reference,
                                            component_field: entry(
                                                footer,
                                                schema::COMPONENT_FIELD@,
                                            ),
                                            application_data: entry(
                                                footer,
                                                schema::APPLICATION_DATA@,
                                            ),
                                        },
                                    },
                                ),
                            },
                        },
                    },
                },
            },
        },
    }
}

/// The features that a text spells, none where there is no text.
pub open spec fn opt_features_in(
    text: Option<Seq<char>>,
    r: Result<Map<Seq<char>, FeatureView>, Seq<char>>,
) -> bool {
    match text {
        None => r == Ok::<Map<Seq<char>, FeatureView>, Seq<char>>(Map::empty()),
        Some(text) => decodes(text, r),
    }
}

/// Why a series cannot be filed, if it cannot, its features aside.
pub open spec fn series_fault(
    timestamps: Seq<i64>,
    array: ArrayView,
    footer: FooterView,
    options: ImportOptions,
    zone: Option<Seq<char>>,
    readings: FileReadings,
) -> Option<Seq<char>> {
    match described_series(timestamps, array, footer, options, zone, readings) {
        Err(text) => Some(text),
        Ok(_) => match owner_in(entry(footer, schema::OWNER_ID@)) {
            Err(text) => Some(text),
            Ok(_) => match opt_category_in(entry(footer, schema::OWNER_CATEGORY@)) {
                Err(text) => Some(text),
                Ok(_) => None,
            },
        },
    }
}

/// Whether a series is what the footer and the rows describe.
pub open spec fn is_described(
    s: ImportedSeries,
    timestamps: Seq<i64>,
    array: ArrayView,
    footer: FooterView,
    options: ImportOptions,
    zone: Option<Seq<char>>,
    readings: FileReadings,
) -> bool {
    &&& s.data@ == described_series(timestamps, array, footer, options, zone, readings)->Ok_0
    &&& s.recorded_id == (match entry(footer, schema::ID@) {
        Some(text) => integer_in(text),
        None => None,
    })
    &&& s.owner_id == owner_in(entry(footer, schema::OWNER_ID@))->Ok_0
    &&& opt_text(s.owner_type) == entry(footer, schema::OWNER_TYPE@)
    &&& s.owner_category == opt_category_in(entry(footer, schema::OWNER_CATEGORY@))->Ok_0
}

fn static_axis(
    kind: TimeSeriesType,
    timestamps: Vec<i64>,
    resolution: Option<Period>,
    inferred: Result<Period, String>,
    verdict: Result<(), String>,
    Ghost(readings): Ghost<FileReadings>,
) -> (r: Result<TimeAxis, String>)
    requires
        forall|k: int| 0 <= k < timestamps@.len() ==> is_instant(#[trigger] timestamps@[k] as int),
        timestamps@.len() <= i64::MAX,
        period_reading(readings.inferred) == period_reading(inferred),
        verdict == readings.verdict,
    ensures
        match (r, axis_of(kind, timestamps@, opt_period(resolution), readings)) {
            (Ok(axis), Ok(expected)) => axis@ == expected,
            (Err(e), Err(text)) => e@ == text,
            _ => false,
        },
{
    match kind {
        TimeSeriesType::SingleTimeSeries => single(&timestamps, resolution, inferred),
        TimeSeriesType::NonSequentialTimeSeries => match verdict {
            Ok(_) => Ok(TimeAxis::NonSequentialTimeSeries { timestamps }),
            Err(e) => Err(e),
        },
        TimeSeriesType::PersistentTimeSeries => match verdict {
            Ok(_) => Ok(TimeAxis::PersistentTimeSeries { timestamps }),
            Err(e) => Err(e),
        },
        _ => {
            let mut e = "Parquet import covers the static types; ".to_string();
            e.append(kind.as_str());
            e.append(" is a forecast");
            Err(e)
        },
    }
}

/// The series that a footer, its rows and the options between them describe.
pub fn build_series(
    timestamps: Vec<i64>,
    array: TypedArray,
    footer: &Footer,
    options: &ImportOptions,
    zone: &Option<String>,
    readings: FileReadings,
) -> (r: Result<ImportedSeries, String>)
    requires
        forall|k: int| 0 <= k < timestamps@.len() ==> is_instant(#[trigger] timestamps@[k] as int),
        timestamps@.len() <= i64::MAX,
    ensures
        match (
            r,
            series_fault(timestamps@, array@, footer@, *options, opt_text(*zone), readings),
        ) {
            (Err(e), Some(text)) => e@ == text,
            (Err(e), None) => opt_features_in(
                entry(footer@, schema::FEATURES@),
                Err::<Map<Seq<char>, FeatureView>, Seq<char>>(e@),
            ),
            (Ok(s), None) => is_described(
                s,
                timestamps@,
                array@,
                footer@,
                *options,
                opt_text(*zone),
                readings,
            ) && opt_features_in(
                entry(footer@, schema::FEATURES@),
                Ok::<Map<Seq<char>, FeatureView>, Seq<char>>(s.features@),
            ),
            (Ok(_), Some(_)) => false,
        },
{
    let ghost all = readings;
    let walks_a_grid = readings.inferred.is_ok();
    let kind = match resolve_time_series_type(footer, options, walks_a_grid) {
        Ok(kind) => kind,
        Err(e) => {
            return Err(e);
        },
    };
    let element_type = match resolve_element_type(&array, footer, options, readings.element_type) {
        Ok(t) => t,
        Err(e) => {
            return Err(e);
        },
    };
    let name = match resolve_name(footer, options) {
        Ok(name) => name,
        Err(e) => {
            return Err(e);
        },
    };
    let time_reference = match resolve_time_reference(
        footer,
        options,
        zone,
        readings.time_reference,
    ) {
        Ok(t) => t,
        Err(e) => {
            return Err(e);
        },
    };
    let resolution = match footer.get(schema::RESOLUTION) {
        None => None,
        Some(_) => match readings.resolution {
            Ok(p) => Some(p),
            Err(e) => {
                let mut text = "resolution: ".to_string();
                text.append(e.as_str());
                return Err(text);
            },
        },
    };
    let axis = match static_axis(
        kind,
        timestamps,
        resolution,
        readings.inferred,
        readings.verdict,
        Ghost(all),
    ) {
        Ok(axis) => axis,
        Err(e) => {
            return Err(e);
        },
    };
    let unit_system = match footer.get(schema::UNIT_SYSTEM) {
        None => None,
        Some(text) => match decode_unit_system(text.as_str()) {
            Ok(u) => Some(u),
            Err(e) => {
                return Err(e);
            },
        },
    };
    let descriptors = Descriptors {
        element_type,
        units: footer.get(schema::UNITS),
        quantity_kind: footer.get(schema::QUANTITY_KIND),
        unit_system,
        time_reference,
        component_field: footer.get(schema::COMPONENT_FIELD),
        application_data: footer.get(schema::APPLICATION_DATA),
    };
    let recorded_id: Option<i64> = match footer.get(schema::ID) {
        None => None,
        Some(text) => match read_integer(text.as_str()) {
            Ok(id) => Some(id),
            Err(_) => None,
        },
    };
    let owner_id: Option<i64> = match footer.get(schema::OWNER_ID) {
        None => None,
        Some(text) => match read_integer(text.as_str()) {
            Ok(id) => Some(id),
            Err(fault) => {
                let mut e = schema::OWNER_ID.to_string();
                e.append(": ");
                e.append(fault.as_str());
                return Err(e);
            },
        },
    };
    let owner_category = match footer.get(schema::OWNER_CATEGORY) {
        None => None,
        Some(text) => match decode_owner_category(text.as_str()) {
            Ok(c) => Some(c),
            Err(e) => {
                return Err(e);
            },
        },
    };
    let features = match footer.get(schema::FEATURES) {
        None => Features::new(),
        Some(text) => match decode_features(text.as_str()) {
            Ok(f) => f,
            Err(e) => {
                return Err(e);
            },
        },
    };
    Ok(
        ImportedSeries {
            recorded_id,
            owner_id,
            owner_type: footer.get(schema::OWNER_TYPE),
            owner_category,
            features,
            data: TimeSeriesData { name, axis, array, descriptors },
        },
    )
}

/// What the columns of a file hold: the zone of its instants, the instants, and the values.
#[derive(Debug)]
pub struct FileColumns {
    pub zone: Option<String>,
    pub timestamps: Vec<i64>,
    pub array: TypedArray,
}

/// Why the columns of a file cannot be read, if they cannot.
pub open spec fn columns_fault(b: ReadBatch) -> Option<Seq<char>> {
    match stamp_zone(b) {
        Err(text) => Some(text),
        Ok(_) => match stamps_in(b, TIMESTAMP_COLUMN@) {
            Err(text) => Some(text),
            Ok(_) => match array_in(b) {
                Err(text) => Some(text),
                Ok(_) => None,
            },
        },
    }
}

/// Reads the columns of a file, given as one batch.
pub fn read_columns(b: &ReadBatch) -> (r: Result<FileColumns, String>)
    ensures
        match (r, columns_fault(*b)) {
            (Ok(c), None) => {
                &&& opt_text(c.zone) == stamp_zone(*b)->Ok_0
                &&& c.timestamps@ == stamps_in(*b, TIMESTAMP_COLUMN@)->Ok_0
                &&& c.array@ == array_in(*b)->Ok_0
                &&& forall|k: int|
                    0 <= k < c.timestamps@.len() ==> is_instant(#[trigger] c.timestamps@[k] as int)
            },
            (Err(e), Some(text)) => e@ == text,
            _ => false,
        },
{
    let zone = match timestamp_zone(b) {
        Ok(zone) => zone,
        Err(e) => {
            return Err(e);
        },
    };
    let timestamps = match read_timestamps(b, TIMESTAMP_COLUMN) {
        Ok(timestamps) => timestamps,
        Err(e) => {
            return Err(e);
        },
    };
    let array = match build_array(b) {
        Ok(array) => array,
        Err(e) => {
            return Err(e);
        },
    };
    Ok(FileColumns { zone, timestamps, array })
}

// ---- What a file is filed as --------------------------------------------------------------------

/// Rows of a type that neither the footer nor the caller names are filed as a regular series
/// where the store infers a step from their instants, starting at the first of them and as long
/// as they are many, with the step that was inferred; as an irregular one at those very instants
/// where it does not; and never as a step function or a forecast.
pub proof fn unnamed_rows_are_filed_by_their_instants(
    timestamps: Vec<i64>,
    array: TypedArray,
    footer: Footer,
    options: ImportOptions,
    zone: Option<String>,
    readings: FileReadings,
    r: Result<ImportedSeries, String>,
)
    requires
        !footer@.contains_key(schema::TIME_SERIES_TYPE@),
        !footer@.contains_key(schema::RESOLUTION@),
        options.time_series_type is None,
        call_ensures(build_series, (timestamps, array, &footer, &options, &zone, readings), r),
        r is Ok,
    ensures
        match readings.inferred {
            Ok(p) => timestamps@.len() > 0 && r->Ok_0.data@.axis == (AxisView::SingleTimeSeries {
                initial_timestamp: timestamps@[0],
                resolution: p@,
                length: timestamps@.len(),
            }),
            Err(_) => r->Ok_0.data@.axis == (AxisView::NonSequentialTimeSeries {
                timestamps: timestamps@,
            }),
        },
        r->Ok_0.data@.array == array@,
{
}

/// A foreign file whose instants walk the grid of the inferred step is filed as the series on
/// that grid: the instants of the series are the instants of the file, one by one.
pub proof fn inferred_grids_keep_their_instants(
    timestamps: Vec<i64>,
    array: TypedArray,
    footer: Footer,
    options: ImportOptions,
    zone: Option<String>,
    readings: FileReadings,
    r: Result<ImportedSeries, String>,
)
    requires
        !footer@.contains_key(schema::TIME_SERIES_TYPE@),
        !footer@.contains_key(schema::RESOLUTION@),
        options.time_series_type is None,
        readings.inferred matches Ok(p) && timestamps@.len() > 0 && forall|k: int|
            0 <= k < timestamps@.len() ==> grid_at(timestamps@[0], p@, k) == Some(
                #[trigger] timestamps@[k],
            ),
        call_ensures(build_series, (timestamps, array, &footer, &options, &zone, readings), r),
        r is Ok,
    ensures
        r->Ok_0.data@.axis matches AxisView::SingleTimeSeries {
            initial_timestamp,
            resolution,
            length,
        } && grid_instants(initial_timestamp, resolution, length as int) == timestamps@,
{
    let p = readings.inferred->Ok_0@;
    let grid = grid_instants(timestamps@[0], p, timestamps@.len() as int);
    assert forall|k: int| 0 <= k < timestamps@.len() implies grid[k] == timestamps@[k] by {
        assert(grid_at(timestamps@[0], p, k) == Some(timestamps@[k]));
    }
    assert(grid =~= timestamps@);
}

/// A type that the footer names, or that the caller asserts, is the type of the series that is
/// filed: a file that contradicts the caller is refused.
pub proof fn named_types_hold(
    timestamps: Vec<i64>,
    array: TypedArray,
    footer: Footer,
    options: ImportOptions,
    zone: Option<String>,
    readings: FileReadings,
    r: Result<ImportedSeries, String>,
)
    requires
        call_ensures(build_series, (timestamps, array, &footer, &options, &zone, readings), r),
        r is Ok,
    ensures
        !r->Ok_0.data@.axis.kind().forecasts(),
        options.time_series_type matches Some(t) ==> r->Ok_0.data@.axis.kind() == t,
        footer@.contains_key(schema::TIME_SERIES_TYPE@) ==> r->Ok_0.data@.axis.kind().spelling()
            == footer@[schema::TIME_SERIES_TYPE@],
        options.element_type matches Some(t) ==> r->Ok_0.data@.descriptors.element_type == t@,
        options.name matches Some(t) ==> r->Ok_0.data@.name == t@,
        options.time_reference matches Some(t) ==> r->Ok_0.data@.descriptors.time_reference == Some(t@),
{
}

/// A footer that spells a catalog row is filed as that row: each field from the entry of its own
/// name, and nothing where there is no entry.
pub proof fn spelled_rows_are_filed(
    timestamps: Vec<i64>,
    array: TypedArray,
    footer: Footer,
    options: ImportOptions,
    zone: Option<String>,
    readings: FileReadings,
    r: Result<ImportedSeries, String>,
    id: i64,
    owner_id: i64,
    category: OwnerCategory,
    unit_system: UnitSystem,
)
    requires
        call_ensures(build_series, (timestamps, array, &footer, &options, &zone, readings), r),
        r is Ok,
    ensures
        entry(footer@, schema::ID@) == Some(integer_text(id as int)) ==> r->Ok_0.recorded_id == Some(id),
        entry(footer@, schema::OWNER_ID@) == Some(integer_text(owner_id as int)) ==> r->Ok_0.owner_id
            == Some(owner_id),
        entry(footer@, schema::OWNER_CATEGORY@) == Some(category.spelling()) ==> r->Ok_0.owner_category
            == Some(category),
        entry(footer@, schema::UNIT_SYSTEM@) == Some(unit_system.spelling())
            ==> r->Ok_0.data@.descriptors.unit_system == Some(unit_system),
        entry(footer@, schema::ID@) is None ==> r->Ok_0.recorded_id is None,
        entry(footer@, schema::OWNER_ID@) is None ==> r->Ok_0.owner_id is None,
        entry(footer@, schema::OWNER_CATEGORY@) is None ==> r->Ok_0.owner_category is None,
        entry(footer@, schema::UNIT_SYSTEM@) is None ==> r->Ok_0.data@.descriptors.unit_system is None,
        opt_text(r->Ok_0.owner_type) == entry(footer@, schema::OWNER_TYPE@),
        r->Ok_0.data@.descriptors.units == entry(footer@, schema::UNITS@),
        r->Ok_0.data@.descriptors.quantity_kind == entry(footer@, schema::QUANTITY_KIND@),
        r->Ok_0.data@.descriptors.component_field == entry(footer@, schema::COMPONENT_FIELD@),
        r->Ok_0.data@.descriptors.application_data == entry(footer@, schema::APPLICATION_DATA@),
        options.name is None ==> Some(r->Ok_0.data@.name) == entry(footer@, schema::NAME@),
        entry(footer@, schema::RESOLUTION@) is Some ==> match r->Ok_0.data@.axis {
            AxisView::SingleTimeSeries { resolution, .. } => readings.resolution matches Ok(p)
                && resolution == p@,
            _ => true,
        },
{
    integers_read_back(id);
    integers_read_back(owner_id);
    category_spelling_reads_back(category);
    unit_system_spelling_reads_back(unit_system);
}

/// A file's values are filed as they stand, at the instants they stand at. Its elements are what
/// its footer says, as that was read, or the numbers of the values; its clock times are against
/// what the footer says, or else the zone of the time column, in which no zone is no reference at
/// all and UTC is UTC however it is written.
pub proof fn files_are_filed_as_they_stand(
    timestamps: Vec<i64>,
    array: TypedArray,
    footer: Footer,
    options: ImportOptions,
    zone: Option<String>,
    readings: FileReadings,
    r: Result<ImportedSeries, String>,
)
    requires
        call_ensures(build_series, (timestamps, array, &footer, &options, &zone, readings), r),
        r is Ok,
    ensures
        ({
            let data = r->Ok_0.data@;
            let d = data.descriptors;
            let elements = entry(footer@, schema::ELEMENT_TYPE@);
            let reference = entry(footer@, schema::TIME_REFERENCE@);
            &&& data.array == array@
            &&& elements is Some ==> (readings.element_type matches Some(t) && d.element_type == t@)
            &&& elements is None && options.element_type is None ==> d.element_type
                == ElementTypeView::Scalar(array.dtype)
            &&& options.time_reference is None && reference is Some ==> if reference->0
                == schema::UNSPECIFIED_REFERENCE@ {
                d.time_reference is None
            } else {
                readings.time_reference matches Ok(t) && d.time_reference == Some(t@)
            }
            &&& options.time_reference is None && reference is None ==> match zone {
                None => d.time_reference == Some(TimeReferenceView::Zoneless),
                Some(z) => if lower_text(z@) == lower_text("UTC"@) {
                    d.time_reference == Some(TimeReferenceView::Utc)
                } else {
                    readings.time_reference matches Ok(t) && d.time_reference == Some(t@)
                },
            }
            &&& match data.axis {
                AxisView::SingleTimeSeries { initial_timestamp, length, .. } => initial_timestamp
                    == timestamps@[0] && length == timestamps@.len(),
                AxisView::NonSequentialTimeSeries { timestamps: at } => at == timestamps@
                    && readings.verdict is Ok,
                AxisView::PersistentTimeSeries { timestamps: at } => at == timestamps@
                    && readings.verdict is Ok,
                _ => false,
            }
            &&& entry(footer@, schema::FEATURES@) is None ==> r->Ok_0.features@ == Map::<
                Seq<char>,
                FeatureView,
            >::empty()
        }),
{
}

/// A recorded step is kept exactly where the instants are on its grid.
pub proof fn recorded_grids_keep_their_instants(
    timestamps: Vec<i64>,
    array: TypedArray,
    footer: Footer,
    options: ImportOptions,
    zone: Option<String>,
    readings: FileReadings,
    r: Result<ImportedSeries, String>,
    k: int,
)
    requires
        call_ensures(build_series, (timestamps, array, &footer, &options, &zone, readings), r),
        r is Ok,
        r->Ok_0.data@.axis is SingleTimeSeries,
        footer@.contains_key(schema::RESOLUTION@),
        0 <= k < timestamps@.len(),
    ensures
        readings.resolution is Ok,
        grid_at(timestamps@[0], readings.resolution->Ok_0@, k) == Some(timestamps@[k]),
{
    let p = readings.resolution->Ok_0@;
    assert(first_misplaced(timestamps@, p, 0) is None);
    none_is_misplaced(timestamps@, p, 0, k);
}

proof fn none_is_misplaced(timestamps: Seq<i64>, resolution: PeriodView, i: int, k: int)
    requires
        0 <= i <= k < timestamps.len(),
        first_misplaced(timestamps, resolution, i) is None,
    ensures
        grid_at(timestamps[0], resolution, k) == Some(timestamps[k]),
    decreases k - i,
{
    if i < k {
        none_is_misplaced(timestamps, resolution, i + 1, k);
    }
}

/// The columns of a file are its time column, instants and zone, and its value column.
pub proof fn columns_are_read_by_their_names(
    b: ReadBatch,
    at: Result<Vec<i64>, String>,
    values: Result<(Vec<usize>, TypedArray), String>,
    r: Result<FileColumns, String>,
)
    requires
        call_ensures(read_columns, (&b,), r),
        call_ensures(read_timestamps, (&b, TIMESTAMP_COLUMN), at),
        call_ensures(batch_values, (&b,), values),
        r is Ok,
    ensures
        at is Ok && r->Ok_0.timestamps@ == at->Ok_0@,
        values is Ok && r->Ok_0.array@ == values->Ok_0.1@,
        b.column(TIMESTAMP_COLUMN@) matches Some(c) && match c.data {
            ReadData::Timestamp { zone, .. } => opt_text(r->Ok_0.zone) == opt_text(zone),
            _ => r->Ok_0.zone is None,
        },
{
}

} // verus!
