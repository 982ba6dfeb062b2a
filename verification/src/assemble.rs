//! One series out of its array and its catalog row: what the file says, what the caller
//! asserts or supplies on top of it, and what follows where neither says anything.
use crate::array::{element_dims, shape_text, show_shape, ArrayView, TypedArray};
use crate::cube::{
    forecast, forecast_fault, is_forecast_of, GridColumns, LaneValue, Rows, RowsView, Spelled,
    SpelledView,
};
use crate::features::{decode_features, decodes, features_result, FeatureView, Features};
use crate::filename::{lower_text, same_folded};
use crate::footer::{filled_entry, Footer};
use crate::groups::{GroupView, ValuesGroup};
use crate::halves::FooterView;
use crate::instant::{displayed, instant_text, is_instant, opt_period, Period, PeriodView};
use crate::kinds::{
    reference_view, ElementType, ElementTypeView, OwnerCategory, TimeReference, TimeReferenceView,
    TimeSeriesType, UnitSystem,
};
use crate::partition::same_sizes;
use crate::schema;
use crate::schema::{
    category_in, decode_element_type, decode_owner_category, decode_time_reference,
    decode_time_series_type, decode_unit_system, type_in, unit_system_in,
};
use crate::series::{
    bare_descriptors, grid_at, grid_instants, grid_of_instants, grid_reaches, opt_text, AxisView,
    DataView, Descriptors, DescriptorsView, TimeAxis, TimeSeriesData,
};
use crate::series_reader::{SeriesRow, SeriesRowView};
use crate::table::{
    canonical, canonical_array, reencoding, ArrayKey, ArrayKeyView, DATA_HASH, VALUE,
};
use crate::text::{quoted, quoted_text, same_text};
use vstd::prelude::*;

verus! {

/// What the caller asserts or supplies on top of the files.
///
/// An override replaces the corresponding column for every series of the partition: the owner,
/// the name, the features, the time reference and the free-form descriptors, where the empty
/// text clears a descriptor. An assertion states something the file cannot, and a file that
/// contradicts it is an error: the type, the element type, the element shape and the
/// resolution.
#[derive(Debug)]
pub struct ImportOptions {
    pub time_series_type: Option<TimeSeriesType>,
    pub element_type: Option<ElementType>,
    pub element_shape: Option<Vec<usize>>,
    pub resolution: Option<Period>,
    pub name: Option<String>,
    pub owner_id: Option<i64>,
    pub owner_type: Option<String>,
    pub owner_category: Option<OwnerCategory>,
    pub time_reference: Option<TimeReference>,
    pub features: Option<Features>,
    pub units: Option<String>,
    pub quantity_kind: Option<String>,
    pub unit_system: Option<UnitSystem>,
    pub component_field: Option<String>,
    pub application_data: Option<String>,
    /// Waives the comparison of the recorded hash, leaving it as nothing but a join key.
    pub skip_checksum: bool,
}

impl Default for ImportOptions {
    fn default() -> (r: ImportOptions)
        ensures
            r.time_series_type is None,
            r.element_type is None,
            r.element_shape is None,
            r.resolution is None,
            r.name is None,
            r.owner_id is None,
            r.owner_type is None,
            r.owner_category is None,
            r.time_reference is None,
            r.features is None,
            r.units is None,
            r.quantity_kind is None,
            r.unit_system is None,
            r.component_field is None,
            r.application_data is None,
            !r.skip_checksum,
    {
        ImportOptions {
            time_series_type: None,
            element_type: None,
            element_shape: None,
            resolution: None,
            name: None,
            owner_id: None,
            owner_type: None,
            owner_category: None,
            time_reference: None,
            features: None,
            units: None,
            quantity_kind: None,
            unit_system: None,
            component_field: None,
            application_data: None,
            skip_checksum: false,
        }
    }
}

// ---- Texts ------------------------------------------------------------------------------------

/// A text, nothing for the empty one.
pub open spec fn optional_text(text: Seq<char>) -> Option<Seq<char>> {
    if text.len() == 0 {
        None
    } else {
        Some(text)
    }
}

/// A text, nothing for the empty one: that is how an absent descriptor is written.
pub fn optional(text: &str) -> (r: Option<String>)
    ensures
        opt_text(r) == optional_text(text@),
{
    if text.is_empty() {
        None
    } else {
        Some(text.to_string())
    }
}

/// A free-form descriptor: the option when there is one, else the column, and nothing for the
/// empty text either way.
pub open spec fn override_of(option: Option<Seq<char>>, column: Seq<char>) -> Option<Seq<char>> {
    optional_text(
        match option {
            Some(text) => text,
            None => column,
        },
    )
}

/// A free-form descriptor: the option when there is one, else the column.
pub fn override_text(option: &Option<String>, column: &str) -> (r: Option<String>)
    ensures
        opt_text(r) == override_of(opt_text(*option), column@),
{
    match option {
        Some(text) => optional(text.as_str()),
        None => optional(column),
    }
}

/// What a row says, or else the footer: nothing where both are silent.
pub open spec fn declared(text: Seq<char>, footer: FooterView, key: Seq<char>) -> Option<Seq<char>> {
    if text.len() == 0 {
        filled_entry(footer, key)
    } else {
        Some(text)
    }
}

fn declared_in(text: &str, footer: &Footer, key: &str) -> (r: Option<String>)
    ensures
        opt_text(r) == declared(text@, footer@, key@),
{
    if text.is_empty() {
        footer.get_filled(key)
    } else {
        Some(text.to_string())
    }
}

/// The text in which the store is to read the element type: the row's, or else the footer's.
pub fn declared_element_type(row: &SeriesRow, footer: &Footer) -> (r: Option<String>)
    ensures
        opt_text(r) == declared(row@.element_type, footer@, schema::ELEMENT_TYPE@),
{
    declared_in(row.element_type.as_str(), footer, schema::ELEMENT_TYPE)
}

/// The text in which the store is to read the time reference: the row's, or else the footer's,
/// or else the zone of the time column.
pub fn declared_reference(row: &SeriesRow, footer: &Footer, zone: &Option<String>) -> (r: Option<
    String,
>)
    ensures
        opt_text(r) == (match declared(row@.time_reference, footer@, schema::TIME_REFERENCE@) {
            Some(text) => Some(text),
            None => opt_text(*zone),
        }),
{
    match declared_in(row.time_reference.as_str(), footer, schema::TIME_REFERENCE) {
        Some(text) => Some(text),
        None => match zone {
            Some(z) => Some(z.clone()),
            None => None,
        },
    }
}

// ---- What each field comes to -----------------------------------------------------------------

pub open spec fn derived_text() -> Seq<char> {
    "a DeterministicSingleTimeSeries is derived from a stored SingleTimeSeries rather than added; import the SingleTimeSeries and run `transform_single_time_series`"@
}

pub open spec fn asserted_text(from_file: Seq<char>, asserted: Seq<char>) -> Seq<char> {
    "the file declares "@ + from_file + ", but "@ + asserted + " was asserted"@
}

/// The type to file a series under: what the file declares, or else what was asserted, or else
/// a regular series where the instants walk a grid and an irregular one where they do not.
pub open spec fn type_of(
    text: Option<Seq<char>>,
    asserted: Option<TimeSeriesType>,
    walks_a_grid: bool,
) -> Result<TimeSeriesType, Seq<char>> {
    match text {
        Some(text) => match type_in(text) {
            Err(e) => Err(e),
            Ok(kind) => if kind == TimeSeriesType::DeterministicSingleTimeSeries {
                Err(derived_text())
            } else {
                match asserted {
                    Some(a) => if a != kind {
                        Err(asserted_text(kind.spelling(), a.spelling()))
                    } else {
                        Ok(kind)
                    },
                    None => Ok(kind),
                }
            },
        },
        None => match asserted {
            Some(a) => Ok(a),
            None => if walks_a_grid {
                Ok(TimeSeriesType::SingleTimeSeries)
            } else {
                Ok(TimeSeriesType::NonSequentialTimeSeries)
            },
        },
    }
}

/// The type to file a series under. A step function is never inferred: it is structurally
/// identical to an irregular series, and differs only in what the values mean between rows.
pub fn resolve_type(
    row: &SeriesRow,
    footer: &Footer,
    options: &ImportOptions,
    walks_a_grid: bool,
) -> (r: Result<TimeSeriesType, String>)
    ensures
        match (
            r,
            type_of(
                declared(row@.kind, footer@, schema::TIME_SERIES_TYPE@),
                options.time_series_type,
                walks_a_grid,
            ),
        ) {
            (Ok(kind), Ok(expected)) => kind == expected,
            (Err(e), Err(text)) => e@ == text,
            _ => false,
        },
{
    match declared_in(row.time_series_type.as_str(), footer, schema::TIME_SERIES_TYPE) {
        Some(text) => {
            let kind = match decode_time_series_type(text.as_str()) {
                Ok(kind) => kind,
                Err(e) => {
                    return Err(e);
                },
            };
            if kind == TimeSeriesType::DeterministicSingleTimeSeries {
                return Err(
                    "a DeterministicSingleTimeSeries is derived from a stored SingleTimeSeries rather than added; import the SingleTimeSeries and run `transform_single_time_series`".to_string(),
                );
            }
            match options.time_series_type {
                Some(asserted) => {
                    if asserted != kind {
                        let mut e = "the file declares ".to_string();
                        e.append(kind.as_str());
                        e.append(", but ");
                        e.append(asserted.as_str());
                        e.append(" was asserted");
                        return Err(e);
                    }
                },
                None => {},
            }
            Ok(kind)
        },
        None => match options.time_series_type {
            Some(asserted) => Ok(asserted),
            None => {
                if walks_a_grid {
                    Ok(TimeSeriesType::SingleTimeSeries)
                } else {
                    Ok(TimeSeriesType::NonSequentialTimeSeries)
                }
            },
        },
    }
}

pub open spec fn asserted_element_text(from_file: ElementTypeView, asserted: ElementTypeView) -> Seq<
    char,
> {
    "the file declares element_type "@ + from_file.spelling() + ", but "@ + asserted.spelling()
        + " was asserted"@
}

/// The element type an option holds.
pub open spec fn opt_element(t: Option<ElementType>) -> Option<ElementTypeView> {
    match t {
        Some(t) => Some(t@),
        None => None,
    }
}

/// The element type of a series: what the file declares, or else what was asserted, or else
/// plain elements of the array's dtype.
pub open spec fn element_of(
    text: Option<Seq<char>>,
    reading: Option<ElementTypeView>,
    asserted: Option<ElementTypeView>,
    array: ArrayView,
) -> Result<ElementTypeView, Seq<char>> {
    match text {
        Some(text) => match reading {
            None => Err(schema::unknown_text(schema::ELEMENT_TYPE@, text)),
            Some(from_file) => match asserted {
                Some(a) => if a != from_file {
                    Err(asserted_element_text(from_file, a))
                } else {
                    Ok(from_file)
                },
                None => Ok(from_file),
            },
        },
        None => match asserted {
            Some(a) => Ok(a),
            None => Ok(ElementTypeView::Scalar(array.dtype)),
        },
    }
}

/// The element type of a series. Without one declared or asserted, the column's type alone
/// gives the weaker reading: a list of three numbers is a dense row and not a tuple.
///
/// `reading` is what the store reads in the text of [`declared_element_type`].
pub fn resolve_element_type(
    row: &SeriesRow,
    array: &TypedArray,
    footer: &Footer,
    options: &ImportOptions,
    reading: Option<ElementType>,
) -> (r: Result<ElementType, String>)
    ensures
        match (
            r,
            element_of(
                declared(row@.element_type, footer@, schema::ELEMENT_TYPE@),
                opt_element(reading),
                opt_element(options.element_type),
                array@,
            ),
        ) {
            (Ok(t), Ok(expected)) => t@ == expected,
            (Err(e), Err(text)) => e@ == text,
            _ => false,
        },
{
    match declared_element_type(row, footer) {
        Some(text) => {
            let from_file = match decode_element_type(text.as_str(), reading) {
                Ok(t) => t,
                Err(e) => {
                    return Err(e);
                },
            };
            match &options.element_type {
                Some(asserted) => {
                    if !asserted.same(&from_file) {
                        let mut e = "the file declares element_type ".to_string();
                        e.append(from_file.spelled().as_str());
                        e.append(", but ");
                        e.append(asserted.spelled().as_str());
                        e.append(" was asserted");
                        return Err(e);
                    }
                },
                None => {},
            }
            Ok(from_file)
        },
        None => match &options.element_type {
            Some(asserted) => Ok(asserted.copied()),
            None => Ok(ElementType::Scalar(array.dtype)),
        },
    }
}

pub open spec fn zone_text(zone: Seq<char>, message: Seq<char>) -> Seq<char> {
    "the timestamp column's zone "@ + quoted_text(zone) + ": "@ + message
}

/// What a text reads as, or why it reads as nothing.
pub open spec fn reference_reading(r: Result<TimeReference, String>) -> Result<
    TimeReferenceView,
    Seq<char>,
> {
    match r {
        Ok(t) => Ok(t@),
        Err(e) => Err(e@),
    }
}

/// The spelling a time column's own zone implies.
pub open spec fn zone_reference(
    zone: Option<Seq<char>>,
    reading: Result<TimeReferenceView, Seq<char>>,
) -> Result<TimeReferenceView, Seq<char>> {
    match zone {
        None => Ok(TimeReferenceView::Zoneless),
        Some(z) => if lower_text(z) == lower_text("UTC"@) {
            Ok(TimeReferenceView::Utc)
        } else {
            match reading {
                Ok(t) => Ok(t),
                Err(e) => Err(zone_text(z, e)),
            }
        },
    }
}

/// The spelling a time column's own zone implies, for a file whose footer and column are both
/// silent. `reading` is what the store reads in the zone.
pub fn reference_from_arrow_zone(
    zone: &Option<String>,
    reading: Result<TimeReference, String>,
) -> (r: Result<TimeReference, String>)
    ensures
        match (r, zone_reference(opt_text(*zone), reference_reading(reading))) {
            (Ok(t), Ok(expected)) => t@ == expected,
            (Err(e), Err(text)) => e@ == text,
            _ => false,
        },
{
    match zone {
        None => Ok(TimeReference::Zoneless),
        Some(z) => {
            if same_folded(z.as_str(), "UTC") {
                return Ok(TimeReference::Utc);
            }
            match reading {
                Ok(t) => Ok(t),
                Err(e) => {
                    let mut text = "the timestamp column's zone ".to_string();
                    text.append(quoted(z.as_str()).as_str());
                    text.append(": ");
                    text.append(e.as_str());
                    Err(text)
                },
            }
        },
    }
}

pub open spec fn bad_reference_text(text: Seq<char>, message: Seq<char>) -> Seq<char> {
    schema::TIME_REFERENCE@ + " "@ + quoted_text(text) + ": "@ + message
}

/// The time reference of a series: the option, or else what the file declares, or else what the
/// zone of the time column implies.
pub open spec fn reference_of(
    option: Option<TimeReferenceView>,
    text: Option<Seq<char>>,
    zone: Option<Seq<char>>,
    reading: Result<TimeReferenceView, Seq<char>>,
) -> Result<Option<TimeReferenceView>, Seq<char>> {
    match option {
        Some(t) => Ok(Some(t)),
        None => match text {
            Some(text) => if text == schema::UNSPECIFIED_REFERENCE@ {
                Ok(None)
            } else {
                match reading {
                    Ok(t) => Ok(Some(t)),
                    Err(e) => Err(bad_reference_text(text, e)),
                }
            },
            None => match zone_reference(zone, reading) {
                Ok(t) => Ok(Some(t)),
                Err(e) => Err(e),
            },
        },
    }
}

/// The time reference of a series. The literal that says there is none beats the zone of the
/// column, which keeps a round trip from inventing a claim the series never made.
///
/// `reading` is what the store reads in the text of [`declared_reference`].
pub fn resolve_reference(
    row: &SeriesRow,
    footer: &Footer,
    options: &ImportOptions,
    zone: &Option<String>,
    reading: Result<TimeReference, String>,
) -> (r: Result<Option<TimeReference>, String>)
    ensures
        match (
            r,
            reference_of(
                reference_view(options.time_reference),
                declared(row@.time_reference, footer@, schema::TIME_REFERENCE@),
                opt_text(*zone),
                reference_reading(reading),
            ),
        ) {
            (Ok(t), Ok(expected)) => reference_view(t) == expected,
            (Err(e), Err(text)) => e@ == text,
            _ => false,
        },
{
    match &options.time_reference {
        Some(t) => {
            return Ok(Some(t.copied()));
        },
        None => {},
    }
    match declared_in(row.time_reference.as_str(), footer, schema::TIME_REFERENCE) {
        Some(text) => decode_time_reference(text.as_str(), reading),
        None => match reference_from_arrow_zone(zone, reading) {
            Ok(t) => Ok(Some(t)),
            Err(e) => Err(e),
        },
    }
}

/// A time reference reads back as it was written, whatever the zone of the time column says:
/// both a recorded spelling and the absence of one. The one spelling that cannot is a zone
/// named like the literal that says there is none.
pub proof fn references_read_back(
    reference: Option<TimeReferenceView>,
    zone: Option<Seq<char>>,
    reading: Result<TimeReferenceView, Seq<char>>,
)
    requires
        reference matches Some(r) ==> r.storage_text() != schema::UNSPECIFIED_REFERENCE@ && reading
            == Ok::<_, Seq<char>>(r),
    ensures
        reference_of(None, Some(crate::table::literal_of(reference)), zone, reading) == Ok::<
            _,
            Seq<char>,
        >(reference),
{
}

pub open spec fn nameless_text() -> Seq<char> {
    "the file records no series name and none was given; a name is part of a series' identity, so pass --name"@
}

/// The name of a series: the option, or else the column.
pub open spec fn name_of(option: Option<Seq<char>>, column: Seq<char>) -> Result<
    Seq<char>,
    Seq<char>,
> {
    match option {
        Some(name) => Ok(name),
        None => if column.len() == 0 {
            Err(nameless_text())
        } else {
            Ok(column)
        },
    }
}

/// The name of a series. There is nothing sensible to default it to: a name is part of a
/// series' identity.
pub fn resolve_name(row: &SeriesRow, options: &ImportOptions) -> (r: Result<String, String>)
    ensures
        match (r, name_of(opt_text(options.name), row@.name)) {
            (Ok(name), Ok(expected)) => name@ == expected,
            (Err(e), Err(text)) => e@ == text,
            _ => false,
        },
{
    match &options.name {
        Some(name) => {
            return Ok(name.clone());
        },
        None => {},
    }
    if row.name.as_str().is_empty() {
        return Err(
            "the file records no series name and none was given; a name is part of a series' identity, so pass --name".to_string(),
        );
    }
    Ok(row.name.clone())
}

pub open spec fn missing_owner_text(name: Seq<char>, column: Seq<char>, flag: Seq<char>) -> Seq<
    char,
> {
    "series '"@ + name + "' has no "@ + column
        + ": a file written by `export -f parquet` carries one, a foreign file does not, so pass "@
        + flag
}

/// What is said of a file that says nothing about who owns a series, with no flag that does.
fn missing_owner(name: &str, column: &str, flag: &str) -> (r: String)
    ensures
        r@ == missing_owner_text(name@, column@, flag@),
{
    let mut e = "series '".to_string();
    e.append(name);
    e.append("' has no ");
    e.append(column);
    e.append(
        ": a file written by `export -f parquet` carries one, a foreign file does not, so pass ",
    );
    e.append(flag);
    e
}

/// The id of a series' owner: the option, or else the column.
pub open spec fn owner_id_of(name: Seq<char>, option: Option<i64>, column: Option<i64>) -> Result<
    i64,
    Seq<char>,
> {
    match option {
        Some(id) => Ok(id),
        None => match column {
            Some(id) => Ok(id),
            None => Err(missing_owner_text(name, "owner_id"@, "--owner-id"@)),
        },
    }
}

/// The id of a series' owner. Refused rather than defaulted: owner zero is a real owner.
pub fn resolve_owner_id(row: &SeriesRow, name: &str, options: &ImportOptions) -> (r: Result<
    i64,
    String,
>)
    ensures
        match (r, owner_id_of(name@, options.owner_id, row@.owner_id)) {
            (Ok(id), Ok(expected)) => id == expected,
            (Err(e), Err(text)) => e@ == text,
            _ => false,
        },
{
    match options.owner_id {
        Some(id) => Ok(id),
        None => match row.owner_id {
            Some(id) => Ok(id),
            None => Err(missing_owner(name, "owner_id", "--owner-id")),
        },
    }
}

/// The type of a series' owner: the option, or else the column.
pub open spec fn owner_type_of(
    name: Seq<char>,
    option: Option<Seq<char>>,
    column: Seq<char>,
) -> Result<Seq<char>, Seq<char>> {
    match option {
        Some(text) => Ok(text),
        None => if column.len() == 0 {
            Err(missing_owner_text(name, "owner_type"@, "--owner-type"@))
        } else {
            Ok(column)
        },
    }
}

/// The type of a series' owner, on the same rule as the id.
pub fn resolve_owner_type(row: &SeriesRow, name: &str, options: &ImportOptions) -> (r: Result<
    String,
    String,
>)
    ensures
        match (r, owner_type_of(name@, opt_text(options.owner_type), row@.owner_type)) {
            (Ok(t), Ok(expected)) => t@ == expected,
            (Err(e), Err(text)) => e@ == text,
            _ => false,
        },
{
    match &options.owner_type {
        Some(text) => {
            return Ok(text.clone());
        },
        None => {},
    }
    if row.owner_type.as_str().is_empty() {
        return Err(missing_owner(name, "owner_type", "--owner-type"));
    }
    Ok(row.owner_type.clone())
}

pub open spec fn asserted_shape_text(dims: Seq<usize>, asserted: Seq<usize>) -> Seq<char> {
    "the `"@ + VALUE@ + "` column carries a per-step shape of "@ + shape_text(dims) + ", but "@
        + shape_text(asserted) + " was asserted"@
}

/// The sizes an option holds.
pub open spec fn opt_sizes(v: Option<Vec<usize>>) -> Option<Seq<usize>> {
    match v {
        Some(v) => Some(v@),
        None => None,
    }
}

/// Whether an asserted shape is not the one the value column has.
pub open spec fn shape_fault(dims: Seq<usize>, asserted: Option<Seq<usize>>) -> Option<Seq<char>> {
    match asserted {
        Some(a) => if a != dims {
            Some(asserted_shape_text(dims, a))
        } else {
            None
        },
        None => None,
    }
}

/// Checks an asserted shape against the one the value column has.
pub fn check_element_shape(dims: &Vec<usize>, options: &ImportOptions) -> (r: Result<(), String>)
    ensures
        match (r, shape_fault(dims@, opt_sizes(options.element_shape))) {
            (Ok(_), None) => true,
            (Err(e), Some(text)) => e@ == text,
            _ => false,
        },
{
    match &options.element_shape {
        None => Ok(()),
        Some(asserted) => {
            if same_sizes(asserted, dims) {
                return Ok(());
            }
            let mut e = "the `".to_string();
            e.append(VALUE);
            e.append("` column carries a per-step shape of ");
            e.append(show_shape(dims).as_str());
            e.append(", but ");
            e.append(show_shape(asserted).as_str());
            e.append(" was asserted");
            Err(e)
        },
    }
}

pub open spec fn resolution_text(name: Seq<char>, recorded: Seq<char>, asserted: Seq<char>) -> Seq<
    char,
> {
    "series '"@ + name + "' records a resolution of "@ + recorded + ", but "@ + asserted
        + " was asserted"@
}

/// The step of a series: what the column records, or else what was asserted.
pub open spec fn resolution_of(
    column: SpelledView,
    name: Seq<char>,
    asserted: Option<PeriodView>,
) -> Result<Option<PeriodView>, Seq<char>> {
    if column.text.len() == 0 {
        Ok(asserted)
    } else {
        match column.reading {
            Err(e) => Err("resolution: "@ + e),
            Ok(recorded) => match asserted {
                Some(a) => if a.step != recorded.step {
                    Err(resolution_text(name, recorded.iso, a.iso))
                } else {
                    Ok(Some(recorded))
                },
                None => Ok(Some(recorded)),
            },
        }
    }
}

/// The step of a series. The rows of a foreign file imply a step but do not state one, so an
/// asserted resolution names the grid there.
pub fn resolve_resolution(column: Spelled, name: &str, options: &ImportOptions) -> (r: Result<
    Option<Period>,
    String,
>)
    ensures
        match (r, resolution_of(column@, name@, opt_period(options.resolution))) {
            (Ok(p), Ok(expected)) => opt_period(p) == expected,
            (Err(e), Err(text)) => e@ == text,
            _ => false,
        },
{
    if column.text.as_str().is_empty() {
        return Ok(
            match &options.resolution {
                Some(p) => Some(p.copied()),
                None => None,
            },
        );
    }
    let recorded = match column.reading {
        Ok(p) => p,
        Err(e) => {
            let mut text = "resolution: ".to_string();
            text.append(e.as_str());
            return Err(text);
        },
    };
    match &options.resolution {
        Some(asserted) => {
            if asserted.step != recorded.step {
                let mut e = "series '".to_string();
                e.append(name);
                e.append("' records a resolution of ");
                e.append(recorded.iso.as_str());
                e.append(", but ");
                e.append(asserted.iso.as_str());
                e.append(" was asserted");
                return Err(e);
            }
        },
        None => {},
    }
    Ok(Some(recorded))
}

// ---- Values -----------------------------------------------------------------------------------

pub open spec fn rowless_text() -> Seq<char> {
    "a SingleTimeSeries is anchored at its first timestamp and this group has no rows"@
}

pub open spec fn off_grid_text(name: Seq<char>, resolution: PeriodView, first: i64) -> Seq<char> {
    "series '"@ + name + "' does not sit on a "@ + resolution.iso + " grid anchored at "@
        + instant_text(first)
}

/// What reading a period gives.
pub open spec fn period_reading(r: Result<Period, String>) -> Result<PeriodView, Seq<char>> {
    match r {
        Ok(p) => Ok(p@),
        Err(e) => Err(e@),
    }
}

/// The axis of a regular series: its instants must be those of the grid its step generates from
/// the first of them. Without a step, the one that was inferred is taken.
pub open spec fn single_axis(
    timestamps: Seq<i64>,
    resolution: Option<PeriodView>,
    inferred: Result<PeriodView, Seq<char>>,
    name: Seq<char>,
) -> Result<AxisView, Seq<char>> {
    if timestamps.len() == 0 {
        Err(rowless_text())
    } else {
        let axis = |p: PeriodView|
            AxisView::SingleTimeSeries {
                initial_timestamp: timestamps[0],
                resolution: p,
                length: timestamps.len(),
            };
        match resolution {
            None => match inferred {
                Err(e) => Err(e),
                Ok(p) => Ok(axis(p)),
            },
            Some(p) => if grid_reaches(timestamps[0], p, timestamps.len() as int) && grid_instants(
                timestamps[0],
                p,
                timestamps.len() as int,
            ) == timestamps {
                Ok(axis(p))
            } else {
                Err(off_grid_text(name, p, timestamps[0]))
            },
        }
    }
}

fn same_instants(a: &Vec<i64>, b: &Vec<i64>) -> (r: bool)
    ensures
        r == (a@ == b@),
{
    if a.len() != b.len() {
        return false;
    }
    let mut i: usize = 0;
    while i < a.len()
        invariant
            i <= a.len(),
            a.len() == b.len(),
            forall|j: int| 0 <= j < i ==> a@[j] == b@[j],
        decreases a.len() - i,
    {
        if a[i] != b[i] {
            return false;
        }
        i += 1;
    }
    proof {
        assert(a@ =~= b@);
    }
    true
}

/// The axis of a regular series. The rows are checked against the grid that the resolution
/// generates, and not against successive differences: months are clamped to their ends, so the
/// two are not the same test.
///
/// `inferred` is what the store infers from the instants alone.
pub fn single(
    timestamps: &Vec<i64>,
    resolution: Option<Period>,
    inferred: Result<Period, String>,
    name: &str,
) -> (r: Result<TimeAxis, String>)
    requires
        forall|k: int| 0 <= k < timestamps@.len() ==> is_instant(#[trigger] timestamps@[k] as int),
        timestamps@.len() <= i64::MAX,
    ensures
        match (
            r,
            single_axis(timestamps@, opt_period(resolution), period_reading(inferred), name@),
        ) {
            (Ok(axis), Ok(expected)) => axis@ == expected,
            (Err(e), Err(text)) => e@ == text,
            _ => false,
        },
{
    if timestamps.len() == 0 {
        return Err(
            "a SingleTimeSeries is anchored at its first timestamp and this group has no rows".to_string(),
        );
    }
    let first: i64 = timestamps[0];
    let n: usize = timestamps.len();
    let resolution = match resolution {
        None => {
            return match inferred {
                Ok(p) => Ok(
                    TimeAxis::SingleTimeSeries {
                        initial_timestamp: first,
                        resolution: p,
                        length: n,
                    },
                ),
                Err(e) => Err(e),
            };
        },
        Some(p) => p,
    };
    let sits = match grid_of_instants(first, &resolution, n) {
        Ok(grid) => same_instants(&grid, timestamps),
        Err(_) => false,
    };
    if !sits {
        let mut e = "series '".to_string();
        e.append(name);
        e.append("' does not sit on a ");
        e.append(resolution.iso.as_str());
        e.append(" grid anchored at ");
        e.append(displayed(first).as_str());
        return Err(e);
    }
    Ok(TimeAxis::SingleTimeSeries { initial_timestamp: first, resolution, length: n })
}

/// What the store reads in the texts of a row, and infers from its instants.
#[derive(Debug)]
pub struct Readings {
    /// The element type in the text of [`declared_element_type`].
    pub element_type: Option<ElementType>,
    /// The time reference in the text of [`declared_reference`].
    pub time_reference: Result<TimeReference, String>,
    pub resolution: Result<Period, String>,
    pub interval: Result<Period, String>,
    pub horizon: Result<Period, String>,
    /// The step that the instants walk, if they walk one.
    pub inferred: Result<Period, String>,
}

/// [`Readings`], as views.
pub struct ReadingsView {
    pub element_type: Option<ElementTypeView>,
    pub time_reference: Result<TimeReferenceView, Seq<char>>,
    pub resolution: Result<PeriodView, Seq<char>>,
    pub interval: Result<PeriodView, Seq<char>>,
    pub horizon: Result<PeriodView, Seq<char>>,
    pub inferred: Result<PeriodView, Seq<char>>,
}

impl View for Readings {
    type V = ReadingsView;

    open spec fn view(&self) -> ReadingsView {
        ReadingsView {
            element_type: opt_element(self.element_type),
            time_reference: reference_reading(self.time_reference),
            resolution: period_reading(self.resolution),
            interval: period_reading(self.interval),
            horizon: period_reading(self.horizon),
            inferred: period_reading(self.inferred),
        }
    }
}

/// A series put together from its rows, before the store has seen it.
#[derive(Debug)]
pub struct Assembled {
    pub data: TimeSeriesData,
    pub element_type: ElementType,
    pub time_reference: Option<TimeReference>,
    pub owner_id: i64,
    pub owner_type: String,
}

/// What decides a series besides its values.
pub struct ResolvedView {
    pub kind: TimeSeriesType,
    pub element_type: ElementTypeView,
    pub time_reference: Option<TimeReferenceView>,
    pub name: Seq<char>,
    pub owner_id: i64,
    pub owner_type: Seq<char>,
    pub resolution: Option<PeriodView>,
}

/// What every field of a series comes to, or the first that comes to nothing.
pub open spec fn resolved(
    group: GroupView,
    row: SeriesRowView,
    footer: FooterView,
    options: ImportOptions,
    readings: ReadingsView,
) -> Result<ResolvedView, Seq<char>> {
    match type_of(
        declared(row.kind, footer, schema::TIME_SERIES_TYPE@),
        options.time_series_type,
        readings.inferred is Ok,
    ) {
        Err(text) => Err(text),
        Ok(kind) => match element_of(
            declared(row.element_type, footer, schema::ELEMENT_TYPE@),
            readings.element_type,
            opt_element(options.element_type),
            group.array(),
        ) {
            Err(text) => Err(text),
            Ok(element_type) => match reference_of(
                reference_view(options.time_reference),
                declared(row.time_reference, footer, schema::TIME_REFERENCE@),
                group.zone,
                readings.time_reference,
            ) {
                Err(text) => Err(text),
                Ok(time_reference) => match name_of(opt_text(options.name), row.name) {
                    Err(text) => Err(text),
                    Ok(name) => match owner_id_of(name, options.owner_id, row.owner_id) {
                        Err(text) => Err(text),
                        Ok(owner_id) => match owner_type_of(
                            name,
                            opt_text(options.owner_type),
                            row.owner_type,
                        ) {
                            Err(text) => Err(text),
                            Ok(owner_type) => match shape_fault(
                                group.dims,
                                opt_sizes(options.element_shape),
                            ) {
                                Some(text) => Err(text),
                                None => match resolution_of(
                                    SpelledView {
                                        text: row.resolution,
                                        reading: readings.resolution,
                                    },
                                    name,
                                    opt_period(options.resolution),
                                ) {
                                    Err(text) => Err(text),
                                    Ok(resolution) => Ok(
                                        ResolvedView {
                                            kind,
                                            element_type,
                                            time_reference,
                                            name,
                                            owner_id,
                                            owner_type,
                                            resolution,
                                        },
                                    ),
                                },
                            },
                        },
                    },
                },
            },
        },
    }
}

/// The grid columns of a forecast's row.
pub open spec fn grid_columns(row: SeriesRowView, resolution: Option<PeriodView>, readings: ReadingsView) -> GridColumns {
    GridColumns {
        resolution,
        interval: SpelledView { text: row.interval, reading: readings.interval },
        horizon: SpelledView { text: row.horizon, reading: readings.horizon },
    }
}

/// The coordinates of an array's rows.
pub open spec fn group_rows(group: GroupView) -> RowsView {
    RowsView { timestamps: group.timestamps, issue: group.issue, lanes: group.lanes }
}

/// A static series' axis.
pub open spec fn static_axis(
    kind: TimeSeriesType,
    group: GroupView,
    resolution: Option<PeriodView>,
    inferred: Result<PeriodView, Seq<char>>,
    name: Seq<char>,
) -> Result<AxisView, Seq<char>> {
    match kind {
        TimeSeriesType::SingleTimeSeries => single_axis(
            group.timestamps,
            resolution,
            inferred,
            name,
        ),
        TimeSeriesType::NonSequentialTimeSeries => Ok(
            AxisView::NonSequentialTimeSeries { timestamps: group.timestamps },
        ),
        _ => Ok(AxisView::PersistentTimeSeries { timestamps: group.timestamps }),
    }
}

/// Why a series cannot be put together, if it cannot.
pub open spec fn assembly_fault(
    group: GroupView,
    row: SeriesRowView,
    footer: FooterView,
    options: ImportOptions,
    readings: ReadingsView,
) -> Option<Seq<char>> {
    match resolved(group, row, footer, options, readings) {
        Err(text) => Some(text),
        Ok(v) => if v.kind.forecasts() {
            forecast_fault(
                v.kind,
                grid_columns(row, v.resolution, readings),
                group_rows(group),
                v.name,
            )
        } else {
            match static_axis(v.kind, group, v.resolution, readings.inferred, v.name) {
                Err(text) => Some(text),
                Ok(_) => None,
            }
        },
    }
}

/// Whether a series is what its rows say it is.
pub open spec fn is_assembled(
    a: Assembled,
    group: GroupView,
    row: SeriesRowView,
    footer: FooterView,
    options: ImportOptions,
    readings: ReadingsView,
) -> bool {
    let v = resolved(group, row, footer, options, readings)->Ok_0;
    &&& a.element_type@ == v.element_type
    &&& reference_view(a.time_reference) == v.time_reference
    &&& a.owner_id == v.owner_id
    &&& a.owner_type@ == v.owner_type
    &&& if v.kind.forecasts() {
        is_forecast_of(
            a.data@,
            v.kind,
            grid_columns(row, v.resolution, readings),
            group_rows(group),
            group.array(),
            v.name,
        )
    } else {
        a.data@ == (DataView {
            name: v.name,
            axis: static_axis(v.kind, group, v.resolution, readings.inferred, v.name)->Ok_0,
            array: group.array(),
            descriptors: bare_descriptors(group.array()),
        })
    }
}

/// Puts a series together from the rows of its array and its catalog row.
pub fn assemble(
    group: &ValuesGroup,
    row: &SeriesRow,
    footer: &Footer,
    options: &ImportOptions,
    readings: Readings,
) -> (r: Result<Assembled, String>)
    requires
        group@.wf(),
        group@.timestamps.len() <= i64::MAX,
        group@.issue.len() <= i64::MAX,
    ensures
        match (r, assembly_fault(group@, row@, footer@, *options, readings@)) {
            (Ok(a), None) => is_assembled(a, group@, row@, footer@, *options, readings@),
            (Err(e), Some(text)) => e@ == text,
            _ => false,
        },
{
    let array = group.array();
    let walks_a_grid = readings.inferred.is_ok();
    let kind = match resolve_type(row, footer, options, walks_a_grid) {
        Ok(kind) => kind,
        Err(e) => {
            return Err(e);
        },
    };
    let element_type = match resolve_element_type(
        row,
        &array,
        footer,
        options,
        readings.element_type,
    ) {
        Ok(t) => t,
        Err(e) => {
            return Err(e);
        },
    };
    let time_reference = match resolve_reference(
        row,
        footer,
        options,
        &group.zone,
        readings.time_reference,
    ) {
        Ok(t) => t,
        Err(e) => {
            return Err(e);
        },
    };
    let name = match resolve_name(row, options) {
        Ok(name) => name,
        Err(e) => {
            return Err(e);
        },
    };
    let owner_id: i64 = match resolve_owner_id(row, name.as_str(), options) {
        Ok(id) => id,
        Err(e) => {
            return Err(e);
        },
    };
    let owner_type = match resolve_owner_type(row, name.as_str(), options) {
        Ok(t) => t,
        Err(e) => {
            return Err(e);
        },
    };
    match check_element_shape(&group.dims, options) {
        Ok(_) => {},
        Err(e) => {
            return Err(e);
        },
    }
    let column = Spelled { text: row.resolution.clone(), reading: readings.resolution };
    let resolution = match resolve_resolution(column, name.as_str(), options) {
        Ok(p) => p,
        Err(e) => {
            return Err(e);
        },
    };
    let data = if kind.is_forecast() {
        let rows = Rows {
            timestamps: group.timestamps.clone(),
            issue: group.issue.clone(),
            lanes: copy_lanes(&group.lanes),
        };
        let interval = Spelled { text: row.interval.clone(), reading: readings.interval };
        let horizon = Spelled { text: row.horizon.clone(), reading: readings.horizon };
        proof {
            assert(element_dims(array.shape@) =~= group@.dims);
            assert(array.shape@[0] == group@.timestamps.len());
            assert(rows@ == group_rows(group@));
        }
        match forecast(kind, resolution, interval, horizon, &rows, &array, name) {
            Ok(data) => data,
            Err(e) => {
                return Err(e);
            },
        }
    } else {
        let axis = match kind {
            TimeSeriesType::SingleTimeSeries => match single(
                &group.timestamps,
                resolution,
                readings.inferred,
                name.as_str(),
            ) {
                Ok(axis) => axis,
                Err(e) => {
                    return Err(e);
                },
            },
            TimeSeriesType::NonSequentialTimeSeries => TimeAxis::NonSequentialTimeSeries {
                timestamps: group.timestamps.clone(),
            },
            _ => TimeAxis::PersistentTimeSeries { timestamps: group.timestamps.clone() },
        };
        TimeSeriesData::new(axis, array, name)
    };
    Ok(Assembled { data, element_type, time_reference, owner_id, owner_type })
}

fn copy_lanes(lanes: &Vec<LaneValue>) -> (r: Vec<LaneValue>)
    ensures
        r@ == lanes@,
{
    let mut out: Vec<LaneValue> = Vec::new();
    let mut i: usize = 0;
    while i < lanes.len()
        invariant
            i <= lanes.len(),
            out@ == lanes@.take(i as int),
        decreases lanes.len() - i,
    {
        out.push(lanes[i]);
        i += 1;
    }
    proof {
        assert(lanes@.take(i as int) =~= lanes@);
    }
    out
}

// ---- What is filed ------------------------------------------------------------------------------

/// One series read out of a partition, with the catalog fields a caller needs to file it.
#[derive(Debug)]
pub struct ImportedSeries {
    /// The id the file recorded for this series' row, for reporting only: a caller free to name
    /// an id could file a retired one again.
    pub recorded_id: Option<i64>,
    /// The array this series read, for reporting only. `None` for a foreign file without keys.
    pub array: Option<ArrayKey>,
    pub owner_id: i64,
    pub owner_type: String,
    pub owner_category: OwnerCategory,
    pub features: Features,
    pub data: TimeSeriesData,
}

/// What the store made of an assembled series.
#[derive(Debug)]
pub struct Outcomes {
    /// Whether the store accepts the values as a series of their type.
    pub verdict: Result<(), String>,
    /// The array decoded and encoded again; nothing where its values are the stored elements.
    pub reencoded: Result<Option<TypedArray>, String>,
    /// The hash of the canonical array, in hexadecimal.
    pub actual_hash: Result<String, String>,
}

/// The unit system of a series: the option, or else the column.
pub open spec fn unit_system_of(option: Option<UnitSystem>, column: Seq<char>) -> Result<
    Option<UnitSystem>,
    Seq<char>,
> {
    match option {
        Some(u) => Ok(Some(u)),
        None => match optional_text(column) {
            None => Ok(None),
            Some(text) => match unit_system_in(text) {
                Ok(u) => Ok(Some(u)),
                Err(e) => Err(e),
            },
        },
    }
}

fn resolve_unit_system(row: &SeriesRow, options: &ImportOptions) -> (r: Result<
    Option<UnitSystem>,
    String,
>)
    ensures
        match (r, unit_system_of(options.unit_system, row@.unit_system)) {
            (Ok(u), Ok(expected)) => u == expected,
            (Err(e), Err(text)) => e@ == text,
            _ => false,
        },
{
    match options.unit_system {
        Some(u) => Ok(Some(u)),
        None => {
            if row.unit_system.as_str().is_empty() {
                return Ok(None);
            }
            match decode_unit_system(row.unit_system.as_str()) {
                Ok(u) => Ok(Some(u)),
                Err(e) => Err(e),
            }
        },
    }
}

/// The category of a series' owner: the option, or else the column, or else a component.
pub open spec fn category_of(option: Option<OwnerCategory>, column: Seq<char>) -> Result<
    OwnerCategory,
    Seq<char>,
> {
    match option {
        Some(c) => Ok(c),
        None => if column.len() == 0 {
            Ok(OwnerCategory::Component)
        } else {
            category_in(column)
        },
    }
}

fn resolve_owner_category(row: &SeriesRow, options: &ImportOptions) -> (r: Result<
    OwnerCategory,
    String,
>)
    ensures
        match (r, category_of(options.owner_category, row@.owner_category)) {
            (Ok(c), Ok(expected)) => c == expected,
            (Err(e), Err(text)) => e@ == text,
            _ => false,
        },
{
    match options.owner_category {
        Some(c) => Ok(c),
        None => {
            if row.owner_category.as_str().is_empty() {
                return Ok(OwnerCategory::Component);
            }
            decode_owner_category(row.owner_category.as_str())
        },
    }
}

/// The features of a series: the option, or else the column, and none for an empty column.
pub open spec fn features_given(
    option: Option<Features>,
    column: Seq<char>,
    r: Result<Map<Seq<char>, FeatureView>, Seq<char>>,
) -> bool {
    match option {
        Some(f) => r == Ok::<Map<Seq<char>, FeatureView>, Seq<char>>(f@),
        None => if column.len() == 0 {
            r == Ok::<Map<Seq<char>, FeatureView>, Seq<char>>(Map::empty())
        } else {
            decodes(column, r)
        },
    }
}

fn resolve_features(row: &SeriesRow, options: &ImportOptions) -> (r: Result<Features, String>)
    ensures
        features_given(options.features, row@.features, features_result(r)),
{
    match &options.features {
        Some(f) => Ok(f.copied()),
        None => {
            if row.features.as_str().is_empty() {
                return Ok(Features::new());
            }
            decode_features(row.features.as_str())
        },
    }
}

/// What describes the series.
pub open spec fn described(
    a: Assembled,
    row: SeriesRowView,
    options: ImportOptions,
    unit_system: Option<UnitSystem>,
) -> DescriptorsView {
    DescriptorsView {
        element_type: a.element_type@,
        units: override_of(opt_text(options.units), row.units),
        quantity_kind: override_of(opt_text(options.quantity_kind), row.quantity_kind),
        unit_system,
        time_reference: reference_view(a.time_reference),
        component_field: override_of(opt_text(options.component_field), row.component_field),
        application_data: override_of(opt_text(options.application_data), row.application_data),
    }
}

pub open spec fn checksum_text(name: Seq<char>, recorded: Seq<char>, actual: Seq<char>) -> Seq<char> {
    "series '"@ + name + "' does not match its recorded "@ + DATA_HASH@ + ": the file says "@
        + recorded + " and its rows hash to "@ + actual
        + ". Values edited in a query engine need the hash recomputed, or --no-checksum to waive the comparison."@
}

/// What a hash came to.
pub open spec fn hash_result(r: Result<String, String>) -> Result<Seq<char>, Seq<char>> {
    match r {
        Ok(t) => Ok(t@),
        Err(e) => Err(e@),
    }
}

/// Why the values are not those the file was written with, if they are not.
pub open spec fn checksum_fault(
    recorded: Seq<char>,
    skip: bool,
    actual: Result<Seq<char>, Seq<char>>,
    name: Seq<char>,
) -> Option<Seq<char>> {
    if skip || recorded.len() == 0 {
        None
    } else {
        match actual {
            Err(e) => Some(e),
            Ok(hash) => if hash == recorded {
                None
            } else {
                Some(checksum_text(name, recorded, hash))
            },
        }
    }
}

/// Compares the recorded hash with that of the values as they are encoded again. A file of
/// values is what people open in a query engine and write back.
pub fn verify_checksum(
    key: &ArrayKey,
    name: &str,
    options: &ImportOptions,
    actual: Result<String, String>,
) -> (r: Result<(), String>)
    ensures
        match (
            r,
            checksum_fault(key@.data_hash, options.skip_checksum, hash_result(actual), name@),
        ) {
            (Ok(_), None) => true,
            (Err(e), Some(text)) => e@ == text,
            _ => false,
        },
{
    if options.skip_checksum || key.data_hash.as_str().is_empty() {
        return Ok(());
    }
    let hash = match actual {
        Ok(hash) => hash,
        Err(e) => {
            return Err(e);
        },
    };
    if same_text(hash.as_str(), key.data_hash.as_str()) {
        return Ok(());
    }
    let mut e = "series '".to_string();
    e.append(name);
    e.append("' does not match its recorded ");
    e.append(DATA_HASH);
    e.append(": the file says ");
    e.append(key.data_hash.as_str());
    e.append(" and its rows hash to ");
    e.append(hash.as_str());
    e.append(
        ". Values edited in a query engine need the hash recomputed, or --no-checksum to waive the comparison.",
    );
    Err(e)
}

/// Why an assembled series cannot be filed, if it cannot, its features aside.
pub open spec fn filing_fault(
    a: Assembled,
    key: ArrayKeyView,
    row: SeriesRowView,
    options: ImportOptions,
    outcomes: Outcomes,
) -> Option<Seq<char>> {
    match outcomes.verdict {
        Err(e) => Some(e@),
        Ok(_) => match unit_system_of(options.unit_system, row.unit_system) {
            Err(text) => Some(text),
            Ok(_) => match canonical(
                a.data@.array,
                a.element_type@ is Composite,
                reencoding(outcomes.reencoded),
            ) {
                Err(text) => Some(text),
                Ok(_) => match checksum_fault(
                    key.data_hash,
                    options.skip_checksum,
                    hash_result(outcomes.actual_hash),
                    a.data@.name,
                ) {
                    Some(text) => Some(text),
                    None => match category_of(options.owner_category, row.owner_category) {
                        Err(text) => Some(text),
                        Ok(_) => None,
                    },
                },
            },
        },
    }
}

/// Whether a series is filed as its rows and the options say.
pub open spec fn is_filed(
    s: ImportedSeries,
    a: Assembled,
    row: SeriesRowView,
    options: ImportOptions,
    outcomes: Outcomes,
) -> bool {
    &&& s.recorded_id == (if row.id != 0 {
        Some(row.id)
    } else {
        None
    })
    &&& match s.array {
        Some(key) => row.key.data_hash.len() > 0 && key@ == row.key,
        None => row.key.data_hash.len() == 0,
    }
    &&& s.owner_id == a.owner_id
    &&& s.owner_type@ == a.owner_type@
    &&& s.owner_category == category_of(options.owner_category, row.owner_category)->Ok_0
    &&& s.data@ == (DataView {
        name: a.data@.name,
        axis: a.data@.axis,
        array: canonical(
            a.data@.array,
            a.element_type@ is Composite,
            reencoding(outcomes.reencoded),
        )->Ok_0,
        descriptors: described(
            a,
            row,
            options,
            unit_system_of(options.unit_system, row.unit_system)->Ok_0,
        ),
    })
}

/// Makes an assembled series ready to be filed: described, shrunk back to the width its own
/// points need, and checked against the hash that was recorded for it.
pub fn finish_import(
    a: Assembled,
    key: &ArrayKey,
    row: &SeriesRow,
    options: &ImportOptions,
    outcomes: Outcomes,
) -> (r: Result<ImportedSeries, String>)
    ensures
        match (r, filing_fault(a, key@, row@, *options, outcomes)) {
            (Err(e), Some(text)) => e@ == text,
            (Err(e), None) => features_given(
                options.features,
                row@.features,
                Err::<Map<Seq<char>, FeatureView>, Seq<char>>(e@),
            ),
            (Ok(s), None) => is_filed(s, a, row@, *options, outcomes) && features_given(
                options.features,
                row@.features,
                Ok::<Map<Seq<char>, FeatureView>, Seq<char>>(s.features@),
            ),
            (Ok(_), Some(_)) => false,
        },
{
    match outcomes.verdict {
        Ok(_) => {},
        Err(e) => {
            return Err(e);
        },
    }
    let unit_system = match resolve_unit_system(row, options) {
        Ok(u) => u,
        Err(e) => {
            return Err(e);
        },
    };
    let array = match canonical_array(a.data.array, &a.element_type, outcomes.reencoded) {
        Ok(array) => array,
        Err(e) => {
            return Err(e);
        },
    };
    match verify_checksum(key, a.data.name.as_str(), options, outcomes.actual_hash) {
        Ok(_) => {},
        Err(e) => {
            return Err(e);
        },
    }
    let owner_category = match resolve_owner_category(row, options) {
        Ok(c) => c,
        Err(e) => {
            return Err(e);
        },
    };
    let features = match resolve_features(row, options) {
        Ok(f) => f,
        Err(e) => {
            return Err(e);
        },
    };
    let descriptors = Descriptors {
        element_type: a.element_type,
        units: override_text(&options.units, row.units.as_str()),
        quantity_kind: override_text(&options.quantity_kind, row.quantity_kind.as_str()),
        unit_system,
        time_reference: a.time_reference,
        component_field: override_text(&options.component_field, row.component_field.as_str()),
        application_data: override_text(&options.application_data, row.application_data.as_str()),
    };
    Ok(
        ImportedSeries {
            recorded_id: if row.id != 0 {
                Some(row.id)
            } else {
                None
            },
            array: if row.key.data_hash.as_str().is_empty() {
                None
            } else {
                Some(row.key.copied())
            },
            owner_id: a.owner_id,
            owner_type: a.owner_type,
            owner_category,
            features,
            data: TimeSeriesData { name: a.data.name, axis: a.data.axis, array, descriptors },
        },
    )
}

// ---- What is taken from where ---------------------------------------------------------------

/// Whether a file says a text: in the series' own row, or, where that says nothing, in the footer.
pub open spec fn file_says(
    own: Seq<char>,
    footer: FooterView,
    key: Seq<char>,
    text: Seq<char>,
) -> bool {
    text.len() > 0 && (own == text || (own.len() == 0 && footer.contains_key(key) && footer[key]
        == text))
}

/// Whether a file says nothing, neither in the series' own row nor in the footer.
pub open spec fn file_is_silent(own: Seq<char>, footer: FooterView, key: Seq<char>) -> bool {
    own.len() == 0 && (footer.contains_key(key) ==> footer[key].len() == 0)
}

/// A series is of the type its file says, if the caller asserts no other; where the file says
/// nothing, of the asserted one, and without either a grid makes it a regular series. What is
/// derived in the store is not taken from a file.
pub proof fn types_are_those_said(
    row: SeriesRow,
    footer: Footer,
    options: ImportOptions,
    walks_a_grid: bool,
    said: TimeSeriesType,
    r: Result<TimeSeriesType, String>,
)
    requires
        call_ensures(resolve_type, (&row, &footer, &options, walks_a_grid), r),
    ensures
        ({
            let asserted = options.time_series_type;
            let own = row.time_series_type@;
            let key = schema::TIME_SERIES_TYPE@;
            &&& file_says(own, footer@, key, said.spelling()) ==> match r {
                Ok(kind) => kind == said && said != TimeSeriesType::DeterministicSingleTimeSeries
                    && (asserted is Some ==> asserted == Some(said)),
                Err(_) => said == TimeSeriesType::DeterministicSingleTimeSeries || (asserted is Some
                    && asserted != Some(said)),
            }
            &&& file_is_silent(own, footer@, key) ==> r is Ok && (asserted is Some ==> asserted
                == Some(r->Ok_0)) && (asserted is None && walks_a_grid ==> r->Ok_0
                == TimeSeriesType::SingleTimeSeries) && (asserted is None && !walks_a_grid
                ==> r->Ok_0 == TimeSeriesType::NonSequentialTimeSeries)
        }),
{
    crate::kinds::type_spelling_reads_back(said);
}

/// A series has the elements its file says, as they were read, if the caller asserts no others;
/// where the file says nothing, the asserted ones, and without either the numbers of its array.
pub proof fn elements_are_those_said(
    row: SeriesRow,
    array: TypedArray,
    footer: Footer,
    options: ImportOptions,
    reading: Option<ElementType>,
    text: Seq<char>,
    r: Result<ElementType, String>,
)
    requires
        call_ensures(resolve_element_type, (&row, &array, &footer, &options, reading), r),
    ensures
        ({
            let own = row.element_type@;
            let key = schema::ELEMENT_TYPE@;
            &&& file_says(own, footer@, key, text) ==> match r {
                Ok(t) => reading is Some && reading->0@ == t@ && (options.element_type matches Some(
                    a,
                ) ==> a@ == t@),
                Err(_) => reading is None || (options.element_type is Some
                    && options.element_type->0@ != reading->0@),
            }
            &&& file_is_silent(own, footer@, key) ==> r is Ok && (options.element_type matches Some(
                a,
            ) ==> r->Ok_0@ == a@) && (options.element_type is None ==> r->Ok_0@
                == ElementTypeView::Scalar(array.dtype))
        }),
{
}

/// A series' clock times are against what the caller gave. Without that they are against what the
/// file says, as it was read; and without a word, against the zone of the time column, in which
/// no zone is no reference at all and UTC is UTC however it is written.
pub proof fn references_are_those_said(
    row: SeriesRow,
    footer: Footer,
    options: ImportOptions,
    zone: Option<String>,
    reading: Result<TimeReference, String>,
    text: Seq<char>,
    r: Result<Option<TimeReference>, String>,
)
    requires
        call_ensures(resolve_reference, (&row, &footer, &options, &zone, reading), r),
    ensures
        ({
            let given = options.time_reference;
            let own = row.time_reference@;
            let key = schema::TIME_REFERENCE@;
            &&& given matches Some(t) ==> (r matches Ok(Some(v)) && v@ == t@)
            &&& given is None && file_says(own, footer@, key, text) ==> if text
                == schema::UNSPECIFIED_REFERENCE@ {
                r is Ok && r->Ok_0 is None
            } else {
                match r {
                    Ok(Some(t)) => reading is Ok && reading->Ok_0@ == t@,
                    Ok(None) => false,
                    Err(_) => reading is Err,
                }
            }
            &&& given is None && file_is_silent(own, footer@, key) ==> match zone {
                None => r matches Ok(Some(t)) && t@ == TimeReferenceView::Zoneless,
                Some(z) => if lower_text(z@) == lower_text("UTC"@) {
                    r matches Ok(Some(t)) && t@ == TimeReferenceView::Utc
                } else {
                    match r {
                        Ok(Some(t)) => reading is Ok && reading->Ok_0@ == t@,
                        Ok(None) => false,
                        Err(_) => reading is Err,
                    }
                },
            }
        }),
{
}

/// What the caller gives of a series' identity comes before what its row says, and what neither
/// gives is refused.
pub proof fn identities_are_those_given(
    row: SeriesRow,
    series: &str,
    options: ImportOptions,
    name: Result<String, String>,
    owner: Result<i64, String>,
    owner_type: Result<String, String>,
)
    requires
        call_ensures(resolve_name, (&row, &options), name),
        call_ensures(resolve_owner_id, (&row, series, &options), owner),
        call_ensures(resolve_owner_type, (&row, series, &options), owner_type),
    ensures
        name is Err <==> options.name is None && row.name@.len() == 0,
        name matches Ok(n) ==> n@ == (if options.name is Some {
            options.name->0@
        } else {
            row.name@
        }),
        owner is Err <==> options.owner_id is None && row.owner_id is None,
        owner matches Ok(id) ==> Some(id) == (if options.owner_id is Some {
            options.owner_id
        } else {
            row.owner_id
        }),
        owner_type is Err <==> options.owner_type is None && row.owner_type@.len() == 0,
        owner_type matches Ok(t) ==> t@ == (if options.owner_type is Some {
            options.owner_type->0@
        } else {
            row.owner_type@
        }),
{
}

/// What a row says stands where the caller gives nothing, what the caller gives stands instead of
/// it, and a text without characters is none.
pub proof fn texts_are_those_given(
    given: Option<String>,
    column: &str,
    r: Option<String>,
    alone: Option<String>,
)
    requires
        call_ensures(override_text, (&given, column), r),
        call_ensures(optional, (column,), alone),
    ensures
        given matches Some(text) ==> (r is None <==> text@.len() == 0),
        given matches Some(text) ==> (r matches Some(out) ==> out@ == text@),
        given is None ==> (r is None <==> column@.len() == 0),
        given is None ==> (r matches Some(out) ==> out@ == column@),
        alone is None <==> column@.len() == 0,
        alone matches Some(out) ==> out@ == column@,
{
}

/// An asserted shape passes where it is that of the steps. An asserted resolution passes where
/// nothing else is recorded, or a step of the same length; the recorded one is kept.
pub proof fn assertions_are_held_to(
    dims: Vec<usize>,
    column: Spelled,
    name: &str,
    options: ImportOptions,
    shape: Result<(), String>,
    resolution: Result<Option<Period>, String>,
)
    requires
        call_ensures(check_element_shape, (&dims, &options), shape),
        call_ensures(resolve_resolution, (column, name, &options), resolution),
    ensures
        shape is Ok <==> (options.element_shape matches Some(asserted) ==> asserted@ == dims@),
        column.text@.len() == 0 ==> resolution is Ok && opt_period(resolution->Ok_0) == opt_period(
            options.resolution,
        ),
        column.text@.len() > 0 ==> (resolution is Ok <==> column.reading is Ok && (
        options.resolution matches Some(asserted) ==> asserted.step == column.reading->Ok_0.step)),
        column.text@.len() > 0 && resolution is Ok ==> (resolution->Ok_0 matches Some(p) && p@
            == column.reading->Ok_0@),
{
}

/// A recorded hash is compared unless the caller waives it, and values that hash to anything else
/// are refused.
pub proof fn hashes_are_compared(
    key: ArrayKey,
    name: &str,
    options: ImportOptions,
    actual: Result<String, String>,
    r: Result<(), String>,
)
    requires
        call_ensures(verify_checksum, (&key, name, &options, actual), r),
    ensures
        r is Ok <==> options.skip_checksum || key.data_hash@.len() == 0 || (actual is Ok
            && actual->Ok_0@ == key.data_hash@),
{
}

/// A regular series begins at its first instant, has as many steps as there are instants, and
/// every instant is where its step leads; instants that are not on the grid are refused.
pub proof fn regular_series_keep_their_instants(
    timestamps: Vec<i64>,
    resolution: Period,
    inferred: Result<Period, String>,
    name: &str,
    r: Result<TimeAxis, String>,
)
    requires
        call_ensures(single, (&timestamps, Some(resolution), inferred, name), r),
        forall|k: int|
            0 <= k < timestamps@.len() ==> is_instant(#[trigger] timestamps@[k] as int),
        0 < timestamps@.len() <= i64::MAX,
    ensures
        r is Ok <==> forall|k: int|
            0 <= k < timestamps@.len() ==> crate::instant::step_from(
                resolution.step,
                timestamps@[0],
                k as i64,
            ) == Some(#[trigger] timestamps@[k]),
        r matches Ok(axis) ==> (axis@ matches AxisView::SingleTimeSeries {
            initial_timestamp,
            resolution: p,
            length,
        } && initial_timestamp == timestamps@[0] && p == resolution@ && length
            == timestamps@.len()),
{
    let n = timestamps@.len() as int;
    let first = timestamps@[0];
    let all = forall|k: int|
        0 <= k < n ==> crate::instant::step_from(resolution.step, first, k as i64) == Some(
            #[trigger] timestamps@[k],
        );
    if grid_reaches(first, resolution@, n) && grid_instants(first, resolution@, n) == timestamps@ {
        assert forall|k: int| 0 <= k < n implies crate::instant::step_from(
            resolution.step,
            first,
            k as i64,
        ) == Some(#[trigger] timestamps@[k]) by {
            assert(grid_at(first, resolution@, k) is Some);
            assert(grid_instants(first, resolution@, n)[k] == timestamps@[k]);
        }
    }
    if all {
        assert forall|k: int| 0 <= k < n implies (#[trigger] grid_at(
            first,
            resolution@,
            k,
        )) is Some by {
            assert(crate::instant::step_from(resolution.step, first, k as i64) == Some(
                timestamps@[k],
            ));
        }
        assert(grid_instants(first, resolution@, n) =~= timestamps@) by {
            assert forall|k: int| 0 <= k < n implies grid_instants(first, resolution@, n)[k]
                == timestamps@[k] by {
                assert(crate::instant::step_from(resolution.step, first, k as i64) == Some(
                    timestamps@[k],
                ));
            }
        }
    }
}

/// Whether a field is the caller's, or, where the caller gives nothing, the row's, and none where
/// it has no characters.
pub open spec fn given_or_said(out: Option<String>, given: Option<String>, own: Seq<char>) -> bool {
    let text = if given is Some {
        given->0@
    } else {
        own
    };
    opt_text(out) == (if text.len() == 0 {
        None
    } else {
        Some(text)
    })
}

/// A filed series keeps what it was assembled as, the id and the key its row records, and each
/// descriptor from the caller or from the row, under its own name. An id of zero is none, and
/// neither is a key without a hash.
pub proof fn filed_series_keep_what_was_recorded(
    a: Assembled,
    key: ArrayKey,
    row: SeriesRow,
    options: ImportOptions,
    outcomes: Outcomes,
    r: Result<ImportedSeries, String>,
)
    requires
        call_ensures(finish_import, (a, &key, &row, &options, outcomes), r),
        r is Ok,
    ensures
        ({
            let s = r->Ok_0;
            let d = s.data.descriptors;
            &&& s.recorded_id is None <==> row.id == 0
            &&& s.recorded_id matches Some(id) ==> id == row.id
            &&& s.array is None <==> row.key.data_hash@.len() == 0
            &&& s.array matches Some(k) ==> k@ == row.key@
            &&& s.owner_id == a.owner_id
            &&& s.owner_type@ == a.owner_type@
            &&& s.data@.name == a.data@.name
            &&& s.data@.axis == a.data@.axis
            &&& d.element_type@ == a.element_type@
            &&& reference_view(d.time_reference) == reference_view(a.time_reference)
            &&& given_or_said(d.units, options.units, row.units@)
            &&& given_or_said(d.quantity_kind, options.quantity_kind, row.quantity_kind@)
            &&& given_or_said(d.component_field, options.component_field, row.component_field@)
            &&& given_or_said(d.application_data, options.application_data, row.application_data@)
            &&& options.unit_system is Some ==> d.unit_system == options.unit_system
            &&& options.unit_system is None && row.unit_system@.len() == 0 ==> d.unit_system is None
            &&& options.unit_system is None && row.unit_system@.len() > 0 ==> (
            d.unit_system matches Some(u) && u.spelling() == row.unit_system@)
            &&& options.owner_category matches Some(c) ==> s.owner_category == c
            &&& options.owner_category is None && row.owner_category@.len() > 0
                ==> s.owner_category.spelling() == row.owner_category@
            &&& options.owner_category is None && row.owner_category@.len() == 0
                ==> s.owner_category == OwnerCategory::Component
            &&& options.features matches Some(f) ==> s.features@ == f@
            &&& options.features is None && row.features@.len() == 0 ==> s.features@ == Map::<
                Seq<char>,
                FeatureView,
            >::empty()
        }),
{
}

/// A series is filed exactly where nothing speaks against it: the store's verdict, its unit
/// system and its owner's category, the hash of its values, the packing of function data, and its
/// features.
pub proof fn series_are_filed_where_nothing_speaks_against_it(
    a: Assembled,
    key: ArrayKey,
    row: SeriesRow,
    options: ImportOptions,
    outcomes: Outcomes,
    r: Result<ImportedSeries, String>,
)
    requires
        call_ensures(finish_import, (a, &key, &row, &options, outcomes), r),
        options.features is Some || row.features@.len() == 0,
    ensures
        r is Ok <==> {
            &&& outcomes.verdict is Ok
            &&& options.unit_system is None && row.unit_system@.len() > 0 ==> exists|u: UnitSystem|
                #[trigger] u.spelling() == row.unit_system@
            &&& options.owner_category is None && row.owner_category@.len() > 0 ==> exists|
                c: OwnerCategory,
            |
                #[trigger] c.spelling() == row.owner_category@
            &&& a.element_type is Composite ==> outcomes.reencoded is Ok
            &&& options.skip_checksum || key.data_hash@.len() == 0 || (outcomes.actual_hash is Ok
                && outcomes.actual_hash->Ok_0@ == key.data_hash@)
        },
{
    if let Some(u) = UnitSystem::read(row.unit_system@) {
        assert(u.spelling() == row.unit_system@);
    }
    if let Some(c) = OwnerCategory::read(row.owner_category@) {
        assert(c.spelling() == row.owner_category@);
    }
    if exists|u: UnitSystem| #[trigger] u.spelling() == row.unit_system@ {
        let u = choose|u: UnitSystem| #[trigger] u.spelling() == row.unit_system@;
        crate::kinds::unit_system_spelling_reads_back(u);
    }
    if exists|c: OwnerCategory| #[trigger] c.spelling() == row.owner_category@ {
        let c = choose|c: OwnerCategory| #[trigger] c.spelling() == row.owner_category@;
        crate::kinds::category_spelling_reads_back(c);
    }
}

/// A series is assembled of what each of its parts is resolved to, and is refused where one of
/// them is: its type, its elements, its reference, its name and its owner. Its values are those
/// of its rows, in their order, and its instants are theirs.
pub proof fn series_are_assembled_of_their_parts(
    group: ValuesGroup,
    array: TypedArray,
    row: SeriesRow,
    series: &str,
    footer: Footer,
    options: ImportOptions,
    readings: Readings,
    kind: Result<TimeSeriesType, String>,
    element: Result<ElementType, String>,
    reference: Result<Option<TimeReference>, String>,
    name: Result<String, String>,
    owner: Result<i64, String>,
    owner_type: Result<String, String>,
    shape: Result<(), String>,
    r: Result<Assembled, String>,
)
    requires
        call_ensures(assemble, (&group, &row, &footer, &options, readings), r),
        array@ == group@.array(),
        call_ensures(resolve_type, (&row, &footer, &options, readings.inferred is Ok), kind),
        call_ensures(
            resolve_element_type,
            (&row, &array, &footer, &options, readings.element_type),
            element,
        ),
        call_ensures(
            resolve_reference,
            (&row, &footer, &options, &group.zone, readings.time_reference),
            reference,
        ),
        call_ensures(resolve_name, (&row, &options), name),
        call_ensures(resolve_owner_id, (&row, series, &options), owner),
        call_ensures(resolve_owner_type, (&row, series, &options), owner_type),
        call_ensures(check_element_shape, (&group.dims, &options), shape),
    ensures
        r is Ok ==> kind is Ok && element is Ok && reference is Ok && name is Ok && owner is Ok
            && owner_type is Ok && shape is Ok,
        r matches Ok(a) ==> {
            &&& a.element_type@ == element->Ok_0@
            &&& reference_view(a.time_reference) == reference_view(reference->Ok_0)
            &&& a.data@.name == name->Ok_0@
            &&& a.owner_id == owner->Ok_0
            &&& a.owner_type@ == owner_type->Ok_0@
            &&& !kind->Ok_0.forecasts() ==> a.data@.array == group@.array()
            &&& kind->Ok_0 == TimeSeriesType::SingleTimeSeries ==> (
            a.data@.axis matches AxisView::SingleTimeSeries { initial_timestamp, length, .. }
                && initial_timestamp == group.timestamps@[0] && length == group.timestamps@.len())
            &&& kind->Ok_0 == TimeSeriesType::NonSequentialTimeSeries ==> (
            a.data@.axis matches AxisView::NonSequentialTimeSeries { timestamps } && timestamps
                == group.timestamps@)
            &&& kind->Ok_0 == TimeSeriesType::PersistentTimeSeries ==> (
            a.data@.axis matches AxisView::PersistentTimeSeries { timestamps } && timestamps
                == group.timestamps@)
            &&& kind->Ok_0.forecasts() ==> {
                let grid = crate::rows::grid_of_axis(a.data@.axis);
                &&& readings.interval is Ok ==> grid.interval == readings.interval->Ok_0@
                &&& readings.horizon is Ok ==> grid.horizon == readings.horizon->Ok_0@
            }
        },
{
}

} // verus!
