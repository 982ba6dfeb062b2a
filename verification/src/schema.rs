//! The names of the columns, and the codecs of the values that are not plain text.
//!
//! Every one of these is a column of a table, and for the partition's keys also an entry of
//! the footer. Writer and reader have to agree on them exactly.
use crate::kinds::{ElementType, OwnerCategory, TimeReference, TimeSeriesType, UnitSystem};
use crate::partition::size_texts;
use crate::text::{joined, quoted, quoted_text, same_text};
use vstd::prelude::*;

verus! {

/// Which series type the rows describe.
pub const TIME_SERIES_TYPE: &'static str = "time_series_type";

/// The series' name, part of its identity.
pub const NAME: &'static str = "name";

/// The canonical spelling of the element type.
pub const ELEMENT_TYPE: &'static str = "element_type";

/// The per-step trailing dimensions as a JSON array, `[]` for a scalar: those of the value
/// column, without the axes of a forecast.
pub const ELEMENT_SHAPE: &'static str = "element_shape";

/// The ISO-8601 grid step.
pub const RESOLUTION: &'static str = "resolution";

/// The stored spelling of the time reference, always written: a column's zone cannot tell a
/// wall clock from a series that records no spelling.
pub const TIME_REFERENCE: &'static str = "time_reference";

/// What the time reference of a series that records none is written as. It is no spelling of a
/// reference, and is read back as the absence of one.
pub const UNSPECIFIED_REFERENCE: &'static str = "unspecified";

/// A free-form unit label.
pub const UNITS: &'static str = "units";

/// What kind of physical quantity the values measure.
pub const QUANTITY_KIND: &'static str = "quantity_kind";

/// `natural_units` or `component_base`.
pub const UNIT_SYSTEM: &'static str = "unit_system";

/// The owning component's field these values vary.
pub const COMPONENT_FIELD: &'static str = "component_field";

/// The opaque payload, verbatim.
pub const APPLICATION_DATA: &'static str = "application_data";

/// The catalog row's id: written so a file names the row it came from, and never filed under.
pub const ID: &'static str = "id";

/// The owner's id.
pub const OWNER_ID: &'static str = "owner_id";

/// The owner's type name.
pub const OWNER_TYPE: &'static str = "owner_type";

/// `Component` or `SupplementalAttribute`.
pub const OWNER_CATEGORY: &'static str = "owner_category";

/// The feature map as a JSON object.
pub const FEATURES: &'static str = "features";

/// The first instant of a regular grid.
pub const INITIAL_TIMESTAMP: &'static str = "initial_timestamp";

/// How many instants a regular grid has.
pub const LENGTH: &'static str = "length";

/// How far apart two windows are issued.
pub const INTERVAL: &'static str = "interval";

/// How far ahead one window reaches.
pub const HORIZON: &'static str = "horizon";

/// How many windows a forecast has.
pub const COUNT: &'static str = "count";

/// How many trajectories a scenarios forecast has.
pub const SCENARIO_COUNT: &'static str = "scenario_count";

/// A list of sizes as JSON: `[2,3]`, or `[]`.
pub open spec fn sizes_json_text(shape: Seq<usize>) -> Seq<char> {
    "["@ + joined(size_texts(shape), ","@) + "]"@
}

/// `serde_json::to_string` of a list of sizes, which always succeeds: the sizes in decimal,
/// with a comma between each two, in square brackets.
#[verifier::external_body]
fn json_of_sizes(shape: &Vec<usize>) -> (r: String)
    ensures
        r@ == sizes_json_text(shape@),
{
    serde_json::to_string(shape).unwrap_or_default()
}

/// `[2,3]`, or `[]` for a scalar element.
pub fn encode_element_shape(shape: &Vec<usize>) -> (r: String)
    ensures
        r@ == sizes_json_text(shape@),
{
    json_of_sizes(shape)
}

/// What is said of a text that spells nothing its column can hold.
pub open spec fn unknown_text(column: Seq<char>, text: Seq<char>) -> Seq<char> {
    "unknown "@ + column + " "@ + quoted_text(text)
}

fn unknown(column: &str, text: &str) -> (r: String)
    ensures
        r@ == unknown_text(column@, text@),
{
    let mut e = "unknown ".to_string();
    e.append(column);
    e.append(" ");
    e.append(quoted(text).as_str());
    e
}

/// The series type a column's text spells.
pub open spec fn type_in(text: Seq<char>) -> Result<TimeSeriesType, Seq<char>> {
    match TimeSeriesType::read(text) {
        Some(t) => Ok(t),
        None => Err(unknown_text(TIME_SERIES_TYPE@, text)),
    }
}

/// The series type a column's text spells.
pub fn decode_time_series_type(text: &str) -> (r: Result<TimeSeriesType, String>)
    ensures
        match (r, type_in(text@)) {
            (Ok(t), Ok(expected)) => t == expected,
            (Err(e), Err(expected)) => e@ == expected,
            _ => false,
        },
{
    match TimeSeriesType::parse(text) {
        Some(t) => Ok(t),
        None => Err(unknown(TIME_SERIES_TYPE, text)),
    }
}

/// The element type a column's text spells, given what the store reads in it.
pub open spec fn element_in(text: Seq<char>, reading: Option<ElementType>) -> Result<
    ElementType,
    Seq<char>,
> {
    match reading {
        Some(t) => Ok(t),
        None => Err(unknown_text(ELEMENT_TYPE@, text)),
    }
}

/// The element type a column's text spells, given what the store reads in it.
pub fn decode_element_type(text: &str, reading: Option<ElementType>) -> (r: Result<
    ElementType,
    String,
>)
    ensures
        match (r, element_in(text@, reading)) {
            (Ok(t), Ok(expected)) => t == expected,
            (Err(e), Err(expected)) => e@ == expected,
            _ => false,
        },
{
    match reading {
        Some(t) => Ok(t),
        None => Err(unknown(ELEMENT_TYPE, text)),
    }
}

/// The time reference a column's text spells, given what the store reads in it: none for the
/// literal that says so.
pub open spec fn reference_in(text: Seq<char>, reading: Result<TimeReference, String>) -> Result<
    Option<TimeReference>,
    Seq<char>,
> {
    if text == UNSPECIFIED_REFERENCE@ {
        Ok(None)
    } else {
        match reading {
            Ok(reference) => Ok(Some(reference)),
            Err(e) => Err(TIME_REFERENCE@ + " "@ + quoted_text(text) + ": "@ + e@),
        }
    }
}

/// The time reference a column's text spells, given what the store reads in it.
pub fn decode_time_reference(text: &str, reading: Result<TimeReference, String>) -> (r: Result<
    Option<TimeReference>,
    String,
>)
    ensures
        match (r, reference_in(text@, reading)) {
            (Ok(t), Ok(expected)) => t == expected,
            (Err(e), Err(expected)) => e@ == expected,
            _ => false,
        },
{
    if same_text(text, UNSPECIFIED_REFERENCE) {
        return Ok(None);
    }
    match reading {
        Ok(reference) => Ok(Some(reference)),
        Err(e) => {
            let mut out = TIME_REFERENCE.to_string();
            out.append(" ");
            out.append(quoted(text).as_str());
            out.append(": ");
            out.append(e.as_str());
            Err(out)
        },
    }
}

/// The owner category a column's text spells.
pub open spec fn category_in(text: Seq<char>) -> Result<OwnerCategory, Seq<char>> {
    match OwnerCategory::read(text) {
        Some(c) => Ok(c),
        None => Err(unknown_text(OWNER_CATEGORY@, text)),
    }
}

/// The owner category a column's text spells.
pub fn decode_owner_category(text: &str) -> (r: Result<OwnerCategory, String>)
    ensures
        match (r, category_in(text@)) {
            (Ok(t), Ok(expected)) => t == expected,
            (Err(e), Err(expected)) => e@ == expected,
            _ => false,
        },
{
    match OwnerCategory::parse(text) {
        Some(c) => Ok(c),
        None => Err(unknown(OWNER_CATEGORY, text)),
    }
}

/// The unit system a column's text spells.
pub open spec fn unit_system_in(text: Seq<char>) -> Result<UnitSystem, Seq<char>> {
    match UnitSystem::read(text) {
        Some(u) => Ok(u),
        None => Err(unknown_text(UNIT_SYSTEM@, text)),
    }
}

/// The unit system a column's text spells.
pub fn decode_unit_system(text: &str) -> (r: Result<UnitSystem, String>)
    ensures
        match (r, unit_system_in(text@)) {
            (Ok(t), Ok(expected)) => t == expected,
            (Err(e), Err(expected)) => e@ == expected,
            _ => false,
        },
{
    match UnitSystem::parse(text) {
        Some(u) => Ok(u),
        None => Err(unknown(UNIT_SYSTEM, text)),
    }
}

// ---- What the columns spell -----------------------------------------------------------------

/// A type, an owner category or a unit system is read from its own spelling and from no other
/// text.
pub proof fn names_are_read_as_spelled(
    text: &str,
    kind: Result<TimeSeriesType, String>,
    category: Result<OwnerCategory, String>,
    system: Result<UnitSystem, String>,
)
    requires
        call_ensures(decode_time_series_type, (text,), kind),
        call_ensures(decode_owner_category, (text,), category),
        call_ensures(decode_unit_system, (text,), system),
    ensures
        kind matches Ok(v) ==> text@ == v.spelling(),
        forall|v: TimeSeriesType| text@ == #[trigger] v.spelling() ==> kind == Ok::<_, String>(v),
        category matches Ok(v) ==> text@ == v.spelling(),
        forall|v: OwnerCategory|
            text@ == #[trigger] v.spelling() ==> category == Ok::<_, String>(v),
        system matches Ok(v) ==> text@ == v.spelling(),
        forall|v: UnitSystem| text@ == #[trigger] v.spelling() ==> system == Ok::<_, String>(v),
{
    assert forall|v: TimeSeriesType| text@ == #[trigger] v.spelling() implies kind == Ok::<
        _,
        String,
    >(v) by {
        crate::kinds::type_spelling_reads_back(v);
    }
    assert forall|v: OwnerCategory| text@ == #[trigger] v.spelling() implies category == Ok::<
        _,
        String,
    >(v) by {
        crate::kinds::category_spelling_reads_back(v);
    }
    assert forall|v: UnitSystem| text@ == #[trigger] v.spelling() implies system == Ok::<
        _,
        String,
    >(v) by {
        crate::kinds::unit_system_spelling_reads_back(v);
    }
}

/// An element type or a time reference is what its text was read as, and is refused where nothing
/// could be read; the text for no reference needs no reading.
pub proof fn readings_are_kept(
    text: &str,
    element: Option<ElementType>,
    reference: Result<TimeReference, String>,
    e: Result<ElementType, String>,
    r: Result<Option<TimeReference>, String>,
)
    requires
        call_ensures(decode_element_type, (text, element), e),
        call_ensures(decode_time_reference, (text, reference), r),
    ensures
        element is Some <==> e is Ok,
        e matches Ok(t) ==> element == Some(t),
        text@ == UNSPECIFIED_REFERENCE@ ==> (r is Ok && r->Ok_0 is None),
        text@ != UNSPECIFIED_REFERENCE@ ==> (reference is Ok <==> r is Ok),
        text@ != UNSPECIFIED_REFERENCE@ && r is Ok ==> r->Ok_0 == Some(reference->Ok_0),
{
}

} // verus!
