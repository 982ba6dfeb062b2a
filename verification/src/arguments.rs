//! The arguments of the C boundary, decoded.
//!
//! A string argument is the bytes before its terminator, or nothing where the pointer is
//! null. What only the store can read out of a text (an element type, a period, a time
//! reference) comes with the argument, beside the text.
use crate::features::{feature_in, features_from, first_bad_member, spells_features, Features};
use crate::instant::{is_instant, unix_ms_to_datetime, Period};
use crate::json::{
    kind_of_tree, members, no_members, read_json, reading, tree_of, JsonKind, JsonTree,
};
use crate::kinds::{
    unit_system_spelling_reads_back, ElementType, OwnerCategory, TimeReference, TimeSeriesType,
    UnitSystem,
};
use crate::series::opt_text;
use crate::status::{
    fail, fail_unsaid, said, unsaid, Failure, FailureView, INFRASTORE_ERR_INVALID_PARAMETER,
    INFRASTORE_ERR_INVALID_UTF8, INFRASTORE_ERR_NULL_POINTER,
};
use crate::text::{before_total, chars_of, integer, integer_text, quoted, quoted_text};
use vstd::prelude::*;
use vstd::utf8::{decode_utf8, valid_utf8};

verus! {

/// A string argument: its bytes, or nothing where the pointer is null.
pub type CText = Option<Vec<u8>>;

/// A text and what the store reads out of it.
#[derive(Debug)]
pub struct Argument<T> {
    pub text: CText,
    pub reading: Result<T, String>,
}

/// `std::str::from_utf8`: a string for exactly the bytes that are valid UTF-8, and the
/// characters those bytes encode.
#[verifier::external_body]
fn utf8_text(bytes: &Vec<u8>) -> (r: Option<String>)
    ensures
        r is Some <==> valid_utf8(bytes@),
        r is Some ==> r->0@ == decode_utf8(bytes@),
{
    std::str::from_utf8(bytes).ok().map(|s| s.to_string())
}

/// What a string argument says, or the code that refuses it.
pub open spec fn c_text(p: CText) -> Result<Seq<char>, i32> {
    match p {
        None => Err(INFRASTORE_ERR_NULL_POINTER),
        Some(bytes) => if valid_utf8(bytes@) {
            Ok(decode_utf8(bytes@))
        } else {
            Err(INFRASTORE_ERR_INVALID_UTF8)
        },
    }
}

/// What a string argument says, or the code that refuses it.
pub fn cstr_to_str(p: &CText) -> (r: Result<String, i32>)
    ensures
        match (r, c_text(*p)) {
            (Ok(s), Ok(text)) => s@ == text,
            (Err(code), Err(expected)) => code == expected,
            _ => false,
        },
{
    match p {
        None => Err(INFRASTORE_ERR_NULL_POINTER),
        Some(bytes) => match utf8_text(bytes) {
            Some(s) => Ok(s),
            None => Err(INFRASTORE_ERR_INVALID_UTF8),
        },
    }
}

/// A required text, refused without a message.
pub open spec fn text_argument(p: CText) -> Result<Seq<char>, FailureView> {
    match c_text(p) {
        Ok(text) => Ok(text),
        Err(code) => Err(unsaid(code)),
    }
}

/// A required text, refused with this message.
pub open spec fn text_argument_said(p: CText, message: Seq<char>) -> Result<
    Seq<char>,
    FailureView,
> {
    match c_text(p) {
        Ok(text) => Ok(text),
        Err(code) => Err(said(code, message)),
    }
}

/// A required text, refused without a message.
pub fn required_text(p: &CText) -> (r: Result<String, Failure>)
    ensures
        match (r, text_argument(*p)) {
            (Ok(s), Ok(text)) => s@ == text,
            (Err(f), Err(expected)) => f@ == expected,
            _ => false,
        },
{
    match cstr_to_str(p) {
        Ok(s) => Ok(s),
        Err(code) => Err(fail_unsaid(code)),
    }
}

/// A required text, refused with this message.
pub fn required_text_said(p: &CText, message: &str) -> (r: Result<String, Failure>)
    ensures
        match (r, text_argument_said(*p, message@)) {
            (Ok(s), Ok(text)) => s@ == text,
            (Err(f), Err(expected)) => f@ == expected,
            _ => false,
        },
{
    match cstr_to_str(p) {
        Ok(s) => Ok(s),
        Err(code) => Err(fail(code, message.to_string())),
    }
}

/// An optional text: nothing where the pointer is null.
pub open spec fn optional_text(p: CText) -> Result<Option<Seq<char>>, FailureView> {
    match p {
        None => Ok(None),
        Some(_) => match c_text(p) {
            Ok(text) => Ok(Some(text)),
            Err(code) => Err(unsaid(code)),
        },
    }
}

/// An optional text, refused with this message.
pub open spec fn optional_text_said(p: CText, message: Seq<char>) -> Result<
    Option<Seq<char>>,
    FailureView,
> {
    match p {
        None => Ok(None),
        Some(_) => match c_text(p) {
            Ok(text) => Ok(Some(text)),
            Err(code) => Err(said(code, message)),
        },
    }
}

/// An optional text: nothing where the pointer is null.
pub fn cstr_to_optional_string(p: &CText) -> (r: Result<Option<String>, Failure>)
    ensures
        match (r, optional_text(*p)) {
            (Ok(s), Ok(text)) => opt_text(s) == text,
            (Err(f), Err(expected)) => f@ == expected,
            _ => false,
        },
{
    match p {
        None => Ok(None),
        Some(_) => match cstr_to_str(p) {
            Ok(s) => Ok(Some(s)),
            Err(code) => Err(fail_unsaid(code)),
        },
    }
}

/// An optional text, refused with this message.
pub fn optional_string_said(p: &CText, message: &str) -> (r: Result<Option<String>, Failure>)
    ensures
        match (r, optional_text_said(*p, message@)) {
            (Ok(s), Ok(text)) => opt_text(s) == text,
            (Err(f), Err(expected)) => f@ == expected,
            _ => false,
        },
{
    match p {
        None => Ok(None),
        Some(_) => match cstr_to_str(p) {
            Ok(s) => Ok(Some(s)),
            Err(code) => Err(fail(code, message.to_string())),
        },
    }
}

/// A required argument that the store reads.
pub open spec fn read_argument<T>(a: Argument<T>) -> Result<T, FailureView> {
    match (c_text(a.text), a.reading) {
        (Err(code), _) => Err(unsaid(code)),
        (Ok(_), Ok(value)) => Ok(value),
        (Ok(_), Err(e)) => Err(said(INFRASTORE_ERR_INVALID_PARAMETER, e@)),
    }
}

/// A required period.
pub fn cstr_to_period(a: Argument<Period>) -> (r: Result<Period, Failure>)
    ensures
        match (r, read_argument(a)) {
            (Ok(value), Ok(expected)) => value == expected,
            (Err(f), Err(expected)) => f@ == expected,
            _ => false,
        },
{
    match cstr_to_str(&a.text) {
        Err(code) => Err(fail_unsaid(code)),
        Ok(_) => match a.reading {
            Ok(period) => Ok(period),
            Err(e) => Err(fail(INFRASTORE_ERR_INVALID_PARAMETER, e)),
        },
    }
}

/// An optional argument that the store reads: nothing where the text is null or empty.
pub open spec fn read_optional<T>(a: Argument<T>) -> Result<Option<T>, FailureView> {
    match (optional_text(a.text), a.reading) {
        (Err(f), _) => Err(f),
        (Ok(None), _) => Ok(None),
        (Ok(Some(text)), reading) => if text.len() == 0 {
            Ok(None)
        } else {
            match reading {
                Ok(value) => Ok(Some(value)),
                Err(e) => Err(said(INFRASTORE_ERR_INVALID_PARAMETER, e@)),
            }
        },
    }
}

/// An optional period: nothing where the text is null or empty.
pub fn cstr_to_optional_period(a: Argument<Period>) -> (r: Result<Option<Period>, Failure>)
    ensures
        match (r, read_optional(a)) {
            (Ok(value), Ok(expected)) => value == expected,
            (Err(f), Err(expected)) => f@ == expected,
            _ => false,
        },
{
    match cstr_to_optional_string(&a.text) {
        Err(f) => Err(f),
        Ok(None) => Ok(None),
        Ok(Some(s)) => {
            if s.as_str().is_empty() {
                return Ok(None);
            }
            match a.reading {
                Ok(period) => Ok(Some(period)),
                Err(e) => Err(fail(INFRASTORE_ERR_INVALID_PARAMETER, e)),
            }
        },
    }
}

pub open spec fn bad_reference_text(text: Seq<char>, e: Seq<char>) -> Seq<char> {
    "invalid time_reference "@ + quoted_text(text) + ": "@ + e
}

/// An optional time reference: nothing where the text is null or empty, and refused, never
/// dropped, where it spells none.
pub open spec fn read_reference(a: Argument<TimeReference>) -> Result<
    Option<TimeReference>,
    FailureView,
> {
    match (optional_text(a.text), a.reading) {
        (Err(f), _) => Err(f),
        (Ok(None), _) => Ok(None),
        (Ok(Some(text)), reading) => if text.len() == 0 {
            Ok(None)
        } else {
            match reading {
                Ok(value) => Ok(Some(value)),
                Err(e) => Err(
                    said(INFRASTORE_ERR_INVALID_PARAMETER, bad_reference_text(text, e@)),
                ),
            }
        },
    }
}

/// An optional time reference.
pub fn cstr_to_optional_time_reference(a: Argument<TimeReference>) -> (r: Result<
    Option<TimeReference>,
    Failure,
>)
    ensures
        match (r, read_reference(a)) {
            (Ok(value), Ok(expected)) => value == expected,
            (Err(f), Err(expected)) => f@ == expected,
            _ => false,
        },
{
    match cstr_to_optional_string(&a.text) {
        Err(f) => Err(f),
        Ok(None) => Ok(None),
        Ok(Some(s)) => {
            if s.as_str().is_empty() {
                return Ok(None);
            }
            match a.reading {
                Ok(reference) => Ok(Some(reference)),
                Err(e) => {
                    let mut message = "invalid time_reference ".to_string();
                    message.append(quoted(s.as_str()).as_str());
                    message.append(": ");
                    message.append(e.as_str());
                    Err(fail(INFRASTORE_ERR_INVALID_PARAMETER, message))
                },
            }
        },
    }
}

pub open spec fn bad_unit_system_text(text: Seq<char>) -> Seq<char> {
    "invalid unit_system "@ + quoted_text(text) + "; expected natural_units or component_base"@
}

/// An optional unit system: nothing where the text is null or empty, and refused, never
/// dropped, where it spells none.
pub open spec fn read_unit_system(p: CText) -> Result<Option<UnitSystem>, FailureView> {
    match optional_text(p) {
        Err(f) => Err(f),
        Ok(None) => Ok(None),
        Ok(Some(text)) => if text.len() == 0 {
            Ok(None)
        } else {
            match UnitSystem::read(text) {
                Some(u) => Ok(Some(u)),
                None => Err(said(INFRASTORE_ERR_INVALID_PARAMETER, bad_unit_system_text(text))),
            }
        },
    }
}

/// An optional unit system.
pub fn cstr_to_optional_unit_system(p: &CText) -> (r: Result<Option<UnitSystem>, Failure>)
    ensures
        match (r, read_unit_system(*p)) {
            (Ok(value), Ok(expected)) => value == expected,
            (Err(f), Err(expected)) => f@ == expected,
            _ => false,
        },
{
    match cstr_to_optional_string(p) {
        Err(f) => Err(f),
        Ok(None) => Ok(None),
        Ok(Some(s)) => {
            if s.as_str().is_empty() {
                return Ok(None);
            }
            match UnitSystem::parse(s.as_str()) {
                Some(u) => Ok(Some(u)),
                None => {
                    let mut message = "invalid unit_system ".to_string();
                    message.append(quoted(s.as_str()).as_str());
                    message.append("; expected natural_units or component_base");
                    Err(fail(INFRASTORE_ERR_INVALID_PARAMETER, message))
                },
            }
        },
    }
}

/// A required element type, refused with a message either way.
pub open spec fn read_element_type(a: Argument<ElementType>) -> Result<ElementType, FailureView> {
    match (c_text(a.text), a.reading) {
        (Err(code), _) => Err(said(code, "element_type is null or invalid UTF-8"@)),
        (Ok(_), Ok(value)) => Ok(value),
        (Ok(_), Err(e)) => Err(said(INFRASTORE_ERR_INVALID_PARAMETER, e@)),
    }
}

/// A required element type.
pub fn cstr_to_element_type(a: Argument<ElementType>) -> (r: Result<ElementType, Failure>)
    ensures
        match (r, read_element_type(a)) {
            (Ok(value), Ok(expected)) => value == expected,
            (Err(f), Err(expected)) => f@ == expected,
            _ => false,
        },
{
    match cstr_to_str(&a.text) {
        Err(code) => Err(fail(code, "element_type is null or invalid UTF-8".to_string())),
        Ok(_) => match a.reading {
            Ok(value) => Ok(value),
            Err(e) => Err(fail(INFRASTORE_ERR_INVALID_PARAMETER, e)),
        },
    }
}

// ---- Codes --------------------------------------------------------------------------

pub open spec fn bad_category_text(code: i32) -> Seq<char> {
    "invalid owner_category "@ + integer_text(code as int)
}

/// The owner category a code stands for.
pub open spec fn category_of(code: i32) -> Result<OwnerCategory, FailureView> {
    if code == 0 {
        Ok(OwnerCategory::Component)
    } else if code == 1 {
        Ok(OwnerCategory::SupplementalAttribute)
    } else {
        Err(said(INFRASTORE_ERR_INVALID_PARAMETER, bad_category_text(code)))
    }
}

/// The owner category a code stands for.
pub fn owner_category(code: i32) -> (r: Result<OwnerCategory, Failure>)
    ensures
        match (r, category_of(code)) {
            (Ok(value), Ok(expected)) => value == expected,
            (Err(f), Err(expected)) => f@ == expected,
            _ => false,
        },
{
    if code == 0 {
        Ok(OwnerCategory::Component)
    } else if code == 1 {
        Ok(OwnerCategory::SupplementalAttribute)
    } else {
        let mut message = "invalid owner_category ".to_string();
        message.append(integer(code as i64).as_str());
        Err(fail(INFRASTORE_ERR_INVALID_PARAMETER, message))
    }
}

/// The owner category a code stands for, with every negative code standing for all of them.
pub open spec fn any_category_of(code: i32) -> Result<Option<OwnerCategory>, FailureView> {
    if code < 0 {
        Ok(None)
    } else {
        match category_of(code) {
            Ok(category) => Ok(Some(category)),
            Err(f) => Err(f),
        }
    }
}

/// The owner category a code stands for, with every negative code standing for all of them.
pub fn any_owner_category(code: i32) -> (r: Result<Option<OwnerCategory>, Failure>)
    ensures
        match (r, any_category_of(code)) {
            (Ok(value), Ok(expected)) => value == expected,
            (Err(f), Err(expected)) => f@ == expected,
            _ => false,
        },
{
    if code < 0 {
        return Ok(None);
    }
    match owner_category(code) {
        Ok(category) => Ok(Some(category)),
        Err(f) => Err(f),
    }
}

/// The owner guard of a call that addresses a row by id: nothing where the flag is off,
/// since every number is a legitimate owner and none is free to mean unset.
pub open spec fn owner_guard(has_owner: bool, owner_id: i64, category: i32) -> Result<
    Option<(i64, OwnerCategory)>,
    FailureView,
> {
    if !has_owner {
        Ok(None)
    } else {
        match category_of(category) {
            Ok(c) => Ok(Some((owner_id, c))),
            Err(f) => Err(f),
        }
    }
}

/// The owner guard of a call that addresses a row by id.
pub fn optional_owner(has_owner: bool, owner_id: i64, category: i32) -> (r: Result<
    Option<(i64, OwnerCategory)>,
    Failure,
>)
    ensures
        match (r, owner_guard(has_owner, owner_id, category)) {
            (Ok(value), Ok(expected)) => value == expected,
            (Err(f), Err(expected)) => f@ == expected,
            _ => false,
        },
{
    if !has_owner {
        return Ok(None);
    }
    match owner_category(category) {
        Ok(c) => Ok(Some((owner_id, c))),
        Err(f) => Err(f),
    }
}

pub open spec fn bad_zoneless_text(n: i32) -> Seq<char> {
    "invalid zoneless filter "@ + integer_text(n as int) + "; expected -1 (no filter), 0, or 1"@
}

/// The zoneless filter a number stands for: none where it is negative.
pub open spec fn zoneless_of(n: i32) -> Result<Option<bool>, FailureView> {
    if n < 0 {
        Ok(None)
    } else if n == 0 {
        Ok(Some(false))
    } else if n == 1 {
        Ok(Some(true))
    } else {
        Err(said(INFRASTORE_ERR_INVALID_PARAMETER, bad_zoneless_text(n)))
    }
}

/// The zoneless filter a number stands for.
pub fn zoneless_filter(zoneless: i32) -> (r: Result<Option<bool>, Failure>)
    ensures
        match (r, zoneless_of(zoneless)) {
            (Ok(value), Ok(expected)) => value == expected,
            (Err(f), Err(expected)) => f@ == expected,
            _ => false,
        },
{
    if zoneless < 0 {
        Ok(None)
    } else if zoneless == 0 {
        Ok(Some(false))
    } else if zoneless == 1 {
        Ok(Some(true))
    } else {
        let mut message = "invalid zoneless filter ".to_string();
        message.append(integer(zoneless as i64).as_str());
        message.append("; expected -1 (no filter), 0, or 1");
        Err(fail(INFRASTORE_ERR_INVALID_PARAMETER, message))
    }
}

/// The series type a code stands for. The step function has none: it does not cross this
/// boundary.
pub open spec fn type_of_code(i: i32) -> Option<TimeSeriesType> {
    if i == 0 {
        Some(TimeSeriesType::SingleTimeSeries)
    } else if i == 1 {
        Some(TimeSeriesType::NonSequentialTimeSeries)
    } else if i == 2 {
        Some(TimeSeriesType::Deterministic)
    } else if i == 3 {
        Some(TimeSeriesType::DeterministicSingleTimeSeries)
    } else if i == 4 {
        Some(TimeSeriesType::Probabilistic)
    } else if i == 5 {
        Some(TimeSeriesType::Scenarios)
    } else {
        None
    }
}

/// The series type a code stands for.
pub fn time_series_type_from_int(i: i32) -> (r: Option<TimeSeriesType>)
    ensures
        r == type_of_code(i),
{
    if i == 0 {
        Some(TimeSeriesType::SingleTimeSeries)
    } else if i == 1 {
        Some(TimeSeriesType::NonSequentialTimeSeries)
    } else if i == 2 {
        Some(TimeSeriesType::Deterministic)
    } else if i == 3 {
        Some(TimeSeriesType::DeterministicSingleTimeSeries)
    } else if i == 4 {
        Some(TimeSeriesType::Probabilistic)
    } else if i == 5 {
        Some(TimeSeriesType::Scenarios)
    } else {
        None
    }
}

/// The type a request names: every type the boundary knows.
pub fn resolve_requested_type_from_int(i: i32) -> (r: Option<TimeSeriesType>)
    ensures
        r == type_of_code(i),
{
    time_series_type_from_int(i)
}

/// The type a forecast request names: the forecasts alone.
pub open spec fn forecast_type_of_code(i: i32) -> Option<TimeSeriesType> {
    match type_of_code(i) {
        Some(t) => if t.forecasts() {
            Some(t)
        } else {
            None
        },
        None => None,
    }
}

/// The type a forecast request names.
pub fn requested_type_from_int(i: i32) -> (r: Option<TimeSeriesType>)
    ensures
        r == forecast_type_of_code(i),
{
    match time_series_type_from_int(i) {
        Some(t) => {
            if t.is_forecast() {
                Some(t)
            } else {
                None
            }
        },
        None => None,
    }
}

/// The code of a series type.
pub fn time_series_type_to_int(t: TimeSeriesType) -> (r: i32)
    requires
        t != TimeSeriesType::PersistentTimeSeries,
    ensures
        r == t.number(),
        type_of_code(r) == Some(t),
{
    match t {
        TimeSeriesType::SingleTimeSeries => 0,
        TimeSeriesType::NonSequentialTimeSeries => 1,
        TimeSeriesType::Deterministic => 2,
        TimeSeriesType::DeterministicSingleTimeSeries => 3,
        TimeSeriesType::Probabilistic => 4,
        TimeSeriesType::Scenarios => 5,
        TimeSeriesType::PersistentTimeSeries => 6,
    }
}

/// A code and the type it stands for determine each other.
pub proof fn type_codes_agree(i: i32, t: TimeSeriesType)
    requires
        t != TimeSeriesType::PersistentTimeSeries,
    ensures
        type_of_code(i) == Some(t) <==> i == t.number(),
{
}

pub open spec fn bad_type_text(code: i32) -> Seq<char> {
    "invalid time_series_type "@ + integer_text(code as int)
}

/// A type a call names by code.
pub open spec fn typed(code: i32) -> Result<TimeSeriesType, FailureView> {
    match type_of_code(code) {
        Some(t) => Ok(t),
        None => Err(said(INFRASTORE_ERR_INVALID_PARAMETER, bad_type_text(code))),
    }
}

/// A type a call names by code.
pub fn required_type(code: i32) -> (r: Result<TimeSeriesType, Failure>)
    ensures
        match (r, typed(code)) {
            (Ok(value), Ok(expected)) => value == expected,
            (Err(f), Err(expected)) => f@ == expected,
            _ => false,
        },
{
    match resolve_requested_type_from_int(code) {
        Some(t) => Ok(t),
        None => {
            let mut message = "invalid time_series_type ".to_string();
            message.append(integer(code as i64).as_str());
            Err(fail(INFRASTORE_ERR_INVALID_PARAMETER, message))
        },
    }
}

/// A forecast type a call names by code.
pub open spec fn typed_forecast(code: i32) -> Result<TimeSeriesType, FailureView> {
    match forecast_type_of_code(code) {
        Some(t) => Ok(t),
        None => Err(said(INFRASTORE_ERR_INVALID_PARAMETER, bad_type_text(code))),
    }
}

/// A forecast type a call names by code.
pub fn required_forecast_type(code: i32) -> (r: Result<TimeSeriesType, Failure>)
    ensures
        match (r, typed_forecast(code)) {
            (Ok(value), Ok(expected)) => value == expected,
            (Err(f), Err(expected)) => f@ == expected,
            _ => false,
        },
{
    match requested_type_from_int(code) {
        Some(t) => Ok(t),
        None => {
            let mut message = "invalid time_series_type ".to_string();
            message.append(integer(code as i64).as_str());
            Err(fail(INFRASTORE_ERR_INVALID_PARAMETER, message))
        },
    }
}

/// A type a call may name by code.
pub open spec fn typed_if(named: bool, code: i32) -> Result<Option<TimeSeriesType>, FailureView> {
    if !named {
        Ok(None)
    } else {
        match typed(code) {
            Ok(t) => Ok(Some(t)),
            Err(f) => Err(f),
        }
    }
}

/// A type a call may name by code.
pub fn optional_type(named: bool, code: i32) -> (r: Result<Option<TimeSeriesType>, Failure>)
    ensures
        match (r, typed_if(named, code)) {
            (Ok(value), Ok(expected)) => value == expected,
            (Err(f), Err(expected)) => f@ == expected,
            _ => false,
        },
{
    if !named {
        return Ok(None);
    }
    match required_type(code) {
        Ok(t) => Ok(Some(t)),
        Err(f) => Err(f),
    }
}

/// How a store's arrays are compressed.
#[derive(Clone, Copy, Debug, PartialEq, Eq, Structural)]
pub enum Compression {
    Uncompressed,
    Deflate { level: u8, shuffle: bool },
}

pub open spec fn bad_compression_text(kind: u8) -> Seq<char> {
    "invalid compression_kind "@ + integer_text(kind as int)
        + ", expected 0 (none) or 1 (deflate)"@
}

/// The compression a code and its parameters stand for.
pub open spec fn compression_of(kind: u8, level: u8, shuffle: bool) -> Result<
    Compression,
    FailureView,
> {
    if kind == 0 {
        Ok(Compression::Uncompressed)
    } else if kind == 1 {
        Ok(Compression::Deflate { level, shuffle })
    } else {
        Err(said(INFRASTORE_ERR_INVALID_PARAMETER, bad_compression_text(kind)))
    }
}

/// The compression a code and its parameters stand for. The level is not checked here.
pub fn compression_from_code(kind: u8, deflate_level: u8, shuffle: bool) -> (r: Result<
    Compression,
    Failure,
>)
    ensures
        match (r, compression_of(kind, deflate_level, shuffle)) {
            (Ok(value), Ok(expected)) => value == expected,
            (Err(f), Err(expected)) => f@ == expected,
            _ => false,
        },
{
    if kind == 0 {
        Ok(Compression::Uncompressed)
    } else if kind == 1 {
        Ok(Compression::Deflate { level: deflate_level, shuffle })
    } else {
        let mut message = "invalid compression_kind ".to_string();
        message.append(integer(kind as i64).as_str());
        message.append(", expected 0 (none) or 1 (deflate)");
        Err(fail(INFRASTORE_ERR_INVALID_PARAMETER, message))
    }
}

/// The code and the parameters a compression is reported as.
pub fn compression_parts(compression: Compression) -> (r: (u8, u8, bool))
    ensures
        r == (match compression {
            Compression::Uncompressed => (0u8, 0u8, false),
            Compression::Deflate { level, shuffle } => (1u8, level, shuffle),
        }),
{
    match compression {
        Compression::Uncompressed => (0, 0, false),
        Compression::Deflate { level, shuffle } => (1, level, shuffle),
    }
}

/// Where a store's catalog lives.
#[derive(Clone, Copy, Debug, PartialEq, Eq, Structural)]
pub enum CatalogMode {
    Attached,
    InMemory,
}

pub open spec fn bad_catalog_text(code: u8) -> Seq<char> {
    "invalid catalog_mode "@ + integer_text(code as int)
        + ", expected 0 (attached) or 1 (memory)"@
}

/// The catalog placement a code stands for.
pub open spec fn catalog_of(code: u8) -> Result<CatalogMode, FailureView> {
    if code == 0 {
        Ok(CatalogMode::Attached)
    } else if code == 1 {
        Ok(CatalogMode::InMemory)
    } else {
        Err(said(INFRASTORE_ERR_INVALID_PARAMETER, bad_catalog_text(code)))
    }
}

/// The catalog placement a code stands for.
pub fn catalog_from_code(code: u8) -> (r: Result<CatalogMode, Failure>)
    ensures
        match (r, catalog_of(code)) {
            (Ok(value), Ok(expected)) => value == expected,
            (Err(f), Err(expected)) => f@ == expected,
            _ => false,
        },
{
    if code == 0 {
        Ok(CatalogMode::Attached)
    } else if code == 1 {
        Ok(CatalogMode::InMemory)
    } else {
        let mut message = "invalid catalog_mode ".to_string();
        message.append(integer(code as i64).as_str());
        message.append(", expected 0 (attached) or 1 (memory)");
        Err(fail(INFRASTORE_ERR_INVALID_PARAMETER, message))
    }
}

/// The code of a catalog placement.
pub fn catalog_code(mode: CatalogMode) -> (r: u8)
    ensures
        r == (match mode {
            CatalogMode::Attached => 0u8,
            CatalogMode::InMemory => 1u8,
        }),
{
    match mode {
        CatalogMode::Attached => 0,
        CatalogMode::InMemory => 1,
    }
}

// ---- Times --------------------------------------------------------------------------

/// A time range, with how its bounds were spelled.
#[derive(Clone, Copy, Debug, PartialEq, Eq, Structural)]
pub struct TimeRange {
    pub start: i64,
    pub end: i64,
    pub zoneless: bool,
}

/// What is said of milliseconds that name no instant.
pub open spec fn bad_instant_text(label: Seq<char>, ms: i64) -> Seq<char> {
    label + ": "@ + integer_text(ms as int)
}

/// The instant an argument names.
pub open spec fn instant_argument(ms: i64, label: Seq<char>) -> Result<i64, FailureView> {
    if is_instant(ms as int) {
        Ok(ms)
    } else {
        Err(said(INFRASTORE_ERR_INVALID_PARAMETER, bad_instant_text(label, ms)))
    }
}

/// The instant an argument names.
pub fn required_instant(ms: i64, label: &str) -> (r: Result<i64, Failure>)
    ensures
        match (r, instant_argument(ms, label@)) {
            (Ok(value), Ok(expected)) => value == expected,
            (Err(f), Err(expected)) => f@ == expected,
            _ => false,
        },
{
    match unix_ms_to_datetime(ms) {
        Some(at) => Ok(at),
        None => {
            let mut message = label.to_string();
            message.append(": ");
            message.append(integer(ms).as_str());
            Err(fail(INFRASTORE_ERR_INVALID_PARAMETER, message))
        },
    }
}

/// The range a call names: none where it names none.
pub open spec fn range_of(present: bool, zoneless: bool, start_ms: i64, end_ms: i64) -> Result<
    Option<TimeRange>,
    FailureView,
> {
    if !present {
        Ok(None)
    } else {
        match (
            instant_argument(start_ms, "invalid time_range_start_ms"@),
            instant_argument(end_ms, "invalid time_range_end_ms"@),
        ) {
            (Err(f), _) => Err(f),
            (_, Err(f)) => Err(f),
            (Ok(start), Ok(end)) => Ok(Some(TimeRange { start, end, zoneless })),
        }
    }
}

/// The range a call names. The bounds are Unix milliseconds either way; `zoneless` is what
/// tells a wall clock from an instant.
pub fn build_time_range(present: bool, zoneless: bool, start_ms: i64, end_ms: i64) -> (r: Result<
    Option<TimeRange>,
    Failure,
>)
    ensures
        match (r, range_of(present, zoneless, start_ms, end_ms)) {
            (Ok(value), Ok(expected)) => value == expected,
            (Err(f), Err(expected)) => f@ == expected,
            _ => false,
        },
{
    if !present {
        return Ok(None);
    }
    let start: i64 = match required_instant(start_ms, "invalid time_range_start_ms") {
        Ok(at) => at,
        Err(f) => {
            return Err(f);
        },
    };
    let end: i64 = match required_instant(end_ms, "invalid time_range_end_ms") {
        Ok(at) => at,
        Err(f) => {
            return Err(f);
        },
    };
    Ok(Some(TimeRange { start, end, zoneless }))
}

/// A part of a series a read asks for: nothing set asks for all of it.
#[derive(Clone, Copy, Debug, PartialEq, Eq, Structural)]
pub struct ReadWindow {
    pub start: Option<i64>,
    pub zoneless: bool,
    /// Timesteps, for the static types.
    pub len: Option<usize>,
    /// Windows, for the forecasts.
    pub count: Option<usize>,
}

pub open spec fn too_large_text(name: Seq<char>, value: u64) -> Seq<char> {
    name + " "@ + integer_text(value as int) + " is too large for this platform"@
}

/// An extent a call names: refused, and never cut off, where the platform's sizes are
/// narrower.
pub open spec fn extent_of(present: bool, value: u64, name: Seq<char>) -> Result<
    Option<usize>,
    FailureView,
> {
    if !present {
        Ok(None)
    } else if value <= usize::MAX {
        Ok(Some(value as usize))
    } else {
        Err(said(INFRASTORE_ERR_INVALID_PARAMETER, too_large_text(name, value)))
    }
}

/// An extent a call names.
pub fn extent(present: bool, value: u64, name: &str) -> (r: Result<Option<usize>, Failure>)
    ensures
        match (r, extent_of(present, value, name@)) {
            (Ok(v), Ok(expected)) => v == expected,
            (Err(f), Err(expected)) => f@ == expected,
            _ => false,
        },
{
    if !present {
        return Ok(None);
    }
    if value <= usize::MAX as u64 {
        Ok(Some(value as usize))
    } else {
        let mut message = name.to_string();
        message.append(" ");
        message.append(crate::text::decimal(value).as_str());
        message.append(" is too large for this platform");
        Err(fail(INFRASTORE_ERR_INVALID_PARAMETER, message))
    }
}

/// The window and the owner guard of a read by id.
pub open spec fn read_plan(
    start_present: bool,
    start_zoneless: bool,
    start_ms: i64,
    len: Result<Option<usize>, FailureView>,
    count: Result<Option<usize>, FailureView>,
    owner: Result<Option<(i64, OwnerCategory)>, FailureView>,
) -> Result<(ReadWindow, Option<(i64, OwnerCategory)>), FailureView> {
    match (instant_argument(start_ms, "invalid start_ms"@), len, count, owner) {
        (Err(f), _, _, _) if start_present => Err(f),
        (_, Err(f), _, _) => Err(f),
        (_, _, Err(f), _) => Err(f),
        (_, _, _, Err(f)) => Err(f),
        (_, Ok(len), Ok(count), Ok(owner)) => Ok(
            (
                ReadWindow {
                    start: if start_present {
                        Some(start_ms)
                    } else {
                        None
                    },
                    zoneless: start_zoneless,
                    len,
                    count,
                },
                owner,
            ),
        ),
    }
}

/// The window and the owner guard of a read by id.
pub fn read_by_id_plan(
    start_present: bool,
    start_zoneless: bool,
    start_ms: i64,
    len_present: bool,
    len: u64,
    count_present: bool,
    count: u64,
    has_owner: bool,
    owner_id: i64,
    owner_category: i32,
) -> (r: Result<(ReadWindow, Option<(i64, OwnerCategory)>), Failure>)
    ensures
        match (
            r,
            read_plan(
                start_present,
                start_zoneless,
                start_ms,
                extent_of(len_present, len, "len"@),
                extent_of(count_present, count, "count"@),
                owner_guard(has_owner, owner_id, owner_category),
            ),
        ) {
            (Ok(value), Ok(expected)) => value == expected,
            (Err(f), Err(expected)) => f@ == expected,
            _ => false,
        },
{
    let start: Option<i64> = if start_present {
        match required_instant(start_ms, "invalid start_ms") {
            Ok(at) => Some(at),
            Err(f) => {
                return Err(f);
            },
        }
    } else {
        None
    };
    let len: Option<usize> = match extent(len_present, len, "len") {
        Ok(v) => v,
        Err(f) => {
            return Err(f);
        },
    };
    let count: Option<usize> = match extent(count_present, count, "count") {
        Ok(v) => v,
        Err(f) => {
            return Err(f);
        },
    };
    let owner = match optional_owner(has_owner, owner_id, owner_category) {
        Ok(owner) => owner,
        Err(f) => {
            return Err(f);
        },
    };
    Ok((ReadWindow { start, zoneless: start_zoneless, len, count }, owner))
}

// ---- Features -----------------------------------------------------------------------

/// Whether a character is white space, by Unicode's `White_Space` property.
pub open spec fn is_space(c: char) -> bool {
    let n = c as u32;
    ||| 0x9 <= n <= 0xd
    ||| n == 0x20
    ||| n == 0x85
    ||| n == 0xa0
    ||| n == 0x1680
    ||| 0x2000 <= n <= 0x200a
    ||| n == 0x2028
    ||| n == 0x2029
    ||| n == 0x202f
    ||| n == 0x205f
    ||| n == 0x3000
}

/// Whether a text is white space alone.
pub open spec fn blank(s: Seq<char>) -> bool {
    forall|i: int| 0 <= i < s.len() ==> is_space(#[trigger] s[i])
}

/// Whether a text is white space alone.
pub fn is_blank(s: &str) -> (r: bool)
    ensures
        r == blank(s@),
{
    let chars = chars_of(s);
    let mut i: usize = 0;
    while i < chars.len()
        invariant
            i <= chars.len(),
            chars@ == s@,
            forall|j: int| 0 <= j < i ==> is_space(#[trigger] s@[j]),
        decreases chars.len() - i,
    {
        let n: u32 = chars[i] as u32;
        let space = (0x9 <= n && n <= 0xd) || n == 0x20 || n == 0x85 || n == 0xa0 || n == 0x1680 || (
        0x2000 <= n && n <= 0x200a) || n == 0x2028 || n == 0x2029 || n == 0x202f || n == 0x205f
            || n == 0x3000;
        if !space {
            proof {
                assert(!is_space(s@[i as int]));
            }
            return false;
        }
        i += 1;
    }
    true
}

/// What a kind of JSON value is called.
pub open spec fn kind_name(kind: JsonKind) -> Seq<char> {
    match kind {
        JsonKind::Null => "null"@,
        JsonKind::Bool => "bool"@,
        JsonKind::Number => "number"@,
        JsonKind::Text => "string"@,
        JsonKind::List => "array"@,
        JsonKind::Object => "object"@,
    }
}

/// What a kind of JSON value is called.
pub fn json_type_name(kind: JsonKind) -> (r: &'static str)
    ensures
        r@ == kind_name(kind),
{
    match kind {
        JsonKind::Null => "null",
        JsonKind::Bool => "bool",
        JsonKind::Number => "number",
        JsonKind::Text => "string",
        JsonKind::List => "array",
        JsonKind::Object => "object",
    }
}

pub open spec fn bad_member_text(name: Seq<char>, kind: JsonKind) -> Seq<char> {
    "feature "@ + name + ": must be int/float/bool/string, got "@ + kind_name(kind)
}

/// The first member of an object, by name, that is no feature.
pub open spec fn bad_member(m: Map<Seq<char>, JsonTree>) -> Seq<char> {
    choose|name: Seq<char>| first_bad_member(m, name)
}

/// There is at most one first bad member.
proof fn first_bad_is_unique(m: Map<Seq<char>, JsonTree>, a: Seq<char>, b: Seq<char>)
    requires
        first_bad_member(m, a),
        first_bad_member(m, b),
    ensures
        a == b,
{
    if a != b {
        before_total(a, b);
    }
}

/// The members of the object a features argument spells: none where it is null or blank.
pub open spec fn feature_argument(p: CText) -> Result<Map<Seq<char>, JsonTree>, FailureView> {
    match p {
        None => Ok(no_members()),
        Some(_) => match c_text(p) {
            Err(code) => Err(said(code, "features_json is not valid UTF-8"@)),
            Ok(text) => if blank(text) {
                Ok(no_members())
            } else {
                match reading(text) {
                    Err(e) => Err(
                        said(INFRASTORE_ERR_INVALID_PARAMETER, "features_json: "@ + e),
                    ),
                    Ok(JsonTree::Object(m)) => if exists|name: Seq<char>| #[trigger]
                        first_bad_member(m, name) {
                        Err(
                            said(
                                INFRASTORE_ERR_INVALID_PARAMETER,
                                bad_member_text(bad_member(m), kind_of_tree(m[bad_member(m)])),
                            ),
                        )
                    } else {
                        Ok(m)
                    },
                    Ok(_) => Err(
                        said(
                            INFRASTORE_ERR_INVALID_PARAMETER,
                            "features_json must be an object"@,
                        ),
                    ),
                }
            },
        },
    }
}

/// The features an argument spells, as a JSON object of plain scalars.
pub fn parse_features_json(json: &CText) -> (r: Result<Features, Failure>)
    ensures
        match (r, feature_argument(*json)) {
            (Ok(features), Ok(m)) => spells_features(m, features@),
            (Err(f), Err(expected)) => f@ == expected,
            _ => false,
        },
{
    match json {
        None => {
            let none = Features::new();
            proof {
                assert(none@.dom() =~= no_members().dom());
            }
            return Ok(none);
        },
        Some(_) => {},
    }
    let s = match cstr_to_str(json) {
        Ok(s) => s,
        Err(code) => {
            return Err(fail(code, "features_json is not valid UTF-8".to_string()));
        },
    };
    if is_blank(s.as_str()) {
        let none = Features::new();
        proof {
            assert(none@.dom() =~= no_members().dom());
        }
        return Ok(none);
    }
    let value = match read_json(s.as_str()) {
        Ok(value) => value,
        Err(e) => {
            let mut message = "features_json: ".to_string();
            message.append(e.as_str());
            return Err(fail(INFRASTORE_ERR_INVALID_PARAMETER, message));
        },
    };
    let ghost tree = tree_of(value);
    match members(value) {
        None => Err(
            fail(
                INFRASTORE_ERR_INVALID_PARAMETER,
                "features_json must be an object".to_string(),
            ),
        ),
        Some(entries) => {
            let ghost m = tree->Object_0;
            match features_from(&entries, Ghost(m)) {
                Ok(features) => {
                    proof {
                        assert forall|name: Seq<char>| !#[trigger] first_bad_member(m, name) by {
                            if first_bad_member(m, name) {
                                assert(m.contains_key(name));
                            }
                        }
                    }
                    Ok(features)
                },
                Err(bad) => {
                    proof {
                        assert(first_bad_member(m, bad.name@));
                        first_bad_is_unique(m, bad.name@, bad_member(m));
                    }
                    let mut message = "feature ".to_string();
                    message.append(bad.name.as_str());
                    message.append(": must be int/float/bool/string, got ");
                    message.append(json_type_name(bad.kind));
                    Err(fail(INFRASTORE_ERR_INVALID_PARAMETER, message))
                },
            }
        },
    }
}

// ---- What codes and arguments come to ---------------------------------------------------------

/// A category's code is taken, and no other: zero for a component, one for a supplemental
/// attribute. Two codes that are taken stand for one category only where they are the same.
pub proof fn category_codes_tell_apart(
    a: i32,
    b: i32,
    ra: Result<OwnerCategory, Failure>,
    rb: Result<OwnerCategory, Failure>,
)
    requires
        call_ensures(owner_category, (a,), ra),
        call_ensures(owner_category, (b,), rb),
    ensures
        ra is Ok <==> 0 <= a <= 1,
        ra is Ok && rb is Ok ==> (ra->Ok_0 == rb->Ok_0 <==> a == b),
        ra == Ok::<_, Failure>(OwnerCategory::Component) <==> a == 0,
        ra matches Err(f) ==> f.code == INFRASTORE_ERR_INVALID_PARAMETER && f.message is Some,
{
}

/// Where any category will do, a negative code names none, and every other is taken as it is
/// where one has to be named.
pub proof fn any_category_is_a_negative_code(
    code: i32,
    any: Result<Option<OwnerCategory>, Failure>,
    one: Result<OwnerCategory, Failure>,
)
    requires
        call_ensures(any_owner_category, (code,), any),
        call_ensures(owner_category, (code,), one),
    ensures
        code < 0 ==> any == Ok::<Option<OwnerCategory>, Failure>(None),
        code >= 0 ==> match one {
            Ok(c) => any == Ok::<_, Failure>(Some(c)),
            Err(f) => any matches Err(g) && g@ == f@,
        },
{
}

/// An owner guard is there exactly where the flag says so, and then it is the owner and the
/// category that were named; where the flag is off nothing that was named is looked at.
pub proof fn owner_guards_are_flagged(
    has_owner: bool,
    owner_id: i64,
    category: i32,
    r: Result<Option<(i64, OwnerCategory)>, Failure>,
    one: Result<OwnerCategory, Failure>,
)
    requires
        call_ensures(optional_owner, (has_owner, owner_id, category), r),
        call_ensures(owner_category, (category,), one),
    ensures
        !has_owner ==> r == Ok::<Option<(i64, OwnerCategory)>, Failure>(None),
        has_owner ==> match one {
            Ok(c) => r == Ok::<_, Failure>(Some((owner_id, c))),
            Err(f) => r matches Err(g) && g@ == f@,
        },
{
}

/// The zoneless filter: every negative number filters nothing, zero and one say which, and
/// nothing else is taken.
pub proof fn zoneless_filters_are_three(n: i32, r: Result<Option<bool>, Failure>)
    requires
        call_ensures(zoneless_filter, (n,), r),
    ensures
        r is Ok <==> n <= 1,
        r is Ok ==> (r->Ok_0 is None <==> n < 0),
        r == Ok::<_, Failure>(Some(true)) <==> n == 1,
        r == Ok::<_, Failure>(Some(false)) <==> n == 0,
{
}

/// A type's code reads back as that type, and only the codes of types are taken: a request may
/// name every type but the step function, and a request for forecasts the forecasts alone.
pub proof fn type_codes_read_back(
    t: TimeSeriesType,
    code: i32,
    named: Result<TimeSeriesType, Failure>,
    forecast: Result<TimeSeriesType, Failure>,
    other: i32,
    from_other: Result<TimeSeriesType, Failure>,
)
    requires
        t != TimeSeriesType::PersistentTimeSeries,
        call_ensures(time_series_type_to_int, (t,), code),
        call_ensures(required_type, (code,), named),
        call_ensures(required_forecast_type, (code,), forecast),
        call_ensures(required_type, (other,), from_other),
    ensures
        named == Ok::<_, Failure>(t),
        from_other == Ok::<_, Failure>(t) ==> other == code,
        from_other is Ok <==> 0 <= other <= 5,
        from_other matches Ok(u) ==> u != TimeSeriesType::PersistentTimeSeries,
        forecast is Ok <==> t != TimeSeriesType::SingleTimeSeries && t
            != TimeSeriesType::NonSequentialTimeSeries,
        forecast is Ok ==> forecast->Ok_0 == t,
{
}

/// A type that need not be named is looked at only where it is.
pub proof fn optional_types_are_flagged(
    named: bool,
    code: i32,
    r: Result<Option<TimeSeriesType>, Failure>,
    one: Result<TimeSeriesType, Failure>,
)
    requires
        call_ensures(optional_type, (named, code), r),
        call_ensures(required_type, (code,), one),
    ensures
        !named ==> r == Ok::<Option<TimeSeriesType>, Failure>(None),
        named ==> match one {
            Ok(t) => r == Ok::<_, Failure>(Some(t)),
            Err(f) => r matches Err(g) && g@ == f@,
        },
{
}

/// A compression reads back from the parts it is reported as, its level and its shuffling with
/// it; and a code other than those two is refused.
pub proof fn compressions_read_back(
    c: Compression,
    parts: (u8, u8, bool),
    back: Result<Compression, Failure>,
    kind: u8,
    level: u8,
    shuffle: bool,
    r: Result<Compression, Failure>,
)
    requires
        call_ensures(compression_parts, (c,), parts),
        call_ensures(compression_from_code, (parts.0, parts.1, parts.2), back),
        call_ensures(compression_from_code, (kind, level, shuffle), r),
    ensures
        back == Ok::<_, Failure>(c),
        r is Ok <==> kind <= 1,
        r == Ok::<_, Failure>(Compression::Uncompressed) <==> kind == 0,
        kind == 1 ==> r == Ok::<_, Failure>(Compression::Deflate { level, shuffle }),
{
}

/// A catalog placement reads back from its code, and a code other than those two is refused.
pub proof fn catalog_codes_read_back(
    mode: CatalogMode,
    code: u8,
    back: Result<CatalogMode, Failure>,
    other: u8,
    r: Result<CatalogMode, Failure>,
)
    requires
        call_ensures(catalog_code, (mode,), code),
        call_ensures(catalog_from_code, (code,), back),
        call_ensures(catalog_from_code, (other,), r),
    ensures
        back == Ok::<_, Failure>(mode),
        r is Ok <==> other <= 1,
        r == Ok::<_, Failure>(CatalogMode::Attached) <==> other == 0,
{
}

/// A range is there exactly where it was said to be, from the first bound to the second, each an
/// instant; where it was said to be absent, neither bound is looked at.
pub proof fn ranges_run_from_start_to_end(
    present: bool,
    zoneless: bool,
    start_ms: i64,
    end_ms: i64,
    r: Result<Option<TimeRange>, Failure>,
)
    requires
        call_ensures(build_time_range, (present, zoneless, start_ms, end_ms), r),
    ensures
        !present ==> r == Ok::<Option<TimeRange>, Failure>(None),
        present ==> (r is Ok <==> is_instant(start_ms as int) && is_instant(end_ms as int)),
        present && r is Ok ==> (r->Ok_0 matches Some(range) && range.start == start_ms && range.end
            == end_ms && range.zoneless == zoneless),
{
}

/// The window of a read has what was said to be there and nothing else: where it starts, how
/// many timesteps it is long, how many windows it counts, and whose series it reads.
pub proof fn read_windows_have_what_was_named(
    start_present: bool,
    start_zoneless: bool,
    start_ms: i64,
    len_present: bool,
    len: u64,
    count_present: bool,
    count: u64,
    has_owner: bool,
    owner_id: i64,
    category: i32,
    r: Result<(ReadWindow, Option<(i64, OwnerCategory)>), Failure>,
)
    requires
        call_ensures(
            read_by_id_plan,
            (
                start_present,
                start_zoneless,
                start_ms,
                len_present,
                len,
                count_present,
                count,
                has_owner,
                owner_id,
                category,
            ),
            r,
        ),
    ensures
        r is Ok <==> (start_present ==> is_instant(start_ms as int)) && (len_present ==> len
            <= usize::MAX) && (count_present ==> count <= usize::MAX) && (has_owner ==> 0
            <= category <= 1),
        r is Ok ==> {
            let (window, owner) = r->Ok_0;
            &&& window.start is Some <==> start_present
            &&& window.start matches Some(at) ==> at == start_ms
            &&& window.zoneless == start_zoneless
            &&& window.len is Some <==> len_present
            &&& window.len matches Some(n) ==> n == len
            &&& window.count is Some <==> count_present
            &&& window.count matches Some(n) ==> n == count
            &&& owner is Some <==> has_owner
            &&& owner matches Some((id, c)) ==> id == owner_id && (c == OwnerCategory::Component
                <==> category == 0)
        },
{
}

/// An extent is never cut off: it is the number that was named, or it is refused.
pub proof fn extents_are_not_cut_off(
    present: bool,
    value: u64,
    name: &str,
    r: Result<Option<usize>, Failure>,
)
    requires
        call_ensures(extent, (present, value, name), r),
    ensures
        r is Ok ==> (r->Ok_0 is Some <==> present),
        r matches Ok(Some(n)) ==> n == value,
        r is Err ==> present && value > usize::MAX,
{
}

/// An optional period is nothing where its text is null or empty, whatever the store would read;
/// otherwise it is what the store reads.
pub proof fn empty_periods_are_none(a: Argument<Period>, r: Result<Option<Period>, Failure>)
    requires
        call_ensures(cstr_to_optional_period, (a,), r),
    ensures
        a.text is None ==> r == Ok::<Option<Period>, Failure>(None),
        a.text matches Some(bytes) ==> {
            &&& !valid_utf8(bytes@) ==> r is Err
            &&& valid_utf8(bytes@) && decode_utf8(bytes@).len() == 0 ==> r == Ok::<
                Option<Period>,
                Failure,
            >(None)
            &&& valid_utf8(bytes@) && decode_utf8(bytes@).len() > 0 ==> match a.reading {
                Ok(p) => r == Ok::<_, Failure>(Some(p)),
                Err(_) => r is Err,
            }
        },
{
}

/// A unit system that is named is the one its text spells; a text that spells none is refused
/// and never dropped.
pub proof fn unit_systems_are_never_dropped(
    p: CText,
    u: UnitSystem,
    r: Result<Option<UnitSystem>, Failure>,
)
    requires
        call_ensures(cstr_to_optional_unit_system, (&p,), r),
    ensures
        p is None ==> r == Ok::<Option<UnitSystem>, Failure>(None),
        p matches Some(bytes) ==> {
            &&& valid_utf8(bytes@) && decode_utf8(bytes@) == u.spelling() ==> r == Ok::<_, Failure>(
                Some(u),
            )
            &&& r matches Ok(Some(v)) ==> valid_utf8(bytes@) && decode_utf8(bytes@) == v.spelling()
            &&& r matches Ok(None) ==> valid_utf8(bytes@) && decode_utf8(bytes@).len() == 0
        },
{
    unit_system_spelling_reads_back(u);
}

// ---- What a string argument says ------------------------------------------------------------

/// A string argument says the text its bytes spell. Null is refused as a null pointer, and bytes
/// that spell nothing as such, each with the message of its place if it has one.
pub proof fn texts_are_said_or_refused(
    p: CText,
    message: &str,
    plain: Result<String, i32>,
    unspoken: Result<String, Failure>,
    spoken: Result<String, Failure>,
)
    requires
        call_ensures(cstr_to_str, (&p,), plain),
        call_ensures(required_text, (&p,), unspoken),
        call_ensures(required_text_said, (&p, message), spoken),
    ensures
        plain is Ok <==> p is Some && valid_utf8(p->0@),
        unspoken is Ok <==> plain is Ok,
        spoken is Ok <==> plain is Ok,
        plain is Ok ==> plain->Ok_0@ == decode_utf8(p->0@) && unspoken->Ok_0@ == plain->Ok_0@
            && spoken->Ok_0@ == plain->Ok_0@,
        p is None ==> plain == Err::<String, i32>(INFRASTORE_ERR_NULL_POINTER),
        p is Some && plain is Err ==> plain == Err::<String, i32>(INFRASTORE_ERR_INVALID_UTF8),
        plain is Err ==> unspoken->Err_0.code == plain->Err_0 && unspoken->Err_0.message is None,
        plain is Err ==> spoken->Err_0.code == plain->Err_0 && (spoken->Err_0.message matches Some(
            text,
        ) && text@ == message@),
{
}

/// An optional string argument is none where it is null, and otherwise says the text its bytes
/// spell, even an empty one.
pub proof fn optional_texts_are_none_where_null(
    p: CText,
    message: &str,
    unspoken: Result<Option<String>, Failure>,
    spoken: Result<Option<String>, Failure>,
)
    requires
        call_ensures(cstr_to_optional_string, (&p,), unspoken),
        call_ensures(optional_string_said, (&p, message), spoken),
    ensures
        p is None ==> unspoken == Ok::<Option<String>, Failure>(None) && spoken == Ok::<
            Option<String>,
            Failure,
        >(None),
        p matches Some(bytes) ==> if valid_utf8(bytes@) {
            &&& unspoken matches Ok(Some(text)) && text@ == decode_utf8(bytes@)
            &&& spoken matches Ok(Some(text)) && text@ == decode_utf8(bytes@)
        } else {
            &&& unspoken matches Err(f) && f.code == INFRASTORE_ERR_INVALID_UTF8 && f.message is None
            &&& spoken matches Err(f) && f.code == INFRASTORE_ERR_INVALID_UTF8 && (
            f.message matches Some(text) && text@ == message@)
        },
{
}

/// An argument that spells a period, an element type or a reference is what it was read as, and is
/// an invalid parameter where nothing could be read; a reference may be left out.
pub proof fn spelled_arguments_are_as_read(
    period: Argument<Period>,
    element: Argument<ElementType>,
    reference: Argument<TimeReference>,
    p: Result<Period, Failure>,
    e: Result<ElementType, Failure>,
    r: Result<Option<TimeReference>, Failure>,
)
    requires
        call_ensures(cstr_to_period, (period,), p),
        call_ensures(cstr_to_element_type, (element,), e),
        call_ensures(cstr_to_optional_time_reference, (reference,), r),
    ensures
        p is Ok <==> period.text is Some && valid_utf8(period.text->0@) && period.reading is Ok,
        p matches Ok(v) ==> period.reading == Ok::<_, String>(v),
        period.text is None ==> p->Err_0.code == INFRASTORE_ERR_NULL_POINTER,
        p is Err && period.text is Some && valid_utf8(period.text->0@) ==> p->Err_0.code
            == INFRASTORE_ERR_INVALID_PARAMETER,
        e is Ok <==> element.text is Some && valid_utf8(element.text->0@) && element.reading is Ok,
        e matches Ok(v) ==> element.reading == Ok::<_, String>(v),
        element.text is None ==> e->Err_0.code == INFRASTORE_ERR_NULL_POINTER,
        e is Err && element.text is Some && valid_utf8(element.text->0@) ==> e->Err_0.code
            == INFRASTORE_ERR_INVALID_PARAMETER,
        reference.text is None ==> (r is Ok && r->Ok_0 is None),
        reference.text matches Some(bytes) ==> {
            &&& !valid_utf8(bytes@) ==> r is Err
            &&& valid_utf8(bytes@) && decode_utf8(bytes@).len() == 0 ==> r is Ok && r->Ok_0 is None
            &&& valid_utf8(bytes@) && decode_utf8(bytes@).len() > 0 ==> match reference.reading {
                Ok(t) => r == Ok::<_, Failure>(Some(t)),
                Err(_) => r matches Err(f) && f.code == INFRASTORE_ERR_INVALID_PARAMETER,
            }
        },
{
}

/// A number of milliseconds is passed on as it is where it is an instant, and is an invalid
/// parameter where it is none.
pub proof fn instants_are_passed_on(ms: i64, label: &str, r: Result<i64, Failure>)
    requires
        call_ensures(required_instant, (ms, label), r),
    ensures
        r is Ok <==> is_instant(ms as int),
        r matches Ok(at) ==> at == ms,
        r matches Err(f) ==> f.code == INFRASTORE_ERR_INVALID_PARAMETER,
{
}

/// A type may be asked for by any of the codes a type is handed out as; a forecast by those of the
/// forecasts alone.
pub proof fn types_are_asked_for_by_code(
    i: i32,
    t: TimeSeriesType,
    code: i32,
    any: Option<TimeSeriesType>,
    requested: Option<TimeSeriesType>,
    forecast: Option<TimeSeriesType>,
)
    requires
        t != TimeSeriesType::PersistentTimeSeries,
        call_ensures(time_series_type_to_int, (t,), code),
        call_ensures(time_series_type_from_int, (i,), any),
        call_ensures(resolve_requested_type_from_int, (i,), requested),
        call_ensures(requested_type_from_int, (i,), forecast),
    ensures
        any == Some(t) <==> i == code,
        requested == any,
        forecast == Some(t) <==> i == code && t.forecasts(),
{
    type_codes_agree(i, t);
    type_codes_agree(code, t);
}

/// Features are what their text was read as, name by name. Null and blank are none at all, and
/// what is no object of whole numbers, numbers, truth values and texts is refused.
pub proof fn features_are_as_spelled(json: CText, r: Result<Features, Failure>, name: Seq<char>)
    requires
        call_ensures(parse_features_json, (&json,), r),
    ensures
        json is None ==> r is Ok && !r->Ok_0@.contains_key(name),
        json matches Some(bytes) ==> {
            &&& !valid_utf8(bytes@) ==> r is Err
            &&& valid_utf8(bytes@) && blank(decode_utf8(bytes@)) ==> r is Ok
                && !r->Ok_0@.contains_key(name)
            &&& valid_utf8(bytes@) && !blank(decode_utf8(bytes@)) && r is Ok ==> (reading(
                decode_utf8(bytes@),
            ) matches Ok(JsonTree::Object(m)) && (r->Ok_0@.contains_key(name) <==> m.contains_key(
                name,
            )) && (m.contains_key(name) ==> feature_in(m[name]) == Some(r->Ok_0@[name])))
        },
{
}

} // verus!
