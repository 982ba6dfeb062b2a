//! Texts and lists handed out through a caller's buffer or as an allocation of their own.
use crate::arguments::{
    any_category_of, any_owner_category, blank, cstr_to_optional_period, cstr_to_optional_string,
    cstr_to_period, is_blank, optional_text, read_argument, read_optional, required_text,
    text_argument, Argument,
};
use crate::instant::Period;
use crate::kinds::OwnerCategory;
use crate::series::opt_text;
use crate::status::{
    fail, fault_of, said, Checks, Failure, FailureView, LastError, INFRASTORE_ERR_INTEGRITY,
    INFRASTORE_ERR_INTERNAL, INFRASTORE_ERR_INVALID_PARAMETER,
};
use crate::text::{decimal, decimal_text, integer, integer_text};
use vstd::prelude::*;
use vstd::string::*;
use vstd::utf8::encode_utf8;

verus! {

/// The smaller of two numbers.
pub open spec fn least(a: int, b: int) -> int {
    if a <= b {
        a
    } else {
        b
    }
}

/// What goes into a caller's buffer for a text: as many of its bytes as leave room for the
/// terminator, and the terminator.
pub open spec fn text_in_buffer(bytes: Seq<u8>, cap: u64) -> Seq<u8> {
    bytes.take(least(bytes.len() as int, cap - 1)).push(0u8)
}

/// What goes into a caller's buffer for a list: as many of its items as there is room for.
pub open spec fn list_in_buffer(values: Seq<i64>, cap: u64) -> Seq<i64> {
    values.take(least(values.len() as int, cap as int))
}

/// What a text leaves in a caller's hands: its full length in bytes whatever the buffer, and
/// what goes into the buffer where there is one. Calling without a buffer asks for the length.
pub fn write_str_out(s: &str, has_buffer: bool, cap: u64) -> (r: (u64, Option<Vec<u8>>))
    ensures
        r.0 == encode_utf8(s@).len(),
        match r.1 {
            None => !has_buffer || cap == 0,
            Some(written) => has_buffer && cap > 0 && written@ == text_in_buffer(
                encode_utf8(s@),
                cap,
            ) && written@.len() <= cap,
        },
{
    let bytes = s.as_bytes();
    let length: usize = bytes.len();
    if !has_buffer || cap == 0 {
        return (length as u64, None);
    }
    let n: usize = if length as u64 <= cap - 1 {
        length
    } else {
        (cap - 1) as usize
    };
    let mut out: Vec<u8> = Vec::new();
    let mut i: usize = 0;
    while i < n
        invariant
            i <= n <= length,
            length == bytes@.len(),
            out@ == bytes@.take(i as int),
        decreases n - i,
    {
        out.push(bytes[i]);
        i += 1;
    }
    out.push(0);
    (length as u64, Some(out))
}

/// What a list leaves in a caller's hands: its full length whatever the buffer, and what goes
/// into the buffer where there is one.
pub fn write_i64_slice_out(values: &Vec<i64>, has_buffer: bool, cap: u64) -> (r: (
    u64,
    Option<Vec<i64>>,
))
    ensures
        r.0 == values@.len(),
        match r.1 {
            None => !has_buffer || cap == 0,
            Some(written) => has_buffer && cap > 0 && written@ == list_in_buffer(values@, cap),
        },
{
    let length: usize = values.len();
    if !has_buffer || cap == 0 {
        return (length as u64, None);
    }
    let n: usize = if length as u64 <= cap {
        length
    } else {
        cap as usize
    };
    let mut out: Vec<i64> = Vec::new();
    let mut i: usize = 0;
    while i < n
        invariant
            i <= n <= length,
            length == values@.len(),
            out@ == values@.take(i as int),
        decreases n - i,
    {
        out.push(values[i]);
        i += 1;
    }
    (length as u64, Some(out))
}

/// The bytes of a text that may be missing.
pub open spec fn message_bytes(last: Option<Seq<char>>) -> Seq<u8> {
    match last {
        None => seq![],
        Some(text) => encode_utf8(text),
    }
}

/// What the last error message leaves in a caller's hands: the empty text where there is none.
pub fn infrastore_last_error_message(last: &LastError, has_buffer: bool, buf_len: u64) -> (r: (
    u64,
    Option<Vec<u8>>,
))
    ensures
        r.0 == message_bytes(last@).len(),
        match r.1 {
            None => !has_buffer || buf_len == 0,
            Some(written) => has_buffer && buf_len > 0 && written@ == text_in_buffer(
                message_bytes(last@),
                buf_len,
            ),
        },
{
    match &last.message {
        Some(text) => write_str_out(text.as_str(), has_buffer, buf_len),
        None => {
            proof {
                reveal_strlit("");
                assert(""@ =~= seq![]);
                assert(encode_utf8(""@) =~= seq![]);
            }
            write_str_out("", has_buffer, buf_len)
        },
    }
}

/// A buffer that is large enough gets the whole text, and one that is not gets a beginning of
/// it: either way a terminator follows, and the length reported is the text's.
pub proof fn buffer_holds_a_beginning(bytes: Seq<u8>, cap: u64)
    requires
        cap > 0,
    ensures
        text_in_buffer(bytes, cap).len() <= cap,
        text_in_buffer(bytes, cap).last() == 0,
        text_in_buffer(bytes, cap).drop_last().is_prefix_of(bytes),
        bytes.len() < cap ==> text_in_buffer(bytes, cap).drop_last() == bytes,
{
    let written = text_in_buffer(bytes, cap);
    let n = least(bytes.len() as int, cap - 1);
    assert(written.drop_last() =~= bytes.take(n));
    if bytes.len() < cap {
        assert(bytes.take(n) =~= bytes);
    }
}

// ---- Texts with a terminator inside ---------------------------------------------------

/// Where the first zero byte stands, from the `k`-th on.
pub open spec fn zero_from(bytes: Seq<u8>, k: int) -> Option<int>
    decreases bytes.len() - k,
{
    if k < 0 || k >= bytes.len() {
        None
    } else if bytes[k] == 0 {
        Some(k)
    } else {
        zero_from(bytes, k + 1)
    }
}

/// A zero byte is found exactly where there is one, and then the first of them.
pub proof fn zeros_are_found(bytes: Seq<u8>, k: int)
    requires
        0 <= k,
    ensures
        match zero_from(bytes, k) {
            Some(at) => k <= at < bytes.len() && bytes[at] == 0 && forall|i: int|
                k <= i < at ==> #[trigger] bytes[i] != 0,
            None => forall|i: int| k <= i < bytes.len() ==> #[trigger] bytes[i] != 0,
        },
    decreases bytes.len() - k,
{
    if k < bytes.len() && bytes[k] != 0 {
        zeros_are_found(bytes, k + 1);
    }
}

/// Where the first zero byte of a text stands.
pub open spec fn zero_in(s: Seq<char>) -> Option<int> {
    zero_from(encode_utf8(s), 0)
}

/// Where the first zero byte of a text stands.
pub fn find_zero(s: &str) -> (r: Option<usize>)
    ensures
        match (r, zero_in(s@)) {
            (Some(i), Some(expected)) => i == expected,
            (None, None) => true,
            _ => false,
        },
{
    let bytes = s.as_bytes();
    let mut i: usize = 0;
    while i < bytes.len()
        invariant
            i <= bytes.len(),
            bytes@ == encode_utf8(s@),
            zero_in(s@) == zero_from(bytes@, i as int),
        decreases bytes.len() - i,
    {
        if bytes[i] == 0 {
            return Some(i);
        }
        i += 1;
    }
    None
}

/// A text of the library's own vocabulary as a C string: nothing where it cannot be one.
pub open spec fn owned_text(s: Seq<char>) -> Option<Seq<char>> {
    if zero_in(s) is None {
        Some(s)
    } else {
        None
    }
}

/// A text of the library's own vocabulary as a C string.
pub fn owned_cstr(s: String) -> (r: Option<String>)
    ensures
        crate::series::opt_text(r) == owned_text(s@),
{
    if find_zero(s.as_str()).is_none() {
        Some(s)
    } else {
        None
    }
}

pub open spec fn inner_zero_message() -> Seq<char> {
    "string attribute contains an interior NUL byte and cannot be returned over the C ABI"@
}

/// An attribute of a series as a C string. One with a zero byte inside is an integrity
/// failure, so that a caller never takes it for one that is unset.
pub open spec fn attribute_text(s: Option<Seq<char>>) -> Result<Option<Seq<char>>, FailureView> {
    match s {
        None => Ok(None),
        Some(text) => if zero_in(text) is None {
            Ok(Some(text))
        } else {
            Err(said(INFRASTORE_ERR_INTEGRITY, inner_zero_message()))
        },
    }
}

/// An attribute of a series as a C string.
pub fn opt_attr_cstring(s: &Option<String>) -> (r: Result<Option<String>, Failure>)
    ensures
        match (r, attribute_text(crate::series::opt_text(*s))) {
            (Ok(v), Ok(expected)) => crate::series::opt_text(v) == expected,
            (Err(f), Err(expected)) => f@ == expected,
            _ => false,
        },
{
    match s {
        None => Ok(None),
        Some(text) => {
            if find_zero(text.as_str()).is_none() {
                Ok(Some(text.clone()))
            } else {
                Err(
                    fail(
                        INFRASTORE_ERR_INTEGRITY,
                        "string attribute contains an interior NUL byte and cannot be returned over the C ABI".to_string(),
                    ),
                )
            }
        },
    }
}

/// What std says of a zero byte inside a C string.
pub open spec fn zero_position_text(at: int) -> Seq<char> {
    "nul byte found in provided data at position: "@ + decimal_text(at as nat)
}

/// A text handed out as an allocation of its own, with its length in bytes.
pub open spec fn owned_output(s: Seq<char>, label: Seq<char>) -> Result<Seq<char>, FailureView> {
    match zero_in(s) {
        None => Ok(s),
        Some(at) => Err(
            said(INFRASTORE_ERR_INTERNAL, label + ": "@ + zero_position_text(at)),
        ),
    }
}

/// A text handed out as an allocation of its own, with its length in bytes; refused, under
/// this label, where it has a zero byte inside.
pub fn write_owned_str_out(s: String, label: &str) -> (r: Result<(String, u64), Failure>)
    ensures
        match (r, owned_output(s@, label@)) {
            (Ok((text, length)), Ok(expected)) => text@ == expected && length == encode_utf8(
                s@,
            ).len(),
            (Err(f), Err(expected)) => f@ == expected,
            _ => false,
        },
{
    match find_zero(s.as_str()) {
        None => {
            let bytes = s.as_str().as_bytes();
            let length: u64 = bytes.len() as u64;
            Ok((s, length))
        },
        Some(at) => {
            let mut message = label.to_string();
            message.append(": ");
            let mut position = "nul byte found in provided data at position: ".to_string();
            position.append(decimal(at as u64).as_str());
            message.append(position.as_str());
            Err(fail(INFRASTORE_ERR_INTERNAL, message))
        },
    }
}

/// What a bulk write's ids leave in a caller's hands: how many there are, and the list, which
/// is nothing at all where it would be empty.
pub fn write_assigned_ids(ids: Vec<i64>) -> (r: (u64, Option<Vec<i64>>))
    ensures
        r.0 == ids@.len(),
        match r.1 {
            None => ids@.len() == 0,
            Some(list) => ids@.len() > 0 && list == ids,
        },
{
    let length: u64 = ids.len() as u64;
    if ids.len() == 0 {
        (length, None)
    } else {
        (length, Some(ids))
    }
}

// ---- Indices and choices -----------------------------------------------------------------

pub open spec fn bounds_text(what: Seq<char>, index: u64) -> Seq<char> {
    what + " index "@ + decimal_text(index as nat) + " out of bounds"@
}

/// An index into a list of `length` things, refused where there is none at it.
pub fn index_within(what: &str, index: u64, length: usize) -> (r: Result<usize, Failure>)
    ensures
        match r {
            Ok(i) => i == index && index < length,
            Err(f) => index >= length && f@ == said(
                INFRASTORE_ERR_INVALID_PARAMETER,
                bounds_text(what@, index),
            ),
        },
{
    if index < length as u64 {
        Ok(index as usize)
    } else {
        let mut message = what.to_string();
        message.append(" index ");
        message.append(decimal(index).as_str());
        message.append(" out of bounds");
        Err(fail(INFRASTORE_ERR_INVALID_PARAMETER, message))
    }
}

/// What a count of attachments counts.
#[derive(Clone, Copy, Debug, PartialEq, Eq, Structural)]
pub enum AttachmentCount {
    Rows,
    Attributes,
    Components,
}

pub open spec fn bad_count_text(kind: i32) -> Seq<char> {
    "invalid count kind "@ + integer_text(kind as int) + ", expected 0, 1, or 2"@
}

/// What a count of attachments counts, by code.
pub fn attachment_count(kind: i32) -> (r: Result<AttachmentCount, Failure>)
    ensures
        match r {
            Ok(AttachmentCount::Rows) => kind == 0,
            Ok(AttachmentCount::Attributes) => kind == 1,
            Ok(AttachmentCount::Components) => kind == 2,
            Err(f) => !(0 <= kind <= 2) && f@ == said(
                INFRASTORE_ERR_INVALID_PARAMETER,
                bad_count_text(kind),
            ),
        },
{
    if kind == 0 {
        Ok(AttachmentCount::Rows)
    } else if kind == 1 {
        Ok(AttachmentCount::Attributes)
    } else if kind == 2 {
        Ok(AttachmentCount::Components)
    } else {
        let mut message = "invalid count kind ".to_string();
        message.append(integer(kind as i64).as_str());
        message.append(", expected 0, 1, or 2");
        Err(fail(INFRASTORE_ERR_INVALID_PARAMETER, message))
    }
}

/// One end of a parent-child edge.
#[derive(Clone, Copy, Debug, PartialEq, Eq, Structural)]
pub enum Endpoint {
    Parent,
    Child,
}

pub open spec fn bad_endpoint_text(endpoint: i32) -> Seq<char> {
    "invalid endpoint "@ + integer_text(endpoint as int)
        + ", expected 0 (parent) or 1 (child)"@
}

/// One end of a parent-child edge, by code.
pub fn edge_endpoint(endpoint: i32) -> (r: Result<Endpoint, Failure>)
    ensures
        match r {
            Ok(Endpoint::Parent) => endpoint == 0,
            Ok(Endpoint::Child) => endpoint == 1,
            Err(f) => endpoint != 0 && endpoint != 1 && f@ == said(
                INFRASTORE_ERR_INVALID_PARAMETER,
                bad_endpoint_text(endpoint),
            ),
        },
{
    if endpoint == 0 {
        Ok(Endpoint::Parent)
    } else if endpoint == 1 {
        Ok(Endpoint::Child)
    } else {
        let mut message = "invalid endpoint ".to_string();
        message.append(integer(endpoint as i64).as_str());
        message.append(", expected 0 (parent) or 1 (child)");
        Err(fail(INFRASTORE_ERR_INVALID_PARAMETER, message))
    }
}

/// A filter of associations: nothing, which matches everything, where the text is null or
/// blank, and refused where the text cannot be read as one.
pub open spec fn association_filter<T>(a: Argument<T>) -> Result<Option<T>, FailureView> {
    match optional_text(a.text) {
        Err(f) => Err(f),
        Ok(None) => Ok(None),
        Ok(Some(text)) => if blank(text) {
            Ok(None)
        } else {
            match a.reading {
                Ok(filter) => Ok(Some(filter)),
                Err(e) => Err(
                    said(
                        INFRASTORE_ERR_INVALID_PARAMETER,
                        "invalid association filter JSON: "@ + e@,
                    ),
                ),
            }
        },
    }
}

/// A filter of associations.
pub fn assoc_filter_from_json<T>(a: Argument<T>) -> (r: Result<Option<T>, Failure>)
    ensures
        match (r, association_filter(a)) {
            (Ok(v), Ok(expected)) => v == expected,
            (Err(f), Err(expected)) => f@ == expected,
            _ => false,
        },
{
    match cstr_to_optional_string(&a.text) {
        Err(f) => Err(f),
        Ok(None) => Ok(None),
        Ok(Some(s)) => {
            if is_blank(s.as_str()) {
                return Ok(None);
            }
            match a.reading {
                Ok(filter) => Ok(Some(filter)),
                Err(e) => {
                    let mut message = "invalid association filter JSON: ".to_string();
                    message.append(e.as_str());
                    Err(fail(INFRASTORE_ERR_INVALID_PARAMETER, message))
                },
            }
        },
    }
}

/// A list of associations, refused where the text is missing or cannot be read as one.
pub open spec fn association_rows<T>(a: Argument<Vec<T>>) -> Result<Vec<T>, FailureView> {
    match text_argument(a.text) {
        Err(f) => Err(f),
        Ok(_) => match a.reading {
            Ok(rows) => Ok(rows),
            Err(e) => Err(
                said(INFRASTORE_ERR_INVALID_PARAMETER, "invalid associations JSON: "@ + e@),
            ),
        },
    }
}

/// A list of associations.
pub fn assoc_rows_from_json<T>(a: Argument<Vec<T>>) -> (r: Result<Vec<T>, Failure>)
    ensures
        match (r, association_rows(a)) {
            (Ok(v), Ok(expected)) => v == expected,
            (Err(f), Err(expected)) => f@ == expected,
            _ => false,
        },
{
    match required_text(&a.text) {
        Err(f) => Err(f),
        Ok(_) => match a.reading {
            Ok(rows) => Ok(rows),
            Err(e) => {
                let mut message = "invalid associations JSON: ".to_string();
                message.append(e.as_str());
                Err(fail(INFRASTORE_ERR_INVALID_PARAMETER, message))
            },
        },
    }
}

// ---- Forecast parameters and transforms --------------------------------------------------

/// What the forecasts of a store have in common, as far as they have it.
#[derive(Debug)]
pub struct ForecastParameters {
    pub horizon: Option<Period>,
    pub interval: Option<Period>,
    pub count: Option<usize>,
    pub resolution: Option<Period>,
    pub initial_timestamp: Option<i64>,
}

/// Forecast parameters as a caller gets them: texts for the periods, and -1 for a number that
/// is not set, which no count and no stored timestamp is.
#[derive(Debug)]
pub struct ForecastParametersOut {
    pub present: bool,
    pub horizon: Option<String>,
    pub interval: Option<String>,
    pub count: i64,
    pub resolution: Option<String>,
    pub initial_ms: i64,
}

/// A period as a C string, where there is one.
pub open spec fn period_output(p: Option<Period>) -> Option<Seq<char>> {
    match p {
        None => None,
        Some(period) => owned_text(period@.iso),
    }
}

fn opt_period_cstr(p: &Option<Period>) -> (r: Option<String>)
    ensures
        crate::series::opt_text(r) == period_output(*p),
{
    match p {
        None => None,
        Some(period) => owned_cstr(period.to_iso8601()),
    }
}

/// A period as a C string.
pub fn period_cstr(p: &Period) -> (r: Option<String>)
    ensures
        crate::series::opt_text(r) == owned_text(p@.iso),
{
    owned_cstr(p.to_iso8601())
}

/// Forecast parameters as a caller gets them.
pub fn forecast_parameters_out(p: &ForecastParameters) -> (r: ForecastParametersOut)
    requires
        p.count matches Some(c) ==> c <= i64::MAX,
    ensures
        r.present == (p.horizon is Some || p.interval is Some || p.count is Some
            || p.resolution is Some),
        crate::series::opt_text(r.horizon) == period_output(p.horizon),
        crate::series::opt_text(r.interval) == period_output(p.interval),
        crate::series::opt_text(r.resolution) == period_output(p.resolution),
        r.count == (match p.count {
            Some(c) => c as int,
            None => -1,
        }),
        r.initial_ms == (match p.initial_timestamp {
            Some(at) => at as int,
            None => -1,
        }),
{
    let present = p.horizon.is_some() || p.interval.is_some() || p.count.is_some()
        || p.resolution.is_some();
    let count: i64 = match p.count {
        Some(c) => c as i64,
        None => -1,
    };
    let initial_ms: i64 = match p.initial_timestamp {
        Some(at) => at,
        None => -1,
    };
    ForecastParametersOut {
        present,
        horizon: opt_period_cstr(&p.horizon),
        interval: opt_period_cstr(&p.interval),
        count,
        resolution: opt_period_cstr(&p.resolution),
        initial_ms,
    }
}

/// What a transform of regular series into forecasts is asked to do.
#[derive(Debug)]
pub struct TransformArguments {
    pub horizon: Argument<Period>,
    pub interval: Argument<Period>,
    /// Negative for all categories.
    pub owner_category: i32,
    /// Empty or null for all resolutions.
    pub resolution: Argument<Period>,
    /// Whether every check is run and nothing is written.
    pub dry_run: bool,
    /// Whether a single window is stored with the zero interval, and not with the one asked for.
    pub normalize_single_window: bool,
    /// Whether all derived forecasts, and those stored at their resolution and interval, must
    /// have one count and one anchor.
    pub require_uniform_forecast_grid: bool,
}

/// A transform that can be asked of the store.
#[derive(Debug)]
pub struct TransformPlan {
    pub horizon: Period,
    pub interval: Period,
    pub owner_category: Option<OwnerCategory>,
    pub resolution: Option<Period>,
    pub dry_run: bool,
    pub normalize_single_window: bool,
    pub require_uniform_forecast_grid: bool,
}

/// The first argument that keeps a transform from being asked.
pub open spec fn transform_fault(a: TransformArguments) -> Option<FailureView> {
    fault_of(any_category_of(a.owner_category))
        .or_next(fault_of(read_optional(a.resolution)))
        .or_next(fault_of(read_argument(a.horizon)))
        .or_next(fault_of(read_argument(a.interval)))
}

/// The transform the arguments describe.
pub fn transform_plan(a: TransformArguments) -> (r: Result<TransformPlan, Failure>)
    ensures
        match (r, transform_fault(a)) {
            (Ok(plan), None) => plan == (TransformPlan {
                horizon: read_argument(a.horizon)->Ok_0,
                interval: read_argument(a.interval)->Ok_0,
                owner_category: any_category_of(a.owner_category)->Ok_0,
                resolution: read_optional(a.resolution)->Ok_0,
                dry_run: a.dry_run,
                normalize_single_window: a.normalize_single_window,
                require_uniform_forecast_grid: a.require_uniform_forecast_grid,
            }),
            (Err(f), Some(expected)) => f@ == expected,
            _ => false,
        },
{
    let owner_category = match any_owner_category(a.owner_category) {
        Ok(v) => v,
        Err(f) => {
            return Err(f);
        },
    };
    let resolution = match cstr_to_optional_period(a.resolution) {
        Ok(v) => v,
        Err(f) => {
            return Err(f);
        },
    };
    let horizon = match cstr_to_period(a.horizon) {
        Ok(v) => v,
        Err(f) => {
            return Err(f);
        },
    };
    let interval = match cstr_to_period(a.interval) {
        Ok(v) => v,
        Err(f) => {
            return Err(f);
        },
    };
    Ok(
        TransformPlan {
            horizon,
            interval,
            owner_category,
            resolution,
            dry_run: a.dry_run,
            normalize_single_window: a.normalize_single_window,
            require_uniform_forecast_grid: a.require_uniform_forecast_grid,
        },
    )
}

/// How large a buffer a caller provides for the interval of a transform.
pub const INTERVAL_BUF_LEN: u64 = 64;

/// What a transform did.
#[derive(Debug)]
pub struct TransformOutcome {
    /// How many series were transformed, or would be by a run that commits.
    pub transformed: usize,
    /// How many regular series matched.
    pub sources: usize,
    pub interval: Period,
    pub interval_normalized: bool,
    /// The ids of the views written, in the order they were.
    pub written: Vec<i64>,
}

/// What a transform did, as a caller gets it.
#[derive(Debug)]
pub struct TransformOut {
    pub count: u64,
    pub sources: u64,
    /// The interval stored, cut to the caller's buffer and terminated.
    pub interval: Vec<u8>,
    pub interval_normalized: bool,
    /// Nothing where nothing was written, whatever the count says: a dry run reports the count
    /// that a run that commits would have, and writes no row.
    pub ids: Option<Vec<i64>>,
}

/// What a transform did, as a caller gets it.
pub fn transform_out(outcome: TransformOutcome) -> (r: TransformOut)
    ensures
        r.count == outcome.transformed,
        r.sources == outcome.sources,
        r.interval@ == text_in_buffer(encode_utf8(outcome.interval@.iso), INTERVAL_BUF_LEN),
        r.interval_normalized == outcome.interval_normalized,
        match r.ids {
            None => outcome.written@.len() == 0,
            Some(ids) => outcome.written@.len() > 0 && ids == outcome.written,
        },
{
    let (_, written) = write_str_out(outcome.interval.iso.as_str(), true, INTERVAL_BUF_LEN);
    let interval: Vec<u8> = match written {
        Some(bytes) => bytes,
        None => {
            proof {
                assert(false);
            }
            Vec::new()
        },
    };
    let (_, ids) = write_assigned_ids(outcome.written);
    TransformOut {
        count: outcome.transformed as u64,
        sources: outcome.sources as u64,
        interval,
        interval_normalized: outcome.interval_normalized,
        ids,
    }
}

// ---- What a caller gets ---------------------------------------------------------------------

/// Forecast parameters come out each under its own name: the periods spelled, the numbers as
/// they are and minus one where they are not set; and they are there where any of the four that
/// can be is.
pub proof fn parameters_come_out_by_name(p: ForecastParameters, r: ForecastParametersOut)
    requires
        call_ensures(forecast_parameters_out, (&p,), r),
        p.count matches Some(c) ==> c <= i64::MAX,
    ensures
        r.present <==> p.horizon is Some || p.interval is Some || p.count is Some || p.resolution
            is Some,
        p.horizon is None ==> r.horizon is None,
        p.interval is None ==> r.interval is None,
        p.resolution is None ==> r.resolution is None,
        p.horizon matches Some(x) ==> zero_in(x.iso@) is None ==> opt_text(r.horizon) == Some(x.iso@),
        p.interval matches Some(x) ==> zero_in(x.iso@) is None ==> opt_text(r.interval) == Some(x.iso@),
        p.resolution matches Some(x) ==> zero_in(x.iso@) is None ==> opt_text(r.resolution) == Some(x.iso@),
        p.count is None ==> r.count == -1,
        p.count matches Some(c) ==> r.count == c,
        p.initial_timestamp is None ==> r.initial_ms == -1,
        p.initial_timestamp matches Some(at) ==> r.initial_ms == at,
{
}

/// A transform is asked for with what was named, each part by the argument of its own name: a
/// negative category and an empty resolution stand for all of them.
pub proof fn transforms_are_asked_as_named(a: TransformArguments, r: Result<TransformPlan, Failure>)
    requires
        call_ensures(transform_plan, (a,), r),
        r is Ok,
    ensures
        a.horizon.reading == Ok::<_, String>(r->Ok_0.horizon),
        a.interval.reading == Ok::<_, String>(r->Ok_0.interval),
        r->Ok_0.owner_category is None <==> a.owner_category < 0,
        r->Ok_0.owner_category == Some(OwnerCategory::Component) <==> a.owner_category == 0,
        r->Ok_0.resolution matches Some(p) ==> a.resolution.reading == Ok::<_, String>(p),
        r->Ok_0.resolution is None ==> a.resolution.text is None || optional_text(
            a.resolution.text,
        ) == Ok::<_, FailureView>(Some(Seq::<char>::empty())),
        r->Ok_0.dry_run == a.dry_run,
        r->Ok_0.normalize_single_window == a.normalize_single_window,
        r->Ok_0.require_uniform_forecast_grid == a.require_uniform_forecast_grid,
{
}

/// What a transform did comes out each under its own name, the ids it wrote in their order; and
/// an interval that fits the buffer whole, with its terminator.
pub proof fn transforms_come_out_by_name(outcome: TransformOutcome, r: TransformOut)
    requires
        call_ensures(transform_out, (outcome,), r),
    ensures
        r.count == outcome.transformed,
        r.sources == outcome.sources,
        r.interval_normalized == outcome.interval_normalized,
        r.ids is None <==> outcome.written@.len() == 0,
        r.ids matches Some(ids) ==> ids@ == outcome.written@,
        encode_utf8(outcome.interval@.iso).len() < 64 ==> r.interval@ == encode_utf8(
            outcome.interval@.iso,
        ).push(0u8),
        r.interval@.len() <= 64,
        r.interval@.len() > 0 && r.interval@.last() == 0,
{
    let bytes = encode_utf8(outcome.interval@.iso);
    buffer_holds_a_beginning(bytes, INTERVAL_BUF_LEN);
    if bytes.len() < 64 {
        assert(r.interval@ =~= bytes.push(0u8));
    }
}

/// The ids of a bulk write come out as many as they are and in their order, and no list is handed
/// out where it would be empty.
pub proof fn assigned_ids_come_out_in_order(ids: Vec<i64>, r: (u64, Option<Vec<i64>>))
    requires
        call_ensures(write_assigned_ids, (ids,), r),
    ensures
        r.0 == ids@.len(),
        r.1 is None <==> r.0 == 0,
        r.1 matches Some(list) ==> list@ == ids@,
{
}

/// An index is taken exactly where there is something at it.
pub proof fn indices_stay_within(what: &str, index: u64, length: usize, r: Result<usize, Failure>)
    requires
        call_ensures(index_within, (what, index, length), r),
    ensures
        r is Ok <==> index < length,
        r matches Ok(i) ==> i == index,
        r matches Err(f) ==> f.code == INFRASTORE_ERR_INVALID_PARAMETER && f.message is Some,
{
}

/// The codes of what is counted, and of an edge's ends, are taken in their order, and no other.
pub proof fn choices_are_taken_in_order(
    kind: i32,
    counted: Result<AttachmentCount, Failure>,
    endpoint: i32,
    end: Result<Endpoint, Failure>,
)
    requires
        call_ensures(attachment_count, (kind,), counted),
        call_ensures(edge_endpoint, (endpoint,), end),
    ensures
        counted is Ok <==> 0 <= kind <= 2,
        counted == Ok::<_, Failure>(AttachmentCount::Rows) <==> kind == 0,
        counted == Ok::<_, Failure>(AttachmentCount::Attributes) <==> kind == 1,
        counted == Ok::<_, Failure>(AttachmentCount::Components) <==> kind == 2,
        end is Ok <==> 0 <= endpoint <= 1,
        end == Ok::<_, Failure>(Endpoint::Parent) <==> endpoint == 0,
        end == Ok::<_, Failure>(Endpoint::Child) <==> endpoint == 1,
{
}

/// An attribute with a terminator inside is refused and never taken for one that is unset; every
/// other comes out whole.
pub proof fn attributes_come_out_whole(s: Option<String>, r: Result<Option<String>, Failure>)
    requires
        call_ensures(opt_attr_cstring, (&s,), r),
    ensures
        s is None ==> r == Ok::<Option<String>, Failure>(None),
        s matches Some(t) ==> {
            &&& r is Ok <==> forall|i: int|
                0 <= i < encode_utf8(t@).len() ==> #[trigger] encode_utf8(t@)[i] != 0
            &&& r is Ok ==> (r->Ok_0 matches Some(out) && out@ == t@)
        },
        r matches Err(f) ==> f.code == INFRASTORE_ERR_INTEGRITY,
{
    if let Some(t) = s {
        zeros_are_found(encode_utf8(t@), 0);
    }
}

/// A caller that asks for the length first and then comes back with room for it and the
/// terminator gets the whole text; with less room, as much as fits; and the length is the text's
/// either way.
pub proof fn asking_first_gets_the_whole_text(
    s: &str,
    cap: u64,
    asked: (u64, Option<Vec<u8>>),
    got: (u64, Option<Vec<u8>>),
)
    requires
        call_ensures(write_str_out, (s, false, 0u64), asked),
        call_ensures(write_str_out, (s, true, cap), got),
        cap > 0,
    ensures
        asked.1 is None,
        got.0 == asked.0,
        asked.0 == encode_utf8(s@).len(),
        got.1 is Some,
        cap > asked.0 ==> got.1->0@ == encode_utf8(s@).push(0u8),
        cap <= asked.0 ==> got.1->0@.len() == cap && got.1->0@ == encode_utf8(s@).take(
            cap - 1,
        ).push(0u8),
{
    let bytes = encode_utf8(s@);
    buffer_holds_a_beginning(bytes, cap);
    if cap > asked.0 {
        assert(got.1->0@ =~= bytes.push(0u8));
    }
}

/// The same of a list: a caller that comes back with room for all of it gets all of it, and with
/// less room the first of it.
pub proof fn asking_first_gets_the_whole_list(
    values: Vec<i64>,
    cap: u64,
    asked: (u64, Option<Vec<i64>>),
    got: (u64, Option<Vec<i64>>),
)
    requires
        call_ensures(write_i64_slice_out, (&values, false, 0u64), asked),
        call_ensures(write_i64_slice_out, (&values, true, cap), got),
        cap > 0,
    ensures
        asked.1 is None,
        got.0 == asked.0,
        asked.0 == values@.len(),
        got.1 is Some,
        cap >= asked.0 ==> got.1->0@ == values@,
        cap < asked.0 ==> got.1->0@ == values@.take(cap as int),
{
    if cap >= asked.0 {
        assert(got.1->0@ =~= values@);
    }
}

/// The last error is read as any text is, and as the empty text where there is none.
pub proof fn last_errors_are_read_as_texts(
    last: LastError,
    has_buffer: bool,
    cap: u64,
    r: (u64, Option<Vec<u8>>),
    s: &str,
    of_text: (u64, Option<Vec<u8>>),
)
    requires
        call_ensures(infrastore_last_error_message, (&last, has_buffer, cap), r),
        call_ensures(write_str_out, (s, has_buffer, cap), of_text),
        last@ == Some(s@),
    ensures
        r.0 == of_text.0,
        r.1 is Some <==> of_text.1 is Some,
        r.1 matches Some(v) ==> of_text.1->0@ == v@,
{
}

/// A text handed out whole comes with its length in bytes, and is refused where a terminator
/// stands inside it.
pub proof fn owned_texts_come_whole(s: String, label: &str, r: Result<(String, u64), Failure>)
    requires
        call_ensures(write_owned_str_out, (s, label), r),
    ensures
        r is Ok <==> forall|i: int|
            0 <= i < encode_utf8(s@).len() ==> #[trigger] encode_utf8(s@)[i] != 0,
        r matches Ok((text, n)) ==> text@ == s@ && n == encode_utf8(s@).len(),
        r matches Err(f) ==> f.code == INFRASTORE_ERR_INTERNAL && f.message is Some,
{
    zeros_are_found(encode_utf8(s@), 0);
}

/// An association filter that is null or blank matches everything; any other is what is read, or
/// refused, and never dropped.
pub proof fn association_filters_are_never_dropped<T>(
    a: Argument<T>,
    r: Result<Option<T>, Failure>,
)
    requires
        call_ensures(assoc_filter_from_json::<T>, (a,), r),
    ensures
        a.text is None ==> r == Ok::<Option<T>, Failure>(None),
        r matches Ok(Some(filter)) ==> a.reading == Ok::<_, String>(filter),
        r matches Ok(None) ==> a.text is None || (optional_text(a.text) matches Ok(Some(text))
            && blank(text)),
{
}

/// A list of associations is the list that is read, and is never dropped.
pub proof fn association_rows_are_never_dropped<T>(
    a: Argument<Vec<T>>,
    r: Result<Vec<T>, Failure>,
)
    requires
        call_ensures(assoc_rows_from_json::<T>, (a,), r),
    ensures
        r matches Ok(rows) ==> a.reading == Ok::<_, String>(rows) && a.text is Some,
        a.text is None ==> r is Err,
        a.reading is Err ==> r is Err,
{
}

} // verus!
