//! Filters over the catalog, built from the arguments of the C boundary.
use crate::arguments::{
    category_of, cstr_to_optional_period, feature_argument, optional_string_said,
    optional_text_said, owner_category, parse_features_json, read_optional, required_text_said,
    required_type, text_argument_said, typed, zoneless_filter, zoneless_of, Argument, CText,
};
use crate::features::{features_map, spells_features, FeatureView, Features};
use crate::handed_back::{may_say, says};
use crate::instant::Period;
use crate::json::JsonTree;
use crate::kinds::{OwnerCategory, TimeSeriesType};
use crate::series::opt_text;
use crate::status::{fault_of, Checks, Failure, FailureView};
use vstd::prelude::*;

verus! {

/// Which rows of the catalog a call is about: every predicate that is set must hold.
#[derive(Debug)]
pub struct ListFilter {
    pub owner_id: Option<i64>,
    pub owner_category: Option<OwnerCategory>,
    pub time_series_type: Option<TimeSeriesType>,
    pub name: Option<String>,
    pub name_glob: Option<String>,
    pub resolution: Option<Period>,
    pub interval: Option<Period>,
    pub features: Option<Features>,
    /// Whether `features` is the whole feature set, and not a part of it.
    pub features_exact: bool,
    pub component_field: Option<String>,
    pub zoneless: Option<bool>,
}

/// A filter, with its texts as characters and its features by name.
pub struct FilterView {
    pub owner_id: Option<i64>,
    pub owner_category: Option<OwnerCategory>,
    pub time_series_type: Option<TimeSeriesType>,
    pub name: Option<Seq<char>>,
    pub name_glob: Option<Seq<char>>,
    pub resolution: Option<Period>,
    pub interval: Option<Period>,
    pub features: Option<Map<Seq<char>, FeatureView>>,
    pub features_exact: bool,
    pub component_field: Option<Seq<char>>,
    pub zoneless: Option<bool>,
}

impl View for ListFilter {
    type V = FilterView;

    open spec fn view(&self) -> FilterView {
        FilterView {
            owner_id: self.owner_id,
            owner_category: self.owner_category,
            time_series_type: self.time_series_type,
            name: opt_text(self.name),
            name_glob: opt_text(self.name_glob),
            resolution: self.resolution,
            interval: self.interval,
            features: match self.features {
                None => None,
                Some(features) => Some(features@),
            },
            features_exact: self.features_exact,
            component_field: opt_text(self.component_field),
            zoneless: self.zoneless,
        }
    }
}

/// The arguments that filter a listing. A flag that is off, and a null text, filter nothing.
#[derive(Debug)]
pub struct FilterArguments {
    pub has_owner: bool,
    pub owner_id: i64,
    pub has_owner_category: bool,
    pub owner_category: i32,
    pub has_time_series_type: bool,
    pub time_series_type: i32,
    pub name: CText,
    pub name_glob: CText,
    pub resolution: Argument<Period>,
    pub interval: Argument<Period>,
    pub features_json: CText,
    pub component_field: CText,
    pub zoneless: i32,
}

/// A check made only where a flag is on.
pub open spec fn check_if(on: bool, fault: Option<FailureView>) -> Option<FailureView> {
    if on {
        fault
    } else {
        None
    }
}

pub open spec fn name_message() -> Seq<char> {
    "name is not valid UTF-8"@
}

pub open spec fn glob_message() -> Seq<char> {
    "name_glob is not valid UTF-8"@
}

pub open spec fn field_message() -> Seq<char> {
    "component_field is not valid UTF-8"@
}

/// The first argument that keeps a filter from being built.
pub open spec fn filter_fault(a: FilterArguments) -> Option<FailureView> {
    check_if(a.has_owner_category, fault_of(category_of(a.owner_category)))
        .or_next(check_if(a.has_time_series_type, fault_of(typed(a.time_series_type))))
        .or_next(fault_of(optional_text_said(a.name, name_message())))
        .or_next(fault_of(optional_text_said(a.name_glob, glob_message())))
        .or_next(fault_of(read_optional(a.resolution)))
        .or_next(fault_of(read_optional(a.interval)))
        .or_next(fault_of(optional_text_said(a.component_field, field_message())))
        .or_next(fault_of(zoneless_of(a.zoneless)))
        .or_next(fault_of(feature_argument(a.features_json)))
}

/// A value where a flag is on.
pub open spec fn given<T>(on: bool, value: T) -> Option<T> {
    if on {
        Some(value)
    } else {
        None
    }
}

/// Whether the features of a filter are those an argument spells: none where it spells none.
pub open spec fn filters_features(
    features: Option<Map<Seq<char>, FeatureView>>,
    m: Map<Seq<char>, JsonTree>,
) -> bool {
    match features {
        None => m.dom() == Set::<Seq<char>>::empty(),
        Some(f) => spells_features(m, f) && m.dom() != Set::<Seq<char>>::empty(),
    }
}

/// Whether a filter is the one the arguments describe.
pub open spec fn is_filter_for(filter: FilterView, a: FilterArguments) -> bool {
    &&& filter.owner_id == given(a.has_owner, a.owner_id)
    &&& filter.owner_category == given(
        a.has_owner_category,
        category_of(a.owner_category)->Ok_0,
    )
    &&& filter.time_series_type == given(
        a.has_time_series_type,
        typed(a.time_series_type)->Ok_0,
    )
    &&& filter.name == optional_text_said(a.name, name_message())->Ok_0
    &&& filter.name_glob == optional_text_said(a.name_glob, glob_message())->Ok_0
    &&& filter.resolution == read_optional(a.resolution)->Ok_0
    &&& filter.interval == read_optional(a.interval)->Ok_0
    &&& filter.component_field == optional_text_said(a.component_field, field_message())->Ok_0
    &&& filter.zoneless == zoneless_of(a.zoneless)->Ok_0
    &&& filters_features(filter.features, feature_argument(a.features_json)->Ok_0)
    &&& !filter.features_exact
}

proof fn map_length(entries: Seq<crate::features::Feature>)
    ensures
        entries.len() == 0 <==> features_map(entries).dom() == Set::<Seq<char>>::empty(),
{
    if entries.len() == 0 {
        assert(features_map(entries).dom() =~= Set::<Seq<char>>::empty());
    } else {
        assert(features_map(entries).contains_key(entries.last().name@));
        assert(features_map(entries).dom().contains(entries.last().name@));
    }
}

/// The filter a listing's arguments describe, or the first that keeps it from being built.
pub fn build_list_filter(a: FilterArguments) -> (r: Result<ListFilter, Failure>)
    ensures
        match (r, filter_fault(a)) {
            (Ok(filter), None) => is_filter_for(filter@, a),
            (Err(f), Some(expected)) => f@ == expected,
            _ => false,
        },
{
    let owner_id: Option<i64> = if a.has_owner {
        Some(a.owner_id)
    } else {
        None
    };
    let category = if a.has_owner_category {
        match owner_category(a.owner_category) {
            Ok(v) => Some(v),
            Err(f) => {
                return Err(f);
            },
        }
    } else {
        None
    };
    let time_series_type = if a.has_time_series_type {
        match required_type(a.time_series_type) {
            Ok(v) => Some(v),
            Err(f) => {
                return Err(f);
            },
        }
    } else {
        None
    };
    let name = match optional_string_said(&a.name, "name is not valid UTF-8") {
        Ok(v) => v,
        Err(f) => {
            return Err(f);
        },
    };
    let name_glob = match optional_string_said(&a.name_glob, "name_glob is not valid UTF-8") {
        Ok(v) => v,
        Err(f) => {
            return Err(f);
        },
    };
    let resolution = match cstr_to_optional_period(a.resolution) {
        Ok(v) => v,
        Err(f) => {
            return Err(f);
        },
    };
    let interval = match cstr_to_optional_period(a.interval) {
        Ok(v) => v,
        Err(f) => {
            return Err(f);
        },
    };
    let component_field = match optional_string_said(&a.component_field, "component_field is not valid UTF-8") {
        Ok(v) => v,
        Err(f) => {
            return Err(f);
        },
    };
    let zoneless = match zoneless_filter(a.zoneless) {
        Ok(v) => v,
        Err(f) => {
            return Err(f);
        },
    };
    let features = match parse_features_json(&a.features_json) {
        Ok(v) => v,
        Err(f) => {
            return Err(f);
        },
    };
    proof {
        map_length(features.entries@);
    }
    let features = if features.entries.len() == 0 {
        None
    } else {
        Some(features)
    };
    Ok(
        ListFilter {
            owner_id,
            owner_category: category,
            time_series_type,
            name,
            name_glob,
            resolution,
            interval,
            features,
            features_exact: false,
            component_field,
            zoneless,
        },
    )
}

/// The arguments that choose the series of a reader: those of a listing, without the interval
/// and without a type.
#[derive(Debug)]
pub struct ReaderArguments {
    pub has_owner: bool,
    pub owner_id: i64,
    pub has_owner_category: bool,
    pub owner_category: i32,
    pub name: CText,
    pub name_glob: CText,
    pub resolution: Argument<Period>,
    pub features_json: CText,
    pub component_field: CText,
    pub zoneless: i32,
}

/// The same arguments as a listing's: no type, and no interval.
pub open spec fn as_listing(a: ReaderArguments) -> FilterArguments {
    FilterArguments {
        has_owner: a.has_owner,
        owner_id: a.owner_id,
        has_owner_category: a.has_owner_category,
        owner_category: a.owner_category,
        has_time_series_type: false,
        time_series_type: 0,
        name: a.name,
        name_glob: a.name_glob,
        resolution: a.resolution,
        interval: Argument { text: None, reading: a.resolution.reading },
        features_json: a.features_json,
        component_field: a.component_field,
        zoneless: a.zoneless,
    }
}

/// The filter a reader's arguments describe, before its type is set.
pub fn reader_filter(a: ReaderArguments) -> (r: Result<ListFilter, Failure>)
    ensures
        match (r, filter_fault(as_listing(a))) {
            (Ok(filter), None) => is_filter_for(filter@, as_listing(a)),
            (Err(f), Some(expected)) => f@ == expected,
            _ => false,
        },
{
    let owner_id: Option<i64> = if a.has_owner {
        Some(a.owner_id)
    } else {
        None
    };
    let category = if a.has_owner_category {
        match owner_category(a.owner_category) {
            Ok(v) => Some(v),
            Err(f) => {
                return Err(f);
            },
        }
    } else {
        None
    };
    let name = match optional_string_said(&a.name, "name is not valid UTF-8") {
        Ok(v) => v,
        Err(f) => {
            return Err(f);
        },
    };
    let name_glob = match optional_string_said(&a.name_glob, "name_glob is not valid UTF-8") {
        Ok(v) => v,
        Err(f) => {
            return Err(f);
        },
    };
    let resolution = match cstr_to_optional_period(a.resolution) {
        Ok(v) => v,
        Err(f) => {
            return Err(f);
        },
    };
    let component_field = match optional_string_said(&a.component_field, "component_field is not valid UTF-8") {
        Ok(v) => v,
        Err(f) => {
            return Err(f);
        },
    };
    let zoneless = match zoneless_filter(a.zoneless) {
        Ok(v) => v,
        Err(f) => {
            return Err(f);
        },
    };
    let features = match parse_features_json(&a.features_json) {
        Ok(v) => v,
        Err(f) => {
            return Err(f);
        },
    };
    proof {
        map_length(features.entries@);
    }
    let features = if features.entries.len() == 0 {
        None
    } else {
        Some(features)
    };
    Ok(
        ListFilter {
            owner_id,
            owner_category: category,
            time_series_type: None,
            name,
            name_glob,
            resolution,
            interval: None,
            features,
            features_exact: false,
            component_field,
            zoneless,
        },
    )
}

/// The attributes that address one series.
#[derive(Debug)]
pub struct IdentityArguments {
    pub owner_id: i64,
    pub owner_category: i32,
    pub name: CText,
    pub resolution: Argument<Period>,
    pub features_json: CText,
}

/// The first attribute that keeps a series from being addressed.
pub open spec fn identity_fault(a: IdentityArguments) -> Option<FailureView> {
    fault_of(text_argument_said(a.name, "name is invalid"@))
        .or_next(fault_of(category_of(a.owner_category)))
        .or_next(fault_of(feature_argument(a.features_json)))
        .or_next(fault_of(read_optional(a.resolution)))
}

/// Whether a filter addresses exactly the series these attributes name: its whole feature
/// set, so that a sibling carrying one more feature does not answer for it.
pub open spec fn is_identity_for(
    filter: FilterView,
    a: IdentityArguments,
    interval: Option<Period>,
    kind: Option<TimeSeriesType>,
) -> bool {
    &&& filter.owner_id == Some(a.owner_id)
    &&& filter.owner_category == Some(category_of(a.owner_category)->Ok_0)
    &&& filter.time_series_type == kind
    &&& filter.name == Some(text_argument_said(a.name, "name is invalid"@)->Ok_0)
    &&& filter.name_glob is None
    &&& filter.resolution == read_optional(a.resolution)->Ok_0
    &&& filter.interval == interval
    &&& filter.features matches Some(f) && spells_features(
        feature_argument(a.features_json)->Ok_0,
        f,
    )
    &&& filter.features_exact
    &&& filter.component_field is None
    &&& filter.zoneless is None
}

/// The filter that addresses exactly one series.
pub fn exact_identity_filter(a: IdentityArguments, interval: Option<Period>) -> (r: Result<
    ListFilter,
    Failure,
>)
    ensures
        match (r, identity_fault(a)) {
            (Ok(filter), None) => is_identity_for(filter@, a, interval, None),
            (Err(f), Some(expected)) => f@ == expected,
            _ => false,
        },
{
    let name = match required_text_said(&a.name, "name is invalid") {
        Ok(v) => v,
        Err(f) => {
            return Err(f);
        },
    };
    let category = match owner_category(a.owner_category) {
        Ok(v) => v,
        Err(f) => {
            return Err(f);
        },
    };
    let features = match parse_features_json(&a.features_json) {
        Ok(v) => v,
        Err(f) => {
            return Err(f);
        },
    };
    let resolution = match cstr_to_optional_period(a.resolution) {
        Ok(v) => v,
        Err(f) => {
            return Err(f);
        },
    };
    Ok(
        ListFilter {
            owner_id: Some(a.owner_id),
            owner_category: Some(category),
            time_series_type: None,
            name: Some(name),
            name_glob: None,
            resolution,
            interval,
            features: Some(features),
            features_exact: true,
            component_field: None,
            zoneless: None,
        },
    )
}

/// The first argument that keeps a series of one type from being addressed.
pub open spec fn typed_identity_fault(
    a: IdentityArguments,
    ts_type: i32,
    interval: Argument<Period>,
) -> Option<FailureView> {
    fault_of(typed(ts_type)).or_next(fault_of(read_optional(interval))).or_next(identity_fault(a))
}

/// The filter that addresses exactly one series of one type. The interval may be left out: it
/// only tells apart forecasts that differ in nothing else.
pub fn build_typed_key_from_attrs(a: IdentityArguments, ts_type: i32, interval: Argument<Period>) -> (r:
    Result<ListFilter, Failure>)
    ensures
        match (r, typed_identity_fault(a, ts_type, interval)) {
            (Ok(filter), None) => is_identity_for(
                filter@,
                a,
                read_optional(interval)->Ok_0,
                Some(typed(ts_type)->Ok_0),
            ),
            (Err(f), Some(expected)) => f@ == expected,
            _ => false,
        },
{
    let kind = match required_type(ts_type) {
        Ok(v) => v,
        Err(f) => {
            return Err(f);
        },
    };
    let interval = match cstr_to_optional_period(interval) {
        Ok(v) => v,
        Err(f) => {
            return Err(f);
        },
    };
    let filter = match exact_identity_filter(a, interval) {
        Ok(v) => v,
        Err(f) => {
            return Err(f);
        },
    };
    Ok(ListFilter { time_series_type: Some(kind), ..filter })
}

/// The filter of an owner's series, of one type where the call names one.
pub open spec fn owner_filter_fault(category: i32, use_type: bool, ts_type: i32) -> Option<
    FailureView,
> {
    fault_of(category_of(category)).or_next(check_if(use_type, fault_of(typed(ts_type))))
}

/// The filter of an owner's series, of one type where the call names one.
pub fn owner_filter(owner_id: i64, category: i32, use_type: bool, ts_type: i32) -> (r: Result<
    ListFilter,
    Failure,
>)
    ensures
        match (r, owner_filter_fault(category, use_type, ts_type)) {
            (Ok(filter), None) => filter@ == (FilterView {
                owner_id: Some(owner_id),
                owner_category: Some(category_of(category)->Ok_0),
                time_series_type: given(use_type, typed(ts_type)->Ok_0),
                name: None,
                name_glob: None,
                resolution: None,
                interval: None,
                features: None,
                features_exact: false,
                component_field: None,
                zoneless: None,
            }),
            (Err(f), Some(expected)) => f@ == expected,
            _ => false,
        },
{
    let category = match owner_category(category) {
        Ok(v) => v,
        Err(f) => {
            return Err(f);
        },
    };
    let time_series_type = if use_type {
        match required_type(ts_type) {
            Ok(v) => Some(v),
            Err(f) => {
                return Err(f);
            },
        }
    } else {
        None
    };
    Ok(
        ListFilter {
            owner_id: Some(owner_id),
            owner_category: Some(category),
            time_series_type,
            name: None,
            name_glob: None,
            resolution: None,
            interval: None,
            features: None,
            features_exact: false,
            component_field: None,
            zoneless: None,
        },
    )
}

// ---- What a filter selects by --------------------------------------------------------------------

/// Whether an optional period is what an argument names: nothing where its text is null or
/// empty, and otherwise what the store reads.
pub open spec fn names_period(period: Option<Period>, a: Argument<Period>) -> bool {
    match period {
        None => a.text is None || says(a.text, Seq::empty()),
        Some(p) => a.text is Some && !says(a.text, Seq::empty()) && a.reading == Ok::<_, String>(
            p,
        ),
    }
}

/// A listing's filter selects by what was named and by nothing else, each predicate by the
/// argument of its own name: the owner, its category and the type where their flags are on, the
/// name, the glob and the field where their texts are there, and the features as a part.
pub proof fn listing_filters_select_by_name(a: FilterArguments, r: Result<ListFilter, Failure>)
    requires
        call_ensures(build_list_filter, (a,), r),
        r is Ok,
    ensures
        ({
            let f = r->Ok_0@;
            &&& f.owner_id == if a.has_owner {
                Some(a.owner_id)
            } else {
                None
            }
            &&& f.owner_category is Some <==> a.has_owner_category
            &&& f.owner_category == Some(OwnerCategory::Component) <==> a.has_owner_category
                && a.owner_category == 0
            &&& f.time_series_type is Some <==> a.has_time_series_type
            &&& f.time_series_type matches Some(t) ==> t.number() == a.time_series_type
            &&& may_say(a.name, f.name)
            &&& may_say(a.name_glob, f.name_glob)
            &&& may_say(a.component_field, f.component_field)
            &&& names_period(f.resolution, a.resolution)
            &&& names_period(f.interval, a.interval)
            &&& f.zoneless is None <==> a.zoneless < 0
            &&& f.zoneless matches Some(z) ==> (z <==> a.zoneless == 1)
            &&& a.features_json is None ==> f.features is None
            &&& !f.features_exact
        }),
{
}

/// A reader's filter selects by what was named, as a listing's does, and by no type and no
/// interval.
pub proof fn reader_filters_select_by_name(a: ReaderArguments, r: Result<ListFilter, Failure>)
    requires
        call_ensures(reader_filter, (a,), r),
        r is Ok,
    ensures
        ({
            let f = r->Ok_0@;
            &&& f.owner_id == if a.has_owner {
                Some(a.owner_id)
            } else {
                None
            }
            &&& f.owner_category is Some <==> a.has_owner_category
            &&& f.owner_category == Some(OwnerCategory::Component) <==> a.has_owner_category
                && a.owner_category == 0
            &&& f.time_series_type is None
            &&& may_say(a.name, f.name)
            &&& may_say(a.name_glob, f.name_glob)
            &&& may_say(a.component_field, f.component_field)
            &&& names_period(f.resolution, a.resolution)
            &&& f.interval is None
            &&& f.zoneless is None <==> a.zoneless < 0
            &&& f.zoneless matches Some(z) ==> (z <==> a.zoneless == 1)
            &&& a.features_json is None ==> f.features is None
            &&& !f.features_exact
        }),
{
}

/// The filter that addresses one series sets every part of its identity, with the whole feature
/// set, so that a sibling carrying one more feature does not answer for it; and nothing else.
pub proof fn identity_filters_address_one_series(
    a: IdentityArguments,
    ts_type: i32,
    interval: Argument<Period>,
    r: Result<ListFilter, Failure>,
)
    requires
        call_ensures(build_typed_key_from_attrs, (a, ts_type, interval), r),
        r is Ok,
    ensures
        ({
            let f = r->Ok_0@;
            &&& f.owner_id == Some(a.owner_id)
            &&& f.owner_category is Some
            &&& f.owner_category == Some(OwnerCategory::Component) <==> a.owner_category == 0
            &&& f.time_series_type matches Some(t) && t.number() == ts_type
            &&& f.name matches Some(name) && says(a.name, name)
            &&& names_period(f.resolution, a.resolution)
            &&& names_period(f.interval, interval)
            &&& f.features is Some && f.features_exact
            &&& a.features_json is None ==> f.features->0.dom() == Set::<Seq<char>>::empty()
            &&& f.name_glob is None && f.component_field is None && f.zoneless is None
        }),
{
}

/// Addressing a series without its type differs from addressing it with one in the type alone.
pub proof fn types_narrow_an_identity(
    a: IdentityArguments,
    ts_type: i32,
    interval: Argument<Period>,
    period: Option<Period>,
    typed: Result<ListFilter, Failure>,
    untyped: Result<ListFilter, Failure>,
)
    requires
        call_ensures(build_typed_key_from_attrs, (a, ts_type, interval), typed),
        call_ensures(exact_identity_filter, (a, period), untyped),
        names_period(period, interval),
        typed is Ok,
    ensures
        untyped is Ok,
        untyped->Ok_0@.time_series_type is None,
        untyped->Ok_0@.interval == typed->Ok_0@.interval,
        untyped->Ok_0@.owner_id == typed->Ok_0@.owner_id,
        untyped->Ok_0@.owner_category == typed->Ok_0@.owner_category,
        untyped->Ok_0@.name == typed->Ok_0@.name,
        untyped->Ok_0@.resolution == typed->Ok_0@.resolution,
        untyped->Ok_0@.features_exact == typed->Ok_0@.features_exact,
{
}

/// The filter of an owner's series selects by the owner and its category, by the type where one
/// is named, and by nothing else.
pub proof fn owner_filters_select_an_owner(
    owner_id: i64,
    category: i32,
    use_type: bool,
    ts_type: i32,
    r: Result<ListFilter, Failure>,
)
    requires
        call_ensures(owner_filter, (owner_id, category, use_type, ts_type), r),
        r is Ok,
    ensures
        ({
            let f = r->Ok_0@;
            &&& f.owner_id == Some(owner_id)
            &&& f.owner_category is Some
            &&& f.owner_category == Some(OwnerCategory::Component) <==> category == 0
            &&& f.time_series_type is Some <==> use_type
            &&& f.time_series_type matches Some(t) ==> t.number() == ts_type
            &&& f.name is None && f.name_glob is None && f.component_field is None
            &&& f.resolution is None && f.interval is None && f.features is None
            &&& f.zoneless is None && !f.features_exact
        }),
{
}

} // verus!
