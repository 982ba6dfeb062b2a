//! What the C boundary says of the catalog in JSON.
use crate::catalog::{hash_to_hex, hex_text, MetadataView, TimeSeriesMetadata};
use crate::features::{feature_members, features_object};
use crate::instant::{opt_period, Period, PeriodView};
use crate::json::{
    copy_value, empty_object, json_i64, json_list, json_null, json_object, json_text, json_u64,
    members_of, no_members, put, rendered, rendered_text, tree_of, trees, JsonNumber, JsonObject,
    JsonTree,
};
use crate::kinds::{OwnerCategory, TimeSeriesType};
use crate::series::opt_text;
use vstd::prelude::*;

verus! {

/// An integer, in JSON.
pub open spec fn int_tree(n: int) -> JsonTree {
    JsonTree::Number(JsonNumber::Integer(n))
}

/// A text or nothing, in JSON.
pub open spec fn opt_text_tree(s: Option<Seq<char>>) -> JsonTree {
    match s {
        None => JsonTree::Null,
        Some(t) => JsonTree::Text(t),
    }
}

/// A period by its ISO-8601 spelling, or nothing, in JSON.
pub open spec fn period_tree(p: Option<PeriodView>) -> JsonTree {
    match p {
        None => JsonTree::Null,
        Some(period) => JsonTree::Text(period.iso),
    }
}

/// An integer or nothing, in JSON.
pub open spec fn opt_int_tree(n: Option<i64>) -> JsonTree {
    match n {
        None => JsonTree::Null,
        Some(i) => int_tree(i as int),
    }
}

/// A size or nothing, in JSON.
pub open spec fn opt_size_tree(n: Option<usize>) -> JsonTree {
    match n {
        None => JsonTree::Null,
        Some(i) => int_tree(i as int),
    }
}

/// Sizes, in JSON.
pub open spec fn sizes_tree(shape: Seq<usize>) -> JsonTree {
    JsonTree::List(shape.map_values(|d: usize| int_tree(d as int)))
}

fn opt_text_json(s: &Option<String>) -> (r: serde_json::Value)
    ensures
        tree_of(r) == opt_text_tree(opt_text(*s)),
{
    match s {
        None => json_null(),
        Some(t) => json_text(t.as_str()),
    }
}

fn period_json(p: &Option<Period>) -> (r: serde_json::Value)
    ensures
        tree_of(r) == period_tree(opt_period(*p)),
{
    match p {
        None => json_null(),
        Some(period) => json_text(period.iso.as_str()),
    }
}

fn opt_int_json(n: Option<i64>) -> (r: serde_json::Value)
    ensures
        tree_of(r) == opt_int_tree(n),
{
    match n {
        None => json_null(),
        Some(i) => json_i64(i),
    }
}

fn opt_size_json(n: Option<usize>) -> (r: serde_json::Value)
    ensures
        tree_of(r) == opt_size_tree(n),
{
    match n {
        None => json_null(),
        Some(i) => json_u64(i as u64),
    }
}

fn sizes_json(shape: &Vec<usize>) -> (r: serde_json::Value)
    ensures
        tree_of(r) == sizes_tree(shape@),
{
    let mut items: Vec<serde_json::Value> = Vec::new();
    let mut i: usize = 0;
    while i < shape.len()
        invariant
            i <= shape.len(),
            items@.len() == i,
            forall|j: int| 0 <= j < i ==> tree_of(#[trigger] items@[j]) == int_tree(shape@[j] as int),
        decreases shape.len() - i,
    {
        items.push(json_u64(shape[i] as u64));
        i += 1;
    }
    proof {
        assert(trees(items@) =~= shape@.map_values(|d: usize| int_tree(d as int)));
    }
    json_list(items)
}

fn copy_values(values: &Vec<serde_json::Value>) -> (r: Vec<serde_json::Value>)
    ensures
        trees(r@) == trees(values@),
{
    let mut items: Vec<serde_json::Value> = Vec::new();
    let mut i: usize = 0;
    while i < values.len()
        invariant
            i <= values.len(),
            items@.len() == i,
            forall|j: int| 0 <= j < i ==> tree_of(#[trigger] items@[j]) == tree_of(values@[j]),
        decreases values.len() - i,
    {
        items.push(copy_value(&values[i]));
        i += 1;
    }
    proof {
        assert(trees(items@) =~= trees(values@));
    }
    items
}

/// The members of a catalog row's JSON object: the fields that identify the row, and the
/// columns that say how it is stored. Periods are ISO-8601 texts and the initial timestamp is
/// Unix milliseconds; what a row does not have is null.
pub open spec fn metadata_members(m: MetadataView) -> Map<Seq<char>, JsonTree> {
    no_members()
        .insert("owner_id"@, int_tree(m.owner_id as int))
        .insert("owner_type"@, JsonTree::Text(m.owner_type))
        .insert("owner_category"@, JsonTree::Text(m.owner_category.spelling()))
        .insert("time_series_type"@, JsonTree::Text(m.kind.spelling()))
        .insert("name"@, JsonTree::Text(m.name))
        .insert("data_hash"@, JsonTree::Text(hex_text(m.data_hash)))
        .insert("id"@, opt_int_tree(m.id))
        .insert("initial_timestamp_ms"@, opt_int_tree(m.initial_timestamp))
        .insert("resolution"@, period_tree(m.resolution))
        .insert("horizon"@, period_tree(m.horizon))
        .insert("interval"@, period_tree(m.interval))
        .insert("count"@, opt_size_tree(m.count))
        .insert("length"@, opt_size_tree(m.length))
        .insert("percentiles"@, match m.percentiles {
            None => JsonTree::Null,
            Some(percentiles) => JsonTree::List(percentiles),
        })
        .insert("element_type"@, JsonTree::Text(m.element_type.spelling()))
        .insert("element_shape"@, sizes_tree(m.element_shape))
        .insert("features"@, JsonTree::Object(feature_members(m.features)))
        .insert("units"@, opt_text_tree(m.units))
        .insert("quantity_kind"@, opt_text_tree(m.quantity_kind))
        .insert("unit_system"@, match m.unit_system {
            None => JsonTree::Null,
            Some(u) => JsonTree::Text(u.spelling()),
        })
        .insert("time_reference"@, match m.time_reference {
            None => JsonTree::Null,
            Some(reference) => JsonTree::Text(reference.storage_text()),
        })
        .insert("component_field"@, opt_text_tree(m.component_field))
        .insert("application_data"@, opt_text_tree(m.application_data))
}

/// The JSON object of one catalog row.
pub fn metadata_to_map(m: &TimeSeriesMetadata) -> (r: JsonObject)
    ensures
        members_of(r) == metadata_members(m@),
{
    let mut o = empty_object();
    put(&mut o, "owner_id", json_i64(m.owner_id));
    put(&mut o, "owner_type", json_text(m.owner_type.as_str()));
    put(&mut o, "owner_category", json_text(m.owner_category.as_str()));
    put(&mut o, "time_series_type", json_text(m.time_series_type.as_str()));
    put(&mut o, "name", json_text(m.name.as_str()));
    put(&mut o, "data_hash", json_text(hash_to_hex(&m.data_hash).as_str()));
    put(&mut o, "id", opt_int_json(m.id));
    put(&mut o, "initial_timestamp_ms", opt_int_json(m.initial_timestamp));
    put(&mut o, "resolution", period_json(&m.resolution));
    put(&mut o, "horizon", period_json(&m.horizon));
    put(&mut o, "interval", period_json(&m.interval));
    put(&mut o, "count", opt_size_json(m.count));
    put(&mut o, "length", opt_size_json(m.length));
    let percentiles = match &m.percentiles {
        None => json_null(),
        Some(percentiles) => json_list(copy_values(percentiles)),
    };
    put(&mut o, "percentiles", percentiles);
    put(&mut o, "element_type", json_text(m.element_type.spelled().as_str()));
    put(&mut o, "element_shape", sizes_json(&m.element_shape));
    put(&mut o, "features", features_object(&m.features));
    put(&mut o, "units", opt_text_json(&m.units));
    put(&mut o, "quantity_kind", opt_text_json(&m.quantity_kind));
    let unit_system = match m.unit_system {
        None => json_null(),
        Some(u) => json_text(u.as_str()),
    };
    put(&mut o, "unit_system", unit_system);
    let time_reference = match &m.time_reference {
        None => json_null(),
        Some(reference) => json_text(reference.as_storage_string().as_str()),
    };
    put(&mut o, "time_reference", time_reference);
    put(&mut o, "component_field", opt_text_json(&m.component_field));
    put(&mut o, "application_data", opt_text_json(&m.application_data));
    o
}

/// The JSON text of one catalog row.
pub fn metadata_json(m: &TimeSeriesMetadata) -> (r: String)
    ensures
        r@ == rendered_text(JsonTree::Object(metadata_members(m@))),
{
    rendered(&json_object(metadata_to_map(m)))
}

/// The JSON of a list of catalog rows: one object each.
pub open spec fn metadata_list(rows: Seq<TimeSeriesMetadata>) -> JsonTree {
    JsonTree::List(
        rows.map_values(|m: TimeSeriesMetadata| JsonTree::Object(metadata_members(m@))),
    )
}

/// The JSON text of a list of catalog rows.
pub fn metadata_rows_to_json(rows: &Vec<TimeSeriesMetadata>) -> (r: String)
    ensures
        r@ == rendered_text(metadata_list(rows@)),
{
    let mut items: Vec<serde_json::Value> = Vec::new();
    let mut i: usize = 0;
    while i < rows.len()
        invariant
            i <= rows.len(),
            items@.len() == i,
            forall|j: int|
                0 <= j < i ==> tree_of(#[trigger] items@[j]) == JsonTree::Object(
                    metadata_members(rows@[j]@),
                ),
        decreases rows.len() - i,
    {
        items.push(json_object(metadata_to_map(&rows[i])));
        i += 1;
    }
    proof {
        assert(trees(items@) =~= rows@.map_values(
            |m: TimeSeriesMetadata| JsonTree::Object(metadata_members(m@)),
        ));
    }
    rendered(&json_list(items))
}

/// The regular grid the series of one resolution share.
#[derive(Debug)]
pub struct StaticGrid {
    pub resolution: Period,
    pub initial_timestamp: i64,
    pub length: i64,
}

/// The members of a grid's JSON object.
pub open spec fn grid_members(g: StaticGrid) -> Map<Seq<char>, JsonTree> {
    no_members()
        .insert("resolution"@, JsonTree::Text(g.resolution@.iso))
        .insert("initial_timestamp_ms"@, int_tree(g.initial_timestamp as int))
        .insert("length"@, int_tree(g.length as int))
}

fn grid_object(g: &StaticGrid) -> (r: serde_json::Value)
    ensures
        tree_of(r) == JsonTree::Object(grid_members(*g)),
{
    let mut o = empty_object();
    put(&mut o, "resolution", json_text(g.resolution.iso.as_str()));
    put(&mut o, "initial_timestamp_ms", json_i64(g.initial_timestamp));
    put(&mut o, "length", json_i64(g.length));
    json_object(o)
}

/// Grids, in JSON: one object each.
pub open spec fn grid_list(rows: Seq<StaticGrid>) -> JsonTree {
    JsonTree::List(rows.map_values(|row: StaticGrid| JsonTree::Object(grid_members(row))))
}

/// The JSON text of the grids that a consistent store's regular series share.
pub fn grids_json(rows: &Vec<StaticGrid>) -> (r: String)
    ensures
        r@ == rendered_text(grid_list(rows@)),
{
    let mut items: Vec<serde_json::Value> = Vec::new();
    let mut i: usize = 0;
    while i < rows.len()
        invariant
            i <= rows.len(),
            items@.len() == i,
            forall|j: int| #![trigger items@[j]] 0 <= j < i ==> {
                let row = rows@[j];
                tree_of(items@[j]) == JsonTree::Object(grid_members(row))
            },
        decreases rows.len() - i,
    {
        items.push(grid_object(&rows[i]));
        i += 1;
    }
    proof {
        assert(trees(items@) =~= rows@.map_values(|row: StaticGrid| JsonTree::Object(grid_members(row))));
    }
    rendered(&json_list(items))
}

/// Periods, in JSON: their ISO-8601 spellings.
pub open spec fn period_list(rows: Seq<Period>) -> JsonTree {
    JsonTree::List(rows.map_values(|row: Period| JsonTree::Text(row@.iso)))
}

/// The JSON text of a list of periods, as for resolutions and intervals.
pub fn periods_json(rows: &Vec<Period>) -> (r: String)
    ensures
        r@ == rendered_text(period_list(rows@)),
{
    let mut items: Vec<serde_json::Value> = Vec::new();
    let mut i: usize = 0;
    while i < rows.len()
        invariant
            i <= rows.len(),
            items@.len() == i,
            forall|j: int| #![trigger items@[j]] 0 <= j < i ==> {
                let row = rows@[j];
                tree_of(items@[j]) == JsonTree::Text(row@.iso)
            },
        decreases rows.len() - i,
    {
        items.push(json_text(rows[i].iso.as_str()));
        i += 1;
    }
    proof {
        assert(trees(items@) =~= rows@.map_values(|row: Period| JsonTree::Text(row@.iso)));
    }
    rendered(&json_list(items))
}

/// Texts, in JSON.
pub open spec fn text_list(rows: Seq<String>) -> JsonTree {
    JsonTree::List(rows.map_values(|row: String| JsonTree::Text(row@)))
}

/// The JSON text of a list of texts, as for names and owner types.
pub fn texts_json(rows: &Vec<String>) -> (r: String)
    ensures
        r@ == rendered_text(text_list(rows@)),
{
    let mut items: Vec<serde_json::Value> = Vec::new();
    let mut i: usize = 0;
    while i < rows.len()
        invariant
            i <= rows.len(),
            items@.len() == i,
            forall|j: int| #![trigger items@[j]] 0 <= j < i ==> {
                let row = rows@[j];
                tree_of(items@[j]) == JsonTree::Text(row@)
            },
        decreases rows.len() - i,
    {
        items.push(json_text(rows[i].as_str()));
        i += 1;
    }
    proof {
        assert(trees(items@) =~= rows@.map_values(|row: String| JsonTree::Text(row@)));
    }
    rendered(&json_list(items))
}

/// Ids, in JSON.
pub open spec fn id_list(rows: Seq<i64>) -> JsonTree {
    JsonTree::List(rows.map_values(|row: i64| int_tree(row as int)))
}

/// The JSON text of a list of ids.
pub fn ids_json(rows: &Vec<i64>) -> (r: String)
    ensures
        r@ == rendered_text(id_list(rows@)),
{
    let mut items: Vec<serde_json::Value> = Vec::new();
    let mut i: usize = 0;
    while i < rows.len()
        invariant
            i <= rows.len(),
            items@.len() == i,
            forall|j: int| #![trigger items@[j]] 0 <= j < i ==> {
                let row = rows@[j];
                tree_of(items@[j]) == int_tree(row as int)
            },
        decreases rows.len() - i,
    {
        items.push(json_i64(rows[i]));
        i += 1;
    }
    proof {
        assert(trees(items@) =~= rows@.map_values(|row: i64| int_tree(row as int)));
    }
    rendered(&json_list(items))
}

/// How many associations there are of one type.
#[derive(Debug)]
pub struct TypeCount {
    pub time_series_type: TimeSeriesType,
    pub count: i64,
}

/// The members of a type count's JSON object.
pub open spec fn type_count_members(c: TypeCount) -> Map<Seq<char>, JsonTree> {
    no_members()
        .insert("time_series_type"@, JsonTree::Text(c.time_series_type.spelling()))
        .insert("count"@, int_tree(c.count as int))
}

fn type_count_object(c: &TypeCount) -> (r: serde_json::Value)
    ensures
        tree_of(r) == JsonTree::Object(type_count_members(*c)),
{
    let mut o = empty_object();
    put(&mut o, "time_series_type", json_text(c.time_series_type.as_str()));
    put(&mut o, "count", json_i64(c.count));
    json_object(o)
}

/// Counts by series type, in JSON: one object each.
pub open spec fn type_count_list(rows: Seq<TypeCount>) -> JsonTree {
    JsonTree::List(rows.map_values(|row: TypeCount| JsonTree::Object(type_count_members(row))))
}

/// The JSON text of the association counts by series type.
pub fn counts_by_type_json(rows: &Vec<TypeCount>) -> (r: String)
    ensures
        r@ == rendered_text(type_count_list(rows@)),
{
    let mut items: Vec<serde_json::Value> = Vec::new();
    let mut i: usize = 0;
    while i < rows.len()
        invariant
            i <= rows.len(),
            items@.len() == i,
            forall|j: int| #![trigger items@[j]] 0 <= j < i ==> {
                let row = rows@[j];
                tree_of(items@[j]) == JsonTree::Object(type_count_members(row))
            },
        decreases rows.len() - i,
    {
        items.push(type_count_object(&rows[i]));
        i += 1;
    }
    proof {
        assert(trees(items@) =~= rows@.map_values(|row: TypeCount| JsonTree::Object(type_count_members(row))));
    }
    rendered(&json_list(items))
}

/// How many attachments there are of one attribute type.
#[derive(Debug)]
pub struct AttributeCount {
    pub attribute_type: String,
    pub count: i64,
}

/// The members of an attribute count's JSON object.
pub open spec fn attribute_count_members(c: AttributeCount) -> Map<Seq<char>, JsonTree> {
    no_members()
        .insert("type"@, JsonTree::Text(c.attribute_type@))
        .insert("count"@, int_tree(c.count as int))
}

fn attribute_count_object(c: &AttributeCount) -> (r: serde_json::Value)
    ensures
        tree_of(r) == JsonTree::Object(attribute_count_members(*c)),
{
    let mut o = empty_object();
    put(&mut o, "type", json_text(c.attribute_type.as_str()));
    put(&mut o, "count", json_i64(c.count));
    json_object(o)
}

/// Counts by attribute type, in JSON: one object each.
pub open spec fn attribute_count_list(rows: Seq<AttributeCount>) -> JsonTree {
    JsonTree::List(rows.map_values(|row: AttributeCount| JsonTree::Object(attribute_count_members(row))))
}

/// The JSON text of the attachment counts by attribute type.
pub fn attribute_counts_json(rows: &Vec<AttributeCount>) -> (r: String)
    ensures
        r@ == rendered_text(attribute_count_list(rows@)),
{
    let mut items: Vec<serde_json::Value> = Vec::new();
    let mut i: usize = 0;
    while i < rows.len()
        invariant
            i <= rows.len(),
            items@.len() == i,
            forall|j: int| #![trigger items@[j]] 0 <= j < i ==> {
                let row = rows@[j];
                tree_of(items@[j]) == JsonTree::Object(attribute_count_members(row))
            },
        decreases rows.len() - i,
    {
        items.push(attribute_count_object(&rows[i]));
        i += 1;
    }
    proof {
        assert(trees(items@) =~= rows@.map_values(|row: AttributeCount| JsonTree::Object(attribute_count_members(row))));
    }
    rendered(&json_list(items))
}

/// One group of static series that agree on everything a summary shows.
#[derive(Debug)]
pub struct StaticSummary {
    pub owner_type: String,
    pub owner_category: OwnerCategory,
    pub time_series_type: TimeSeriesType,
    pub name: String,
    pub initial_timestamp: Option<i64>,
    pub resolution: Option<Period>,
    pub time_step_count: Option<i64>,
    pub count: i64,
}

/// The members of a static group's JSON object.
pub open spec fn static_summary_members(g: StaticSummary) -> Map<Seq<char>, JsonTree> {
    no_members()
        .insert("owner_type"@, JsonTree::Text(g.owner_type@))
        .insert("owner_category"@, JsonTree::Text(g.owner_category.spelling()))
        .insert("time_series_type"@, JsonTree::Text(g.time_series_type.spelling()))
        .insert("name"@, JsonTree::Text(g.name@))
        .insert("initial_timestamp_ms"@, opt_int_tree(g.initial_timestamp))
        .insert("resolution"@, period_tree(opt_period(g.resolution)))
        .insert("time_step_count"@, opt_int_tree(g.time_step_count))
        .insert("count"@, int_tree(g.count as int))
}

fn static_summary_object(g: &StaticSummary) -> (r: serde_json::Value)
    ensures
        tree_of(r) == JsonTree::Object(static_summary_members(*g)),
{
    let mut o = empty_object();
    put(&mut o, "owner_type", json_text(g.owner_type.as_str()));
    put(&mut o, "owner_category", json_text(g.owner_category.as_str()));
    put(&mut o, "time_series_type", json_text(g.time_series_type.as_str()));
    put(&mut o, "name", json_text(g.name.as_str()));
    put(&mut o, "initial_timestamp_ms", opt_int_json(g.initial_timestamp));
    put(&mut o, "resolution", period_json(&g.resolution));
    put(&mut o, "time_step_count", opt_int_json(g.time_step_count));
    put(&mut o, "count", json_i64(g.count));
    json_object(o)
}

/// The summary of the static series, in JSON: one object for each group.
pub open spec fn static_summary_list(rows: Seq<StaticSummary>) -> JsonTree {
    JsonTree::List(rows.map_values(|row: StaticSummary| JsonTree::Object(static_summary_members(row))))
}

/// The JSON text of the static-series summary.
pub fn static_summary_json(rows: &Vec<StaticSummary>) -> (r: String)
    ensures
        r@ == rendered_text(static_summary_list(rows@)),
{
    let mut items: Vec<serde_json::Value> = Vec::new();
    let mut i: usize = 0;
    while i < rows.len()
        invariant
            i <= rows.len(),
            items@.len() == i,
            forall|j: int| #![trigger items@[j]] 0 <= j < i ==> {
                let row = rows@[j];
                tree_of(items@[j]) == JsonTree::Object(static_summary_members(row))
            },
        decreases rows.len() - i,
    {
        items.push(static_summary_object(&rows[i]));
        i += 1;
    }
    proof {
        assert(trees(items@) =~= rows@.map_values(|row: StaticSummary| JsonTree::Object(static_summary_members(row))));
    }
    rendered(&json_list(items))
}

/// One group of forecasts that agree on everything a summary shows.
#[derive(Debug)]
pub struct ForecastSummary {
    pub owner_type: String,
    pub owner_category: OwnerCategory,
    pub time_series_type: TimeSeriesType,
    pub name: String,
    pub initial_timestamp: Option<i64>,
    pub resolution: Option<Period>,
    pub horizon: Option<Period>,
    pub interval: Option<Period>,
    pub window_count: Option<i64>,
    pub count: i64,
}

/// The members of a forecast group's JSON object.
pub open spec fn forecast_summary_members(g: ForecastSummary) -> Map<Seq<char>, JsonTree> {
    no_members()
        .insert("owner_type"@, JsonTree::Text(g.owner_type@))
        .insert("owner_category"@, JsonTree::Text(g.owner_category.spelling()))
        .insert("time_series_type"@, JsonTree::Text(g.time_series_type.spelling()))
        .insert("name"@, JsonTree::Text(g.name@))
        .insert("initial_timestamp_ms"@, opt_int_tree(g.initial_timestamp))
        .insert("resolution"@, period_tree(opt_period(g.resolution)))
        .insert("horizon"@, period_tree(opt_period(g.horizon)))
        .insert("interval"@, period_tree(opt_period(g.interval)))
        .insert("window_count"@, opt_int_tree(g.window_count))
        .insert("count"@, int_tree(g.count as int))
}

fn forecast_summary_object(g: &ForecastSummary) -> (r: serde_json::Value)
    ensures
        tree_of(r) == JsonTree::Object(forecast_summary_members(*g)),
{
    let mut o = empty_object();
    put(&mut o, "owner_type", json_text(g.owner_type.as_str()));
    put(&mut o, "owner_category", json_text(g.owner_category.as_str()));
    put(&mut o, "time_series_type", json_text(g.time_series_type.as_str()));
    put(&mut o, "name", json_text(g.name.as_str()));
    put(&mut o, "initial_timestamp_ms", opt_int_json(g.initial_timestamp));
    put(&mut o, "resolution", period_json(&g.resolution));
    put(&mut o, "horizon", period_json(&g.horizon));
    put(&mut o, "interval", period_json(&g.interval));
    put(&mut o, "window_count", opt_int_json(g.window_count));
    put(&mut o, "count", json_i64(g.count));
    json_object(o)
}

/// The summary of the forecasts, in JSON: one object for each group.
pub open spec fn forecast_summary_list(rows: Seq<ForecastSummary>) -> JsonTree {
    JsonTree::List(rows.map_values(|row: ForecastSummary| JsonTree::Object(forecast_summary_members(row))))
}

/// The JSON text of the forecast summary.
pub fn forecast_summary_json(rows: &Vec<ForecastSummary>) -> (r: String)
    ensures
        r@ == rendered_text(forecast_summary_list(rows@)),
{
    let mut items: Vec<serde_json::Value> = Vec::new();
    let mut i: usize = 0;
    while i < rows.len()
        invariant
            i <= rows.len(),
            items@.len() == i,
            forall|j: int| #![trigger items@[j]] 0 <= j < i ==> {
                let row = rows@[j];
                tree_of(items@[j]) == JsonTree::Object(forecast_summary_members(row))
            },
        decreases rows.len() - i,
    {
        items.push(forecast_summary_object(&rows[i]));
        i += 1;
    }
    proof {
        assert(trees(items@) =~= rows@.map_values(|row: ForecastSummary| JsonTree::Object(forecast_summary_members(row))));
    }
    rendered(&json_list(items))
}

/// What a compaction reclaimed.
#[derive(Debug)]
pub struct CompactReport {
    pub slots_reclaimed: u64,
    pub datasets_dropped: u64,
    pub feature_sets_reclaimed: u64,
    pub timestamp_sets_reclaimed: u64,
    pub bytes_reclaimed: u64,
}

/// The members of a compaction report's JSON object.
pub open spec fn compact_members(c: CompactReport) -> Map<Seq<char>, JsonTree> {
    no_members()
        .insert("slots_reclaimed"@, int_tree(c.slots_reclaimed as int))
        .insert("datasets_dropped"@, int_tree(c.datasets_dropped as int))
        .insert("feature_sets_reclaimed"@, int_tree(c.feature_sets_reclaimed as int))
        .insert("timestamp_sets_reclaimed"@, int_tree(c.timestamp_sets_reclaimed as int))
        .insert("bytes_reclaimed"@, int_tree(c.bytes_reclaimed as int))
}

/// The JSON text of a compaction report.
pub fn compact_json(c: &CompactReport) -> (r: String)
    ensures
        r@ == rendered_text(JsonTree::Object(compact_members(*c))),
{
    let mut o = empty_object();
    put(&mut o, "slots_reclaimed", json_u64(c.slots_reclaimed));
    put(&mut o, "datasets_dropped", json_u64(c.datasets_dropped));
    put(&mut o, "feature_sets_reclaimed", json_u64(c.feature_sets_reclaimed));
    put(&mut o, "timestamp_sets_reclaimed", json_u64(c.timestamp_sets_reclaimed));
    put(&mut o, "bytes_reclaimed", json_u64(c.bytes_reclaimed));
    rendered(&json_object(o))
}

// ---- What stands under a name -------------------------------------------------------------------

/// The names of members are told apart by their length and their first character.
proof fn member_names()
    ensures
        "application_data"@.len() == 16 && "application_data"@[0] == 'a',
        "bytes_reclaimed"@.len() == 15 && "bytes_reclaimed"@[0] == 'b',
        "component_field"@.len() == 15 && "component_field"@[0] == 'c',
        "count"@.len() == 5 && "count"@[0] == 'c',
        "data_hash"@.len() == 9 && "data_hash"@[0] == 'd',
        "datasets_dropped"@.len() == 16 && "datasets_dropped"@[0] == 'd',
        "element_shape"@.len() == 13 && "element_shape"@[0] == 'e',
        "element_type"@.len() == 12 && "element_type"@[0] == 'e',
        "feature_sets_reclaimed"@.len() == 22 && "feature_sets_reclaimed"@[0] == 'f',
        "features"@.len() == 8 && "features"@[0] == 'f',
        "horizon"@.len() == 7 && "horizon"@[0] == 'h',
        "id"@.len() == 2 && "id"@[0] == 'i',
        "initial_timestamp_ms"@.len() == 20 && "initial_timestamp_ms"@[0] == 'i',
        "interval"@.len() == 8 && "interval"@[0] == 'i',
        "length"@.len() == 6 && "length"@[0] == 'l',
        "name"@.len() == 4 && "name"@[0] == 'n',
        "owner_category"@.len() == 14 && "owner_category"@[0] == 'o',
        "owner_id"@.len() == 8 && "owner_id"@[0] == 'o',
        "owner_type"@.len() == 10 && "owner_type"@[0] == 'o',
        "percentiles"@.len() == 11 && "percentiles"@[0] == 'p',
        "quantity_kind"@.len() == 13 && "quantity_kind"@[0] == 'q',
        "resolution"@.len() == 10 && "resolution"@[0] == 'r',
        "slots_reclaimed"@.len() == 15 && "slots_reclaimed"@[0] == 's',
        "time_reference"@.len() == 14 && "time_reference"@[0] == 't',
        "time_series_type"@.len() == 16 && "time_series_type"@[0] == 't',
        "time_step_count"@.len() == 15 && "time_step_count"@[0] == 't',
        "timestamp_sets_reclaimed"@.len() == 24 && "timestamp_sets_reclaimed"@[0] == 't',
        "type"@.len() == 4 && "type"@[0] == 't',
        "unit_system"@.len() == 11 && "unit_system"@[0] == 'u',
        "units"@.len() == 5 && "units"@[0] == 'u',
        "window_count"@.len() == 12 && "window_count"@[0] == 'w',
{
    reveal_strlit("application_data");
    reveal_strlit("bytes_reclaimed");
    reveal_strlit("component_field");
    reveal_strlit("count");
    reveal_strlit("data_hash");
    reveal_strlit("datasets_dropped");
    reveal_strlit("element_shape");
    reveal_strlit("element_type");
    reveal_strlit("feature_sets_reclaimed");
    reveal_strlit("features");
    reveal_strlit("horizon");
    reveal_strlit("id");
    reveal_strlit("initial_timestamp_ms");
    reveal_strlit("interval");
    reveal_strlit("length");
    reveal_strlit("name");
    reveal_strlit("owner_category");
    reveal_strlit("owner_id");
    reveal_strlit("owner_type");
    reveal_strlit("percentiles");
    reveal_strlit("quantity_kind");
    reveal_strlit("resolution");
    reveal_strlit("slots_reclaimed");
    reveal_strlit("time_reference");
    reveal_strlit("time_series_type");
    reveal_strlit("time_step_count");
    reveal_strlit("timestamp_sets_reclaimed");
    reveal_strlit("type");
    reveal_strlit("unit_system");
    reveal_strlit("units");
    reveal_strlit("window_count");
}

/// Whether an object has a member of a name, and this is it.
pub open spec fn shows(o: Map<Seq<char>, JsonTree>, name: Seq<char>, value: JsonTree) -> bool {
    o.contains_key(name) && o[name] == value
}

/// Whether an object shows a text under a name, and null where there is none.
pub open spec fn shows_text(o: Map<Seq<char>, JsonTree>, name: Seq<char>, text: Option<Seq<char>>) -> bool {
    match text {
        Some(t) => shows(o, name, JsonTree::Text(t)),
        None => shows(o, name, JsonTree::Null),
    }
}

/// Whether an object shows a number under a name, and null where there is none.
pub open spec fn shows_number(o: Map<Seq<char>, JsonTree>, name: Seq<char>, n: Option<int>) -> bool {
    match n {
        Some(i) => shows(o, name, JsonTree::Number(JsonNumber::Integer(i))),
        None => shows(o, name, JsonTree::Null),
    }
}

/// Whether an object shows a period under a name by its spelling, and null where there is none.
pub open spec fn shows_period(o: Map<Seq<char>, JsonTree>, name: Seq<char>, p: Option<Period>) -> bool {
    match p {
        Some(p) => shows(o, name, JsonTree::Text(p.iso@)),
        None => shows(o, name, JsonTree::Null),
    }
}

/// Whether an object shows a catalog row: every field under its own name.
pub open spec fn shows_row(o: Map<Seq<char>, JsonTree>, m: TimeSeriesMetadata) -> bool {
    &&& shows_number(o, "owner_id"@, Some(m.owner_id as int))
    &&& shows_text(o, "owner_type"@, Some(m.owner_type@))
    &&& shows_text(o, "owner_category"@, Some(m.owner_category.spelling()))
    &&& shows_text(o, "time_series_type"@, Some(m.time_series_type.spelling()))
    &&& shows_text(o, "name"@, Some(m.name@))
    &&& shows_text(o, "data_hash"@, Some(hex_text(m.data_hash@)))
    &&& shows_number(o, "id"@, match m.id {
        Some(n) => Some(n as int),
        None => None,
    })
    &&& shows_number(o, "initial_timestamp_ms"@, match m.initial_timestamp {
        Some(n) => Some(n as int),
        None => None,
    })
    &&& shows_period(o, "resolution"@, m.resolution)
    &&& shows_period(o, "horizon"@, m.horizon)
    &&& shows_period(o, "interval"@, m.interval)
    &&& shows_number(o, "count"@, match m.count {
        Some(n) => Some(n as int),
        None => None,
    })
    &&& shows_number(o, "length"@, match m.length {
        Some(n) => Some(n as int),
        None => None,
    })
    &&& match m.percentiles {
        Some(p) => shows(o, "percentiles"@, JsonTree::List(trees(p@))),
        None => shows(o, "percentiles"@, JsonTree::Null),
    }
    &&& shows_text(o, "element_type"@, Some(m.element_type@.spelling()))
    &&& o.contains_key("element_shape"@) && (o["element_shape"@] matches JsonTree::List(sizes)
        && sizes.len() == m.element_shape@.len() && forall|i: int|
        0 <= i < sizes.len() ==> #[trigger] sizes[i] == JsonTree::Number(
            JsonNumber::Integer(m.element_shape@[i] as int),
        ))
    &&& o.contains_key("features"@) && (o["features"@] matches JsonTree::Object(f) && f
        == feature_members(m.features@))
    &&& shows_text(o, "units"@, opt_text(m.units))
    &&& shows_text(o, "quantity_kind"@, opt_text(m.quantity_kind))
    &&& shows_text(o, "unit_system"@, match m.unit_system {
        Some(u) => Some(u.spelling()),
        None => None,
    })
    &&& shows_text(o, "time_reference"@, match m.time_reference {
        Some(t) => Some(t@.storage_text()),
        None => None,
    })
    &&& shows_text(o, "component_field"@, opt_text(m.component_field))
    &&& shows_text(o, "application_data"@, opt_text(m.application_data))
}

proof fn rows_are_shown(m: TimeSeriesMetadata)
    ensures
        shows_row(metadata_members(m@), m),
{
    member_names();
    let o = metadata_members(m@);
    assert(sizes_tree(m.element_shape@)->List_0.len() == m.element_shape@.len());
}

/// A catalog row's object shows every field of the row under the field's own name.
pub proof fn rows_stand_under_their_names(m: TimeSeriesMetadata, r: JsonObject)
    requires
        call_ensures(metadata_to_map, (&m,), r),
    ensures
        shows_row(members_of(r), m),
{
    rows_are_shown(m);
}

/// Whether a text is the JSON of a list of as many objects as there are rows, in their order,
/// each showing its row.
pub open spec fn lists_rows(text: Seq<char>, rows: Seq<TimeSeriesMetadata>) -> bool {
    exists|list: Seq<JsonTree>| #[trigger]
        rendered_text(JsonTree::List(list)) == text && list.len() == rows.len() && forall|k: int|
            0 <= k < rows.len() ==> (#[trigger] list[k] matches JsonTree::Object(o) && shows_row(
                o,
                rows[k],
            ))
}

/// A list of catalog rows shows each of them, in their order, every field under its own name.
pub proof fn lists_show_every_row(rows: Vec<TimeSeriesMetadata>, r: String)
    requires
        call_ensures(metadata_rows_to_json, (&rows,), r),
    ensures
        lists_rows(r@, rows@),
{
    let list = metadata_list(rows@)->List_0;
    assert forall|k: int| 0 <= k < rows@.len() implies (#[trigger] list[k] matches JsonTree::Object(
        o,
    ) && shows_row(o, rows@[k])) by {
        rows_are_shown(rows@[k]);
    }
    assert(rendered_text(JsonTree::List(list)) == r@);
}

/// Whether an object shows a grid: every field under its own name.
pub open spec fn shows_grid(o: Map<Seq<char>, JsonTree>, g: StaticGrid) -> bool {
    &&& shows_text(o, "resolution"@, Some(g.resolution.iso@))
    &&& shows_number(o, "initial_timestamp_ms"@, Some(g.initial_timestamp as int))
    &&& shows_number(o, "length"@, Some(g.length as int))
}

/// Every grid is shown, in order, every field under its own name.
pub proof fn grids_are_shown(rows: Vec<StaticGrid>, r: String)
    requires
        call_ensures(grids_json, (&rows,), r),
    ensures
        exists|list: Seq<JsonTree>| #[trigger]
            rendered_text(JsonTree::List(list)) == r@ && list.len() == rows@.len() && forall|k: int|
                0 <= k < rows@.len() ==> (#[trigger] list[k] matches JsonTree::Object(o)
                    && shows_grid(o, rows@[k])),
{
    let list = grid_list(rows@)->List_0;
    assert forall|k: int| 0 <= k < rows@.len() implies (#[trigger] list[k] matches JsonTree::Object(
        o,
    ) && shows_grid(o, rows@[k])) by {
        member_names();
        let o = grid_members(rows@[k]);
        assert(list[k] == JsonTree::Object(o));
    }
    assert(rendered_text(JsonTree::List(list)) == r@);
}

/// Whether an object shows the count of a type: every field under its own name.
pub open spec fn shows_type_count(o: Map<Seq<char>, JsonTree>, g: TypeCount) -> bool {
    &&& shows_text(o, "time_series_type"@, Some(g.time_series_type.spelling()))
    &&& shows_number(o, "count"@, Some(g.count as int))
}

/// Every count of a type is shown, in order, every field under its own name.
pub proof fn type_counts_are_shown(rows: Vec<TypeCount>, r: String)
    requires
        call_ensures(counts_by_type_json, (&rows,), r),
    ensures
        exists|list: Seq<JsonTree>| #[trigger]
            rendered_text(JsonTree::List(list)) == r@ && list.len() == rows@.len() && forall|k: int|
                0 <= k < rows@.len() ==> (#[trigger] list[k] matches JsonTree::Object(o)
                    && shows_type_count(o, rows@[k])),
{
    let list = type_count_list(rows@)->List_0;
    assert forall|k: int| 0 <= k < rows@.len() implies (#[trigger] list[k] matches JsonTree::Object(
        o,
    ) && shows_type_count(o, rows@[k])) by {
        member_names();
        let o = type_count_members(rows@[k]);
        assert(list[k] == JsonTree::Object(o));
    }
    assert(rendered_text(JsonTree::List(list)) == r@);
}

/// Whether an object shows the count of an attribute type: every field under its own name.
pub open spec fn shows_attribute_count(o: Map<Seq<char>, JsonTree>, g: AttributeCount) -> bool {
    &&& shows_text(o, "type"@, Some(g.attribute_type@))
    &&& shows_number(o, "count"@, Some(g.count as int))
}

/// Every count of an attribute type is shown, in order, every field under its own name.
pub proof fn attribute_counts_are_shown(rows: Vec<AttributeCount>, r: String)
    requires
        call_ensures(attribute_counts_json, (&rows,), r),
    ensures
        exists|list: Seq<JsonTree>| #[trigger]
            rendered_text(JsonTree::List(list)) == r@ && list.len() == rows@.len() && forall|k: int|
                0 <= k < rows@.len() ==> (#[trigger] list[k] matches JsonTree::Object(o)
                    && shows_attribute_count(o, rows@[k])),
{
    let list = attribute_count_list(rows@)->List_0;
    assert forall|k: int| 0 <= k < rows@.len() implies (#[trigger] list[k] matches JsonTree::Object(
        o,
    ) && shows_attribute_count(o, rows@[k])) by {
        member_names();
        let o = attribute_count_members(rows@[k]);
        assert(list[k] == JsonTree::Object(o));
    }
    assert(rendered_text(JsonTree::List(list)) == r@);
}

/// Whether an object shows a group of static series: every field under its own name.
pub open spec fn shows_static_group(o: Map<Seq<char>, JsonTree>, g: StaticSummary) -> bool {
    &&& shows_text(o, "owner_type"@, Some(g.owner_type@))
    &&& shows_text(o, "owner_category"@, Some(g.owner_category.spelling()))
    &&& shows_text(o, "time_series_type"@, Some(g.time_series_type.spelling()))
    &&& shows_text(o, "name"@, Some(g.name@))
    &&& shows_number(o, "initial_timestamp_ms"@, match g.initial_timestamp {
        Some(n) => Some(n as int),
        None => None,
    })
    &&& shows_period(o, "resolution"@, g.resolution)
    &&& shows_number(o, "time_step_count"@, match g.time_step_count {
        Some(n) => Some(n as int),
        None => None,
    })
    &&& shows_number(o, "count"@, Some(g.count as int))
}

/// Every group of static series is shown, in order, every field under its own name.
pub proof fn static_groups_are_shown(rows: Vec<StaticSummary>, r: String)
    requires
        call_ensures(static_summary_json, (&rows,), r),
    ensures
        exists|list: Seq<JsonTree>| #[trigger]
            rendered_text(JsonTree::List(list)) == r@ && list.len() == rows@.len() && forall|k: int|
                0 <= k < rows@.len() ==> (#[trigger] list[k] matches JsonTree::Object(o)
                    && shows_static_group(o, rows@[k])),
{
    let list = static_summary_list(rows@)->List_0;
    assert forall|k: int| 0 <= k < rows@.len() implies (#[trigger] list[k] matches JsonTree::Object(
        o,
    ) && shows_static_group(o, rows@[k])) by {
        member_names();
        let o = static_summary_members(rows@[k]);
        assert(list[k] == JsonTree::Object(o));
    }
    assert(rendered_text(JsonTree::List(list)) == r@);
}

/// Whether an object shows a group of forecasts: every field under its own name.
pub open spec fn shows_forecast_group(o: Map<Seq<char>, JsonTree>, g: ForecastSummary) -> bool {
    &&& shows_text(o, "owner_type"@, Some(g.owner_type@))
    &&& shows_text(o, "owner_category"@, Some(g.owner_category.spelling()))
    &&& shows_text(o, "time_series_type"@, Some(g.time_series_type.spelling()))
    &&& shows_text(o, "name"@, Some(g.name@))
    &&& shows_number(o, "initial_timestamp_ms"@, match g.initial_timestamp {
        Some(n) => Some(n as int),
        None => None,
    })
    &&& shows_period(o, "resolution"@, g.resolution)
    &&& shows_period(o, "horizon"@, g.horizon)
    &&& shows_period(o, "interval"@, g.interval)
    &&& shows_number(o, "window_count"@, match g.window_count {
        Some(n) => Some(n as int),
        None => None,
    })
    &&& shows_number(o, "count"@, Some(g.count as int))
}

/// Every group of forecasts is shown, in order, every field under its own name.
pub proof fn forecast_groups_are_shown(rows: Vec<ForecastSummary>, r: String)
    requires
        call_ensures(forecast_summary_json, (&rows,), r),
    ensures
        exists|list: Seq<JsonTree>| #[trigger]
            rendered_text(JsonTree::List(list)) == r@ && list.len() == rows@.len() && forall|k: int|
                0 <= k < rows@.len() ==> (#[trigger] list[k] matches JsonTree::Object(o)
                    && shows_forecast_group(o, rows@[k])),
{
    let list = forecast_summary_list(rows@)->List_0;
    assert forall|k: int| 0 <= k < rows@.len() implies (#[trigger] list[k] matches JsonTree::Object(
        o,
    ) && shows_forecast_group(o, rows@[k])) by {
        member_names();
        let o = forecast_summary_members(rows@[k]);
        assert(list[k] == JsonTree::Object(o));
    }
    assert(rendered_text(JsonTree::List(list)) == r@);
}

/// A compaction's report shows each number under its own name.
pub proof fn compactions_are_shown(c: CompactReport, r: String)
    requires
        call_ensures(compact_json, (&c,), r),
    ensures
        exists|o: Map<Seq<char>, JsonTree>| #[trigger]
            rendered_text(JsonTree::Object(o)) == r@ && {
                &&& shows_number(o, "slots_reclaimed"@, Some(c.slots_reclaimed as int))
                &&& shows_number(o, "datasets_dropped"@, Some(c.datasets_dropped as int))
                &&& shows_number(o, "feature_sets_reclaimed"@, Some(c.feature_sets_reclaimed as int))
                &&& shows_number(
                    o,
                    "timestamp_sets_reclaimed"@,
                    Some(c.timestamp_sets_reclaimed as int),
                )
                &&& shows_number(o, "bytes_reclaimed"@, Some(c.bytes_reclaimed as int))
            },
{
    member_names();
    let o = compact_members(c);
    assert(rendered_text(JsonTree::Object(o)) == r@);
}

/// Lists of periods, texts and ids show as many as there are, in their order.
pub proof fn plain_lists_are_shown(
    periods: Vec<Period>,
    of_periods: String,
    texts: Vec<String>,
    of_texts: String,
    ids: Vec<i64>,
    of_ids: String,
)
    requires
        call_ensures(periods_json, (&periods,), of_periods),
        call_ensures(texts_json, (&texts,), of_texts),
        call_ensures(ids_json, (&ids,), of_ids),
    ensures
        exists|list: Seq<JsonTree>| #[trigger]
            rendered_text(JsonTree::List(list)) == of_periods@ && list.len() == periods@.len()
                && forall|k: int|
                0 <= k < list.len() ==> #[trigger] list[k] == JsonTree::Text(periods@[k].iso@),
        exists|list: Seq<JsonTree>| #[trigger]
            rendered_text(JsonTree::List(list)) == of_texts@ && list.len() == texts@.len()
                && forall|k: int|
                0 <= k < list.len() ==> #[trigger] list[k] == JsonTree::Text(texts@[k]@),
        exists|list: Seq<JsonTree>| #[trigger]
            rendered_text(JsonTree::List(list)) == of_ids@ && list.len() == ids@.len() && forall|
                k: int,
            |
                0 <= k < list.len() ==> #[trigger] list[k] == JsonTree::Number(
                    JsonNumber::Integer(ids@[k] as int),
                ),
{
    assert(rendered_text(JsonTree::List(period_list(periods@)->List_0)) == of_periods@);
    assert(rendered_text(JsonTree::List(text_list(texts@)->List_0)) == of_texts@);
    assert(rendered_text(JsonTree::List(id_list(ids@)->List_0)) == of_ids@);
}

} // verus!
