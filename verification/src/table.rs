//! A partition's two schemas, its footer, and the array key that joins them.
//!
//! A partition is a values file holding every distinct array once, one row per value, and a
//! series file holding one catalog row per series naming the array it reads. Both are keyed by
//! the array key and sorted by it, which is what lets a reader walk them as a merge join.
use crate::array::{product, ArrayView, TypedArray};
use crate::footer::{entry, Footer};
use crate::instant::{instant, is_instant, rfc3339_text};
use crate::kinds::{
    is_composite, reference_view, Dtype, ElementType, TimeReference, TimeReferenceView,
    TimeSeriesType,
};
use crate::partition::{copy_sizes, KindView, PartitionKey, PartitionView, ValueKind};
use crate::schema;
use crate::schema::{encode_element_shape, sizes_json_text};
use crate::series::{opt_text, AxisView, GridView, ForecastGrid, TimeAxis};
use crate::text::{
    before, before_irreflexive, before_total, before_transitive, decimal, decimal_text, same_text,
    text_less,
};
use vstd::prelude::*;

verus! {

/// When a value is for.
pub const TIMESTAMP: &'static str = "timestamp";

/// When a forecast's window was issued.
pub const ISSUE_TIME: &'static str = "issue_time";

/// The lane of a probabilistic forecast.
pub const PERCENTILE: &'static str = "percentile";

/// The lane of a scenarios forecast, from zero on.
pub const SCENARIO: &'static str = "scenario";

/// The value.
pub const VALUE: &'static str = "value";

/// Half the array key: the content hash of the array, in hexadecimal.
pub const DATA_HASH: &'static str = "data_hash";

/// The other half: what determines the timestamps a value row sits at.
pub const TIME_AXIS: &'static str = "time_axis";

/// The footer key that marks a file as this format, and says which version of it.
pub const FORMAT: &'static str = "infrastore.format";

/// The version this build reads and writes.
pub const FORMAT_V1: &'static str = "normalized_v1";

/// The footer key that says which half of a partition a file is.
pub const ROLE: &'static str = "infrastore.role";

/// The values half.
pub const ROLE_VALUES: &'static str = "values";

/// The series half.
pub const ROLE_SERIES: &'static str = "series";

/// The footer key asserting that rows are contiguous per array key.
pub const ROWS_CONTIGUOUS: &'static str = "rows_contiguous_by_key";

/// Rows per row group in the values file: groups are cut at array boundaries where they can be.
pub const ROW_GROUP_TARGET: usize = 1_000_000;

// ---- The array key ----------------------------------------------------------------------

/// The identity of one stored array within a partition. Both halves are needed: the hash
/// covers the array's bytes and not its time axis.
#[derive(Clone, Debug, PartialEq, Eq, PartialOrd, Ord, Hash)]
pub struct ArrayKey {
    pub data_hash: String,
    pub time_axis: String,
}

/// An [`ArrayKey`], with its texts as characters.
pub struct ArrayKeyView {
    pub data_hash: Seq<char>,
    pub time_axis: Seq<char>,
}

impl View for ArrayKey {
    type V = ArrayKeyView;

    open spec fn view(&self) -> ArrayKeyView {
        ArrayKeyView { data_hash: self.data_hash@, time_axis: self.time_axis@ }
    }
}

/// The order of two array keys: by hash, then by axis.
pub open spec fn key_before(a: ArrayKeyView, b: ArrayKeyView) -> bool {
    before(a.data_hash, b.data_hash) || (a.data_hash == b.data_hash && before(
        a.time_axis,
        b.time_axis,
    ))
}

/// The order of array keys is a strict total order.
pub proof fn key_order(a: ArrayKeyView, b: ArrayKeyView, c: ArrayKeyView)
    ensures
        !key_before(a, a),
        a != b ==> key_before(a, b) || key_before(b, a),
        key_before(a, b) ==> !key_before(b, a),
        key_before(a, b) && key_before(b, c) ==> key_before(a, c),
{
    before_irreflexive(a.data_hash);
    before_irreflexive(a.time_axis);
    if a.data_hash != b.data_hash {
        before_total(a.data_hash, b.data_hash);
    } else if a.time_axis != b.time_axis {
        before_total(a.time_axis, b.time_axis);
    }
    if before(a.data_hash, b.data_hash) && before(b.data_hash, a.data_hash) {
        before_transitive(a.data_hash, b.data_hash, a.data_hash);
    }
    if before(a.time_axis, b.time_axis) && before(b.time_axis, a.time_axis) {
        before_transitive(a.time_axis, b.time_axis, a.time_axis);
    }
    if before(a.data_hash, b.data_hash) && before(b.data_hash, c.data_hash) {
        before_transitive(a.data_hash, b.data_hash, c.data_hash);
    }
    if before(a.time_axis, b.time_axis) && before(b.time_axis, c.time_axis) {
        before_transitive(a.time_axis, b.time_axis, c.time_axis);
    }
}

impl ArrayKey {
    /// Whether this key comes before another.
    pub fn less(&self, other: &ArrayKey) -> (r: bool)
        ensures
            r == key_before(self@, other@),
    {
        text_less(self.data_hash.as_str(), other.data_hash.as_str()) || (same_text(
            self.data_hash.as_str(),
            other.data_hash.as_str(),
        ) && text_less(self.time_axis.as_str(), other.time_axis.as_str()))
    }

    /// Whether two keys are the same.
    pub fn same(&self, other: &ArrayKey) -> (r: bool)
        ensures
            r == (self@ == other@),
    {
        same_text(self.data_hash.as_str(), other.data_hash.as_str()) && same_text(
            self.time_axis.as_str(),
            other.time_axis.as_str(),
        )
    }

    /// The same key again.
    pub fn copied(&self) -> (r: ArrayKey)
        ensures
            r == *self,
            r@ == self@,
    {
        ArrayKey { data_hash: self.data_hash.clone(), time_axis: self.time_axis.clone() }
    }
}

/// What decides where a series' values sit in time, as one text: an ISO-8601 repeating
/// interval for a regular series, the hash of the timestamps for an irregular one, and for a
/// forecast its windows with the horizon and the step of each.
pub open spec fn time_axis_text(axis: AxisView, timestamps_hash: Seq<char>) -> Seq<char> {
    match axis {
        AxisView::SingleTimeSeries { initial_timestamp, resolution, length } => "R"@
            + decimal_text(length) + "/"@ + rfc3339_text(initial_timestamp) + "/"@
            + resolution.iso,
        AxisView::NonSequentialTimeSeries { .. } => timestamps_hash,
        AxisView::PersistentTimeSeries { .. } => timestamps_hash,
        AxisView::Deterministic { grid } => forecast_axis_text(grid),
        AxisView::Probabilistic { grid, .. } => forecast_axis_text(grid),
        AxisView::Scenarios { grid, .. } => forecast_axis_text(grid),
    }
}

/// A forecast's windows, with the horizon and the step of each.
pub open spec fn forecast_axis_text(grid: GridView) -> Seq<char> {
    "R"@ + decimal_text(grid.count) + "/"@ + rfc3339_text(grid.initial_timestamp) + "/"@
        + grid.interval.iso + "/"@ + grid.horizon.iso + "/"@ + grid.resolution.iso
}

/// Whether the instants a time axis spells out are on the calendar.
pub open spec fn spellable(axis: AxisView) -> bool {
    match axis {
        AxisView::SingleTimeSeries { initial_timestamp, .. } => is_instant(
            initial_timestamp as int,
        ),
        AxisView::Deterministic { grid } => is_instant(grid.initial_timestamp as int),
        AxisView::Probabilistic { grid, .. } => is_instant(grid.initial_timestamp as int),
        AxisView::Scenarios { grid, .. } => is_instant(grid.initial_timestamp as int),
        _ => true,
    }
}

fn forecast_axis(grid: &ForecastGrid) -> (r: String)
    requires
        is_instant(grid.initial_timestamp as int),
    ensures
        r@ == forecast_axis_text(grid@),
{
    let mut out = "R".to_string();
    out.append(decimal(grid.count as u64).as_str());
    out.append("/");
    out.append(instant(grid.initial_timestamp).as_str());
    out.append("/");
    out.append(grid.interval.iso.as_str());
    out.append("/");
    out.append(grid.horizon.iso.as_str());
    out.append("/");
    out.append(grid.resolution.iso.as_str());
    out
}

/// What decides where a series' values sit in time, as one text. Read off the values being
/// exported and not off the catalog row, since a slice has an anchor and a length of its own.
/// `timestamps_hash` is the hash of an irregular series' timestamps, in hexadecimal.
pub fn time_axis_of(axis: &TimeAxis, timestamps_hash: &str) -> (r: String)
    requires
        spellable(axis@),
    ensures
        r@ == time_axis_text(axis@, timestamps_hash@),
{
    match axis {
        TimeAxis::SingleTimeSeries { initial_timestamp, resolution, length } => {
            let mut out = "R".to_string();
            out.append(decimal(*length as u64).as_str());
            out.append("/");
            out.append(instant(*initial_timestamp).as_str());
            out.append("/");
            out.append(resolution.iso.as_str());
            out
        },
        TimeAxis::NonSequentialTimeSeries { .. } => timestamps_hash.to_string(),
        TimeAxis::PersistentTimeSeries { .. } => timestamps_hash.to_string(),
        TimeAxis::Deterministic { grid } => forecast_axis(grid),
        TimeAxis::Probabilistic { grid, .. } => forecast_axis(grid),
        TimeAxis::Scenarios { grid, .. } => forecast_axis(grid),
    }
}

/// Where a series' own grid columns come from: its values. Nothing for an irregular series,
/// which has neither an anchor nor a count.
#[derive(Clone, Copy, Debug, PartialEq, Eq, Structural)]
pub struct Grid {
    pub initial_timestamp: Option<i64>,
    /// The length of a regular series, or how many windows a forecast has.
    pub count: Option<usize>,
}

/// The grid a series' own values describe.
pub fn grid_of(axis: &TimeAxis) -> (r: Grid)
    ensures
        match axis@ {
            AxisView::SingleTimeSeries { initial_timestamp, length, .. } => r.initial_timestamp
                == Some(initial_timestamp) && r.count is Some && r.count->0 == length,
            AxisView::NonSequentialTimeSeries { .. } => r.initial_timestamp is None
                && r.count is None,
            AxisView::PersistentTimeSeries { .. } => r.initial_timestamp is None && r.count is None,
            _ => ({
                let grid = crate::rows::grid_of_axis(axis@);
                r.initial_timestamp == Some(grid.initial_timestamp) && r.count is Some && r.count->0
                    == grid.count
            }),
        },
{
    match axis {
        TimeAxis::SingleTimeSeries { initial_timestamp, length, .. } => Grid {
            initial_timestamp: Some(*initial_timestamp),
            count: Some(*length),
        },
        TimeAxis::NonSequentialTimeSeries { .. } => Grid { initial_timestamp: None, count: None },
        TimeAxis::PersistentTimeSeries { .. } => Grid { initial_timestamp: None, count: None },
        TimeAxis::Deterministic { grid } => Grid {
            initial_timestamp: Some(grid.initial_timestamp),
            count: Some(grid.count),
        },
        TimeAxis::Probabilistic { grid, .. } => Grid {
            initial_timestamp: Some(grid.initial_timestamp),
            count: Some(grid.count),
        },
        TimeAxis::Scenarios { grid, .. } => Grid {
            initial_timestamp: Some(grid.initial_timestamp),
            count: Some(grid.count),
        },
    }
}

// ---- Column types -----------------------------------------------------------------------

/// The type of a column.
#[derive(Debug)]
pub enum ColumnType {
    Text,
    Primitive(Dtype),
    /// Milliseconds, in a zone or in none.
    Timestamp { zone: Option<String> },
    /// So many items of one type in each row, none of them null.
    FixedSizeList { item: Box<ColumnType>, size: i32 },
}

/// A [`ColumnType`], with its texts as characters.
pub enum ColumnTypeView {
    Text,
    Primitive(Dtype),
    Timestamp(Option<Seq<char>>),
    FixedSizeList(Box<ColumnTypeView>, int),
}

impl ColumnType {
    pub open spec fn shape(self) -> ColumnTypeView
        decreases self,
    {
        match self {
            ColumnType::Text => ColumnTypeView::Text,
            ColumnType::Primitive(dtype) => ColumnTypeView::Primitive(dtype),
            ColumnType::Timestamp { zone } => ColumnTypeView::Timestamp(opt_text(zone)),
            ColumnType::FixedSizeList { item, size } => ColumnTypeView::FixedSizeList(
                Box::new(item.shape()),
                size as int,
            ),
        }
    }
}

/// The zone of a partition's time columns: UTC for a series that records no spelling, too,
/// because a column has no third spelling.
pub open spec fn zone_of(reference: Option<TimeReferenceView>) -> Option<Seq<char>> {
    match reference {
        None => Some("UTC"@),
        Some(TimeReferenceView::Utc) => Some("UTC"@),
        Some(TimeReferenceView::Zoneless) => None,
        Some(r) => Some(r.storage_text()),
    }
}

/// The zone of a partition's time columns.
pub fn column_zone(reference: &Option<TimeReference>) -> (r: Option<String>)
    ensures
        opt_text(r) == zone_of(reference_view(*reference)),
{
    match reference {
        None => Some("UTC".to_string()),
        Some(TimeReference::Utc) => Some("UTC".to_string()),
        Some(TimeReference::Zoneless) => None,
        Some(r) => Some(r.as_storage_string()),
    }
}

/// The type of a partition's time columns.
pub fn timestamp_type(reference: &Option<TimeReference>) -> (r: ColumnType)
    ensures
        r.shape() == ColumnTypeView::Timestamp(zone_of(reference_view(*reference))),
{
    ColumnType::Timestamp { zone: column_zone(reference) }
}

/// The dimensions of one value of a kind, given the width a file of function data settled on.
pub open spec fn value_dims(kind: KindView, width: Option<usize>) -> Seq<usize> {
    match (kind, width) {
        (KindView::Dense(_, shape), _) => shape,
        (KindView::Tuple(arity, _), _) => seq![arity as usize],
        (KindView::Composite(_), Some(w)) => seq![w],
        (KindView::Composite(_), None) => seq![],
    }
}

/// Lists of lists of a leaf, outermost dimension first.
pub open spec fn nested(leaf: ColumnTypeView, dims: Seq<usize>) -> ColumnTypeView
    decreases dims.len(),
{
    if dims.len() == 0 {
        leaf
    } else {
        ColumnTypeView::FixedSizeList(Box::new(nested(leaf, dims.drop_first())), dims[0] as int)
    }
}

/// The last dimension no list can have, if there is one.
pub open spec fn oversized(dims: Seq<usize>) -> Option<usize>
    decreases dims.len(),
{
    if dims.len() == 0 {
        None
    } else if dims.last() > i32::MAX {
        Some(dims.last())
    } else {
        oversized(dims.drop_last())
    }
}

pub open spec fn missing_width_text() -> Seq<char> {
    "a composite partition needs the width its file settled on"@
}

pub open spec fn oversized_text(dim: usize) -> Seq<char> {
    "element dimension "@ + decimal_text(dim as nat) + " does not fit an i32"@
}

/// The type of the value column: lists over the element shape, around the leaf.
pub open spec fn value_type(kind: KindView, width: Option<usize>) -> Result<
    ColumnTypeView,
    Seq<char>,
> {
    if kind is Composite && width is None {
        Err(missing_width_text())
    } else {
        match oversized(value_dims(kind, width)) {
            Some(dim) => Err(oversized_text(dim)),
            None => Ok(nested(ColumnTypeView::Primitive(kind.leaf()), value_dims(kind, width))),
        }
    }
}

/// The dimensions of one value of a kind.
fn dims_of(kind: &ValueKind, width: Option<usize>) -> (r: Vec<usize>)
    ensures
        r@ == value_dims(kind@, width),
{
    match kind {
        ValueKind::Dense { shape, .. } => copy_sizes(shape),
        ValueKind::Tuple { arity, .. } => {
            let mut out: Vec<usize> = Vec::new();
            out.push(*arity);
            proof {
                assert(out@ =~= seq![*arity]);
            }
            out
        },
        ValueKind::Composite(_) => {
            let mut out: Vec<usize> = Vec::new();
            match width {
                Some(w) => {
                    out.push(w);
                    proof {
                        assert(out@ =~= seq![w]);
                    }
                },
                None => {},
            }
            out
        },
    }
}

/// The column type of one of the store's dtypes. Every one has its own.
pub fn arrow_dtype(dtype: Dtype) -> (r: ColumnType)
    ensures
        r.shape() == ColumnTypeView::Primitive(dtype),
{
    ColumnType::Primitive(dtype)
}

/// The type of the value column: one list per element dimension, innermost last, which is the
/// order the flat buffer is already in.
pub fn value_data_type(kind: &ValueKind, composite_width: Option<usize>) -> (r: Result<
    ColumnType,
    String,
>)
    ensures
        match (r, value_type(kind@, composite_width)) {
            (Ok(t), Ok(expected)) => t.shape() == expected,
            (Err(e), Err(text)) => e@ == text,
            _ => false,
        },
{
    if kind.is_composite() && composite_width.is_none() {
        return Err("a composite partition needs the width its file settled on".to_string());
    }
    let dims = dims_of(kind, composite_width);
    let ghost leaf = ColumnTypeView::Primitive(kind@.leaf());
    let mut ty = arrow_dtype(kind.leaf_dtype());
    let mut i: usize = dims.len();
    proof {
        assert(dims@.take(i as int) =~= dims@);
        assert(dims@.skip(i as int) =~= seq![]);
    }
    while i > 0
        invariant
            i <= dims.len(),
            dims@ == value_dims(kind@, composite_width),
            !(kind@ is Composite && composite_width is None),
            leaf == ColumnTypeView::Primitive(kind@.leaf()),
            oversized(dims@) == oversized(dims@.take(i as int)),
            ty.shape() == nested(leaf, dims@.skip(i as int)),
        decreases i,
    {
        let dim: usize = dims[i - 1];
        proof {
            assert(dims@.take(i as int).drop_last() =~= dims@.take(i - 1));
            assert(dims@.take(i as int).last() == dim);
            assert(dims@.skip(i - 1).drop_first() =~= dims@.skip(i as int));
            assert(dims@.skip(i - 1)[0] == dim);
        }
        if dim > 0x7fff_ffff {
            let mut e = "element dimension ".to_string();
            e.append(decimal(dim as u64).as_str());
            e.append(" does not fit an i32");
            return Err(e);
        }
        ty = ColumnType::FixedSizeList { item: Box::new(ty), size: dim as i32 };
        i -= 1;
    }
    proof {
        assert(dims@.take(0) =~= seq![]);
        assert(dims@.skip(0) =~= dims@);
    }
    Ok(ty)
}

// ---- Schemas ----------------------------------------------------------------------------

/// One column of a table. None of them holds a null.
#[derive(Debug)]
pub struct Column {
    pub name: &'static str,
    pub column_type: ColumnType,
    /// Whether a row may be null. No column that is written is: an absent text is the empty one.
    pub nullable: bool,
}

/// A [`Column`], with its name as characters.
pub struct ColumnView {
    pub name: Seq<char>,
    pub column_type: ColumnTypeView,
    pub nullable: bool,
}

/// The views of a list of columns.
pub open spec fn columns(list: Seq<Column>) -> Seq<ColumnView> {
    list.map_values(
        |c: Column|
            ColumnView {
                name: c.name@,
                column_type: c.column_type.shape(),
                nullable: c.nullable,
            },
    )
}

/// A text column.
pub open spec fn text_col(name: Seq<char>) -> ColumnView {
    ColumnView { name, column_type: ColumnTypeView::Text, nullable: false }
}

/// A column of 64-bit integers.
pub open spec fn int_col(name: Seq<char>) -> ColumnView {
    ColumnView { name, column_type: ColumnTypeView::Primitive(Dtype::I64), nullable: false }
}

/// A time column.
pub open spec fn time_col(name: Seq<char>, zone: Option<Seq<char>>) -> ColumnView {
    ColumnView { name, column_type: ColumnTypeView::Timestamp(zone), nullable: false }
}

/// The columns of a values file: the array key first, because that is what the rows are
/// sorted by, and then when the value is for, which lane it is on, and the value.
pub open spec fn values_columns(
    kind: TimeSeriesType,
    zone: Option<Seq<char>>,
    value: ColumnTypeView,
) -> Seq<ColumnView> {
    seq![text_col(DATA_HASH@), text_col(TIME_AXIS@), time_col(TIMESTAMP@, zone)] + (
    if kind.forecasts() {
        seq![time_col(ISSUE_TIME@, zone)]
    } else {
        seq![]
    }) + (match kind {
        TimeSeriesType::Probabilistic => seq![
            ColumnView {
                name: PERCENTILE@,
                column_type: ColumnTypeView::Primitive(Dtype::F64),
                nullable: false,
            },
        ],
        TimeSeriesType::Scenarios => seq![int_col(SCENARIO@)],
        _ => seq![],
    }) + seq![ColumnView { name: VALUE@, column_type: value, nullable: false }]
}

/// Whether a type's series have an anchor and a step.
pub open spec fn gridded(kind: TimeSeriesType) -> bool {
    kind == TimeSeriesType::SingleTimeSeries || kind.forecasts()
}

/// The columns of a series file: the array key, who owns the series and what it is called, the
/// grid its type has, and what describes its values.
pub open spec fn series_columns(kind: TimeSeriesType, zone: Option<Seq<char>>) -> Seq<ColumnView> {
    seq![
        text_col(DATA_HASH@),
        text_col(TIME_AXIS@),
        int_col(schema::ID@),
        int_col(schema::OWNER_ID@),
        text_col(schema::OWNER_TYPE@),
        text_col(schema::OWNER_CATEGORY@),
        text_col(schema::TIME_SERIES_TYPE@),
        text_col(schema::NAME@),
    ] + (if gridded(kind) {
        seq![time_col(schema::INITIAL_TIMESTAMP@, zone), text_col(schema::RESOLUTION@)]
    } else {
        seq![]
    }) + (if kind == TimeSeriesType::SingleTimeSeries {
        seq![int_col(schema::LENGTH@)]
    } else {
        seq![]
    }) + (if kind.forecasts() {
        seq![
            text_col(schema::INTERVAL@),
            text_col(schema::HORIZON@),
            int_col(schema::COUNT@),
        ]
    } else {
        seq![]
    }) + seq![
        text_col(schema::FEATURES@),
        text_col(schema::ELEMENT_TYPE@),
        text_col(schema::ELEMENT_SHAPE@),
        text_col(schema::TIME_REFERENCE@),
        text_col(schema::UNITS@),
        text_col(schema::QUANTITY_KIND@),
        text_col(schema::UNIT_SYSTEM@),
        text_col(schema::COMPONENT_FIELD@),
        text_col(schema::APPLICATION_DATA@),
    ]
}

fn push_column(list: &mut Vec<Column>, name: &'static str, column_type: ColumnType)
    ensures
        columns(final(list)@) == columns(old(list)@).push(
            ColumnView { name: name@, column_type: column_type.shape(), nullable: false },
        ),
{
    let ghost was = list@;
    list.push(Column { name, column_type, nullable: false });
    proof {
        assert(columns(list@) =~= columns(was).push(
            ColumnView { name: name@, column_type: column_type.shape(), nullable: false },
        ));
    }
}

fn values_column_list(kind: TimeSeriesType, reference: &Option<TimeReference>, value: ColumnType) -> (r:
    Vec<Column>)
    ensures
        columns(r@) == values_columns(kind, zone_of(reference_view(*reference)), value.shape()),
{
    let mut list: Vec<Column> = Vec::new();
    push_column(&mut list, DATA_HASH, ColumnType::Text);
    push_column(&mut list, TIME_AXIS, ColumnType::Text);
    push_column(&mut list, TIMESTAMP, timestamp_type(reference));
    if kind.is_forecast() {
        push_column(&mut list, ISSUE_TIME, timestamp_type(reference));
    }
    match kind {
        TimeSeriesType::Probabilistic => {
            push_column(&mut list, PERCENTILE, ColumnType::Primitive(Dtype::F64));
        },
        TimeSeriesType::Scenarios => {
            push_column(&mut list, SCENARIO, ColumnType::Primitive(Dtype::I64));
        },
        _ => {},
    }
    let ghost shape = value.shape();
    push_column(&mut list, VALUE, value);
    proof {
        assert(columns(list@) =~= values_columns(
            kind,
            zone_of(reference_view(*reference)),
            shape,
        ));
    }
    list
}

fn series_column_list(kind: TimeSeriesType, reference: &Option<TimeReference>) -> (r: Vec<Column>)
    ensures
        columns(r@) == series_columns(kind, zone_of(reference_view(*reference))),
{
    let mut list: Vec<Column> = Vec::new();
    push_column(&mut list, DATA_HASH, ColumnType::Text);
    push_column(&mut list, TIME_AXIS, ColumnType::Text);
    push_column(&mut list, schema::ID, ColumnType::Primitive(Dtype::I64));
    push_column(&mut list, schema::OWNER_ID, ColumnType::Primitive(Dtype::I64));
    push_column(&mut list, schema::OWNER_TYPE, ColumnType::Text);
    push_column(&mut list, schema::OWNER_CATEGORY, ColumnType::Text);
    push_column(&mut list, schema::TIME_SERIES_TYPE, ColumnType::Text);
    push_column(&mut list, schema::NAME, ColumnType::Text);
    if kind == TimeSeriesType::SingleTimeSeries || kind.is_forecast() {
        push_column(&mut list, schema::INITIAL_TIMESTAMP, timestamp_type(reference));
        push_column(&mut list, schema::RESOLUTION, ColumnType::Text);
    }
    if kind == TimeSeriesType::SingleTimeSeries {
        push_column(&mut list, schema::LENGTH, ColumnType::Primitive(Dtype::I64));
    }
    if kind.is_forecast() {
        push_column(&mut list, schema::INTERVAL, ColumnType::Text);
        push_column(&mut list, schema::HORIZON, ColumnType::Text);
        push_column(&mut list, schema::COUNT, ColumnType::Primitive(Dtype::I64));
    }
    push_column(&mut list, schema::FEATURES, ColumnType::Text);
    push_column(&mut list, schema::ELEMENT_TYPE, ColumnType::Text);
    push_column(&mut list, schema::ELEMENT_SHAPE, ColumnType::Text);
    push_column(&mut list, schema::TIME_REFERENCE, ColumnType::Text);
    push_column(&mut list, schema::UNITS, ColumnType::Text);
    push_column(&mut list, schema::QUANTITY_KIND, ColumnType::Text);
    push_column(&mut list, schema::UNIT_SYSTEM, ColumnType::Text);
    push_column(&mut list, schema::COMPONENT_FIELD, ColumnType::Text);
    push_column(&mut list, schema::APPLICATION_DATA, ColumnType::Text);
    proof {
        assert(columns(list@) =~= series_columns(kind, zone_of(reference_view(*reference))));
    }
    list
}

/// How a reference is written in its column and in the footer.
pub open spec fn literal_of(reference: Option<TimeReferenceView>) -> Seq<char> {
    match reference {
        None => schema::UNSPECIFIED_REFERENCE@,
        Some(r) => r.storage_text(),
    }
}

/// How a reference is written in its column and in the footer: its storage text, or the literal
/// that says there is none.
pub fn reference_literal(reference: &Option<TimeReference>) -> (r: String)
    ensures
        r@ == literal_of(reference_view(*reference)),
{
    match reference {
        None => schema::UNSPECIFIED_REFERENCE.to_string(),
        Some(r) => r.as_storage_string(),
    }
}

/// The footer of one half of a partition: the partition's key, exactly, and what the import
/// depends on. Exact because a file name is not.
pub open spec fn footer_of(key: PartitionView, width: Option<usize>, role: Seq<char>) -> Map<
    Seq<char>,
    Seq<char>,
> {
    Map::<Seq<char>, Seq<char>>::empty()
        .insert(FORMAT@, FORMAT_V1@)
        .insert(ROLE@, role)
        .insert(ROWS_CONTIGUOUS@, "true"@)
        .insert(schema::TIME_SERIES_TYPE@, key.kind.spelling())
        .insert(schema::ELEMENT_TYPE@, key.value.element_type().spelling())
        .insert(schema::ELEMENT_SHAPE@, sizes_json_text(value_dims(key.value, width)))
        .insert(schema::TIME_REFERENCE@, literal_of(key.reference))
}

/// The footer of one half of a partition.
pub fn footer(key: &PartitionKey, composite_width: Option<usize>, role: &str) -> (r: Footer)
    ensures
        r@ == footer_of(key@, composite_width, role@),
{
    let mut out = Footer::new();
    out.set(FORMAT, FORMAT_V1.to_string());
    out.set(ROLE, role.to_string());
    out.set(ROWS_CONTIGUOUS, "true".to_string());
    out.set(schema::TIME_SERIES_TYPE, key.time_series_type.as_str().to_string());
    out.set(schema::ELEMENT_TYPE, key.value_kind.element_type().spelled());
    out.set(
        schema::ELEMENT_SHAPE,
        encode_element_shape(&dims_of(&key.value_kind, composite_width)),
    );
    out.set(schema::TIME_REFERENCE, reference_literal(&key.time_reference));
    out
}

/// One table: its columns, and its footer.
#[derive(Debug)]
pub struct TableSchema {
    pub columns: Vec<Column>,
    pub footer: Footer,
}

/// The two tables one partition writes, plus what the partition settled on.
#[derive(Debug)]
pub struct PartitionSchema {
    pub key: PartitionKey,
    /// The width every row of function data in this partition is padded to; nothing for the
    /// other kinds, whose width the kind itself fixes.
    pub composite_width: Option<usize>,
    pub values: TableSchema,
    pub series: TableSchema,
}

impl PartitionSchema {
    /// Both tables of a partition. The width is the widest stored width among its series, and
    /// is needed exactly when the kind is function data.
    pub fn new(key: PartitionKey, composite_width: Option<usize>) -> (r: Result<
        PartitionSchema,
        String,
    >)
        ensures
            match (r, value_type(key@.value, composite_width)) {
                (Ok(table), Ok(value)) => {
                    &&& table.key == key
                    &&& table.composite_width == composite_width
                    &&& columns(table.values.columns@) == values_columns(
                        key@.kind,
                        zone_of(key@.reference),
                        value,
                    )
                    &&& columns(table.series.columns@) == series_columns(
                        key@.kind,
                        zone_of(key@.reference),
                    )
                    &&& table.values.footer@ == footer_of(key@, composite_width, ROLE_VALUES@)
                    &&& table.series.footer@ == footer_of(key@, composite_width, ROLE_SERIES@)
                },
                (Err(e), Err(text)) => e@ == text,
                _ => false,
            },
    {
        let value = match value_data_type(&key.value_kind, composite_width) {
            Ok(value) => value,
            Err(e) => {
                return Err(e);
            },
        };
        let values = TableSchema {
            columns: values_column_list(key.time_series_type, &key.time_reference, value),
            footer: footer(&key, composite_width, ROLE_VALUES),
        };
        let series = TableSchema {
            columns: series_column_list(key.time_series_type, &key.time_reference),
            footer: footer(&key, composite_width, ROLE_SERIES),
        };
        Ok(PartitionSchema { key, composite_width, values, series })
    }

    /// How many elements one row of the value column holds.
    pub open spec fn width(self) -> nat {
        match (self.key@.value, self.composite_width) {
            (KindView::Composite(_), Some(w)) => w as nat,
            (KindView::Composite(_), None) => 1,
            (KindView::Tuple(arity, _), _) => arity,
            (KindView::Dense(_, shape), _) => crate::array::width_of(shape),
        }
    }

    /// How many elements one row of the value column holds.
    pub fn element_width(&self) -> (r: usize)
        requires
            self.key@.value matches KindView::Dense(_, shape) ==> product(shape) <= usize::MAX,
        ensures
            r == self.width(),
    {
        match (&self.key.value_kind, self.composite_width) {
            (ValueKind::Composite(_), Some(w)) => w,
            (ValueKind::Composite(_), None) => 1,
            (ValueKind::Tuple { arity, .. }, _) => *arity,
            (ValueKind::Dense { shape, .. }, _) => match crate::array::element_count(shape) {
                Some(n) => {
                    if n == 0 {
                        1
                    } else {
                        n
                    }
                },
                None => {
                    proof {
                        assert(false);
                    }
                    1
                },
            },
        }
    }

    /// The shape of one row of the value column.
    pub fn element_shape(&self) -> (r: Vec<usize>)
        ensures
            r@ == value_dims(self.key@.value, self.composite_width),
    {
        dims_of(&self.key.value_kind, self.composite_width)
    }
}

// ---- Canonical arrays -----------------------------------------------------------------------

/// The array whose hash is written: the stored one, or for function data its re-encoding at
/// the least width that holds its points, where there is anything to re-encode.
pub open spec fn canonical(
    array: ArrayView,
    composite: bool,
    reencoded: Result<Option<ArrayView>, Seq<char>>,
) -> Result<ArrayView, Seq<char>> {
    if !composite {
        Ok(array)
    } else {
        match reencoded {
            Err(e) => Err(e),
            Ok(None) => Ok(array),
            Ok(Some(shrunk)) => Ok(shrunk),
        }
    }
}

/// What the store made of re-encoding an array.
pub open spec fn reencoding(r: Result<Option<TypedArray>, String>) -> Result<
    Option<ArrayView>,
    Seq<char>,
> {
    match r {
        Err(e) => Err(e@),
        Ok(None) => Ok(None),
        Ok(Some(a)) => Ok(Some(a@)),
    }
}

/// The array whose hash is written. A file re-pads function data to its widest series, so the
/// stored bytes are not stable across a round trip and the points are.
///
/// `reencoded` is what the store makes of decoding the array and encoding it again: nothing
/// where its values are the stored elements already.
pub fn canonical_array(
    array: TypedArray,
    element_type: &ElementType,
    reencoded: Result<Option<TypedArray>, String>,
) -> (r: Result<TypedArray, String>)
    ensures
        match (r, canonical(array@, element_type@ is Composite, reencoding(reencoded))) {
            (Ok(a), Ok(expected)) => a@ == expected,
            (Err(e), Err(text)) => e@ == text,
            _ => false,
        },
{
    if !is_composite(element_type) {
        return Ok(array);
    }
    match reencoded {
        Err(e) => Err(e),
        Ok(None) => Ok(array),
        Ok(Some(shrunk)) => Ok(shrunk),
    }
}

// ---- What a file of this format must hold -------------------------------------------------

/// The footer keys in which a partition's two halves must agree.
pub open spec fn partition_keys() -> Seq<Seq<char>> {
    seq![
        schema::TIME_SERIES_TYPE@,
        schema::ELEMENT_TYPE@,
        schema::ELEMENT_SHAPE@,
        schema::TIME_REFERENCE@,
    ]
}

/// The names of columns.
pub open spec fn column_names(list: Seq<ColumnView>) -> Seq<Seq<char>> {
    list.map_values(|c: ColumnView| c.name)
}

/// The columns a half of a partition of this type must have: those it is written with.
pub open spec fn required_names(kind: TimeSeriesType, series_half: bool) -> Seq<Seq<char>> {
    if series_half {
        column_names(series_columns(kind, None))
    } else {
        column_names(values_columns(kind, None, ColumnTypeView::Text))
    }
}

/// The names of a list of static texts.
pub open spec fn names(list: Seq<&'static str>) -> Seq<Seq<char>> {
    list.map_values(|n: &'static str| n@)
}

/// The columns a half of a partition of this type must have.
pub fn required_columns(kind: TimeSeriesType, series_half: bool) -> (r: Vec<&'static str>)
    ensures
        names(r@) == required_names(kind, series_half),
{
    let reference: Option<TimeReference> = Some(TimeReference::Zoneless);
    let list = if series_half {
        series_column_list(kind, &reference)
    } else {
        values_column_list(kind, &reference, ColumnType::Text)
    };
    let mut out: Vec<&'static str> = Vec::new();
    let mut i: usize = 0;
    while i < list.len()
        invariant
            i <= list.len(),
            out@.len() == i,
            forall|j: int| 0 <= j < i ==> (#[trigger] out@[j])@ == list@[j].name@,
        decreases list.len() - i,
    {
        out.push(list[i].name);
        i += 1;
    }
    proof {
        assert(names(out@) =~= column_names(columns(list@)));
    }
    out
}

/// What a partition writes has every column its reader will ask for.
pub proof fn written_columns_suffice(kind: TimeSeriesType, zone: Option<Seq<char>>, value: ColumnTypeView)
    ensures
        column_names(values_columns(kind, zone, value)) == required_names(kind, false),
        column_names(series_columns(kind, zone)) == required_names(kind, true),
{
    assert(column_names(values_columns(kind, zone, value)) =~= required_names(kind, false));
    assert(column_names(series_columns(kind, zone)) =~= required_names(kind, true));
}

// ---- What stands in a partition's files ---------------------------------------------------------

/// The footer of a file says what the file holds, each under its own key: the format, which half
/// it is, the type, the element type, the shape of one value and the time reference.
pub proof fn footers_say_what_is_written(
    key: PartitionKey,
    width: Option<usize>,
    role: &str,
    r: Footer,
)
    requires
        call_ensures(footer, (&key, width, role), r),
    ensures
        entry(r@, FORMAT@) == Some(FORMAT_V1@),
        entry(r@, ROLE@) == Some(role@),
        entry(r@, ROWS_CONTIGUOUS@) == Some("true"@),
        entry(r@, schema::TIME_SERIES_TYPE@) == Some(key.time_series_type.spelling()),
        entry(r@, schema::ELEMENT_TYPE@) == Some(key@.value.element_type().spelling()),
        entry(r@, schema::ELEMENT_SHAPE@) == Some(sizes_json_text(value_dims(key@.value, width))),
        entry(r@, schema::TIME_REFERENCE@) == Some(
            match key.time_reference {
                Some(t) => t@.storage_text(),
                None => schema::UNSPECIFIED_REFERENCE@,
            },
        ),
{
    crate::halves::footer_names_apart();
    reveal_strlit("rows_contiguous_by_key");
    assert(ROWS_CONTIGUOUS@.len() == 22);
    reveal_strlit("time_series_type");
    reveal_strlit("element_type");
    reveal_strlit("element_shape");
    reveal_strlit("time_reference");
    assert(schema::TIME_SERIES_TYPE@.len() == 16);
    assert(schema::ELEMENT_TYPE@.len() == 12);
    assert(schema::ELEMENT_SHAPE@.len() == 13);
    assert(schema::TIME_REFERENCE@.len() == 14);
}

/// The two halves of a partition are written for one key: the values half says it is that half,
/// the series half says it is the other, and each has the columns of its half.
pub proof fn halves_are_written_for_one_key(
    key: PartitionKey,
    width: Option<usize>,
    r: Result<PartitionSchema, String>,
    of_values: Footer,
    of_series: Footer,
)
    requires
        call_ensures(PartitionSchema::new, (key, width), r),
        call_ensures(footer, (&key, width, ROLE_VALUES), of_values),
        call_ensures(footer, (&key, width, ROLE_SERIES), of_series),
        r is Ok,
    ensures
        r->Ok_0.key == key,
        r->Ok_0.composite_width == width,
        r->Ok_0.values.footer@ == of_values@,
        r->Ok_0.series.footer@ == of_series@,
        r->Ok_0.values.columns@.last().name@ == VALUE@,
        r->Ok_0.values.columns@[0].name@ == DATA_HASH@,
        r->Ok_0.values.columns@[1].name@ == TIME_AXIS@,
        r->Ok_0.series.columns@[0].name@ == DATA_HASH@,
        r->Ok_0.series.columns@[1].name@ == TIME_AXIS@,
{
    let v = r->Ok_0.values.columns@;
    let s = r->Ok_0.series.columns@;
    let value = value_type(key@.value, width)->Ok_0;
    assert(columns(v).len() == v.len());
    assert(columns(s).len() == s.len());
    assert(values_columns(key@.kind, zone_of(key@.reference), value).len() >= 4);
    assert(series_columns(key@.kind, zone_of(key@.reference)).len() >= 2);
    assert(columns(v)[0].name == v[0].name@);
    assert(columns(v)[1].name == v[1].name@);
    assert(columns(v)[v.len() - 1].name == v.last().name@);
    assert(columns(s)[0].name == s[0].name@);
    assert(columns(s)[1].name == s[1].name@);
}

/// One value of a partition has as many elements as its shape says, and no less than one; a
/// partition of function data has a row for each point of its widest series.
pub proof fn widths_are_those_of_shapes(table: PartitionSchema, width: usize, shape: Vec<usize>)
    requires
        call_ensures(PartitionSchema::element_width, (&table,), width),
        call_ensures(PartitionSchema::element_shape, (&table,), shape),
        table.key@.value matches KindView::Dense(_, dims) ==> product(dims) <= usize::MAX,
        table.key@.value matches KindView::Tuple(arity, _) ==> arity <= usize::MAX,
    ensures
        table.key@.value matches KindView::Dense(_, dims) ==> shape@ == dims,
        table.key@.value matches KindView::Tuple(arity, _) ==> shape@.len() == 1 && shape@[0]
            == arity,
        table.key@.value is Composite && table.composite_width is Some ==> shape@.len() == 1
            && shape@[0] == table.composite_width->0,
        product(shape@) > 0 ==> width == product(shape@),
        table.key@.value is Dense && product(shape@) == 0 ==> width == 1,
{
    if shape@.len() == 1 {
        crate::array::product_of_one(shape@[0]);
        assert(shape@ =~= seq![shape@[0]]);
    } else if shape@.len() == 0 {
        assert(shape@ =~= Seq::<usize>::empty());
    }
}

/// A time column has the zone of its reference: none for a wall clock, UTC for what is in UTC or
/// says nothing, and otherwise the spelling that the store records.
pub proof fn time_columns_have_the_zone_of_their_reference(
    reference: Option<TimeReference>,
    zone: Option<String>,
    column: ColumnType,
)
    requires
        call_ensures(column_zone, (&reference,), zone),
        call_ensures(timestamp_type, (&reference,), column),
    ensures
        column.shape() == ColumnTypeView::Timestamp(opt_text(zone)),
        zone is None <==> reference matches Some(TimeReference::Zoneless),
        reference is None ==> opt_text(zone) == Some("UTC"@),
        reference matches Some(TimeReference::Utc) ==> opt_text(zone) == Some("UTC"@),
        reference matches Some(TimeReference::Zone(name)) ==> opt_text(zone) == Some(name@),
        reference matches Some(TimeReference::FixedOffset(m)) ==> opt_text(zone) == Some(
            TimeReferenceView::FixedOffset(m as int).storage_text(),
        ),
{
}

/// Keys are ordered by the hash of their values, and then by their time axis: the earlier text
/// first.
pub proof fn keys_are_ordered_by_hash_first(a: ArrayKey, b: ArrayKey, less: bool, same: bool)
    requires
        call_ensures(ArrayKey::less, (&a, &b), less),
        call_ensures(ArrayKey::same, (&a, &b), same),
    ensures
        before(a.data_hash@, b.data_hash@) ==> less,
        before(b.data_hash@, a.data_hash@) ==> !less,
        a.data_hash@ == b.data_hash@ ==> (less <==> before(a.time_axis@, b.time_axis@)),
        same <==> a.data_hash@ == b.data_hash@ && a.time_axis@ == b.time_axis@,
        less ==> !same,
{
    key_order(a@, b@, a@);
    crate::text::before_irreflexive(a.data_hash@);
    if before(b.data_hash@, a.data_hash@) {
        key_order(b@, a@, b@);
    }
}

/// The array that is hashed is the stored one, except for function data that the store encodes
/// anew; what the store refuses is refused.
pub proof fn only_function_data_is_encoded_anew(
    array: TypedArray,
    element_type: ElementType,
    reencoded: Result<Option<TypedArray>, String>,
    r: Result<TypedArray, String>,
)
    requires
        call_ensures(canonical_array, (array, &element_type, reencoded), r),
    ensures
        !(element_type is Composite) ==> (r matches Ok(out) && out@ == array@),
        element_type is Composite ==> match reencoded {
            Ok(Some(other)) => r matches Ok(out) && out@ == other@,
            Ok(None) => r matches Ok(out) && out@ == array@,
            Err(e) => r matches Err(text) && text@ == e@,
        },
{
}

/// The time axis of a series is spelled as the repeating interval it is: how many instants or
/// windows there are, where they start, and the periods, the interval before the horizon and the
/// horizon before the resolution; an irregular one by the hash of its instants.
pub proof fn time_axes_are_spelled_as_they_repeat(axis: TimeAxis, hash: &str, r: String)
    requires
        call_ensures(time_axis_of, (&axis, hash), r),
        spellable(axis@),
    ensures
        match axis {
            TimeAxis::SingleTimeSeries { initial_timestamp, resolution, length } => r@ == "R"@
                + decimal_text(length as nat) + "/"@ + rfc3339_text(initial_timestamp) + "/"@
                + resolution.iso@,
            TimeAxis::NonSequentialTimeSeries { .. } => r@ == hash@,
            TimeAxis::PersistentTimeSeries { .. } => r@ == hash@,
            TimeAxis::Deterministic { grid } => spells_grid(r@, grid),
            TimeAxis::Probabilistic { grid, .. } => spells_grid(r@, grid),
            TimeAxis::Scenarios { grid, .. } => spells_grid(r@, grid),
        },
{
}

/// Whether a text is the repeating interval of a forecast's grid.
pub open spec fn spells_grid(text: Seq<char>, grid: ForecastGrid) -> bool {
    text == "R"@ + decimal_text(grid.count as nat) + "/"@ + rfc3339_text(grid.initial_timestamp)
        + "/"@ + grid.interval.iso@ + "/"@ + grid.horizon.iso@ + "/"@ + grid.resolution.iso@
}

// ---- What the columns are -------------------------------------------------------------------

/// The sizes of the lists a column type nests, from the outermost in.
pub open spec fn list_sizes(t: ColumnTypeView) -> Seq<int>
    decreases t,
{
    match t {
        ColumnTypeView::FixedSizeList(item, size) => seq![size] + list_sizes(*item),
        _ => seq![],
    }
}

/// What the innermost list of a column type holds.
pub open spec fn list_leaf(t: ColumnTypeView) -> ColumnTypeView
    decreases t,
{
    match t {
        ColumnTypeView::FixedSizeList(item, _) => list_leaf(*item),
        _ => t,
    }
}

pub(crate) proof fn nested_has_its_sizes(leaf: ColumnTypeView, dims: Seq<usize>)
    requires
        !(leaf is FixedSizeList),
    ensures
        list_sizes(nested(leaf, dims)).len() == dims.len(),
        forall|i: int|
            0 <= i < dims.len() ==> #[trigger] list_sizes(nested(leaf, dims))[i] == dims[i],
        list_leaf(nested(leaf, dims)) == leaf,
    decreases dims.len(),
{
    if dims.len() > 0 {
        nested_has_its_sizes(leaf, dims.drop_first());
        let inner = list_sizes(nested(leaf, dims.drop_first()));
        assert(list_sizes(nested(leaf, dims)) == seq![dims[0] as int] + inner);
        assert forall|i: int| 0 <= i < dims.len() implies #[trigger] list_sizes(
            nested(leaf, dims),
        )[i] == dims[i] by {
            if i > 0 {
                assert(inner[i - 1] == dims.drop_first()[i - 1]);
            }
        }
    }
}

proof fn oversized_is_there(dims: Seq<usize>)
    ensures
        oversized(dims) is Some <==> exists|i: int| 0 <= i < dims.len() && #[trigger] dims[i]
            > i32::MAX,
    decreases dims.len(),
{
    if dims.len() > 0 {
        let rest = dims.drop_last();
        oversized_is_there(rest);
        if exists|i: int| 0 <= i < dims.len() && #[trigger] dims[i] > i32::MAX {
            let i = choose|i: int| 0 <= i < dims.len() && #[trigger] dims[i] > i32::MAX;
            if i < rest.len() {
                assert(rest[i] == dims[i]);
            } else {
                assert(dims.last() == dims[i]);
            }
        }
        if oversized(dims) is Some {
            if dims.last() > i32::MAX {
                assert(dims[dims.len() - 1] > i32::MAX);
            } else {
                let i = choose|i: int| 0 <= i < rest.len() && #[trigger] rest[i] > i32::MAX;
                assert(dims[i] > i32::MAX);
            }
        }
    }
}

/// The value column nests a list for each axis of a step, the first axis outermost, around the
/// numbers the elements are stored as. It is refused exactly where a list would be too long, or
/// where the width of function data is not known.
pub proof fn value_columns_nest_as_steps_do(
    kind: ValueKind,
    width: Option<usize>,
    dims: Seq<usize>,
    leaf: Dtype,
    r: Result<ColumnType, String>,
)
    requires
        call_ensures(value_data_type, (&kind, width), r),
        call_ensures(ValueKind::leaf_dtype, (&kind,), leaf),
        kind@ matches KindView::Dense(_, shape) ==> dims == shape,
        kind@ matches KindView::Tuple(arity, _) ==> arity <= usize::MAX && dims
            == seq![arity as usize],
        kind@ is Composite && width is Some ==> dims == seq![width->0],
    ensures
        r is Err <==> (kind@ is Composite && width is None) || exists|i: int|
            0 <= i < dims.len() && #[trigger] dims[i] > i32::MAX,
        r matches Ok(t) ==> list_leaf(t.shape()) == ColumnTypeView::Primitive(leaf),
        r matches Ok(t) ==> list_sizes(t.shape()).len() == dims.len(),
        r matches Ok(t) ==> forall|i: int|
            0 <= i < dims.len() ==> #[trigger] list_sizes(t.shape())[i] == dims[i],
{
    if kind@ is Composite && width is None {
    } else {
        assert(value_dims(kind@, width) == dims);
        oversized_is_there(dims);
        nested_has_its_sizes(ColumnTypeView::Primitive(kind@.leaf()), dims);
    }
}

/// Whether a file has a column of this name and type.
pub open spec fn has_column(list: Seq<Column>, name: Seq<char>, t: ColumnTypeView) -> bool {
    exists|i: int| 0 <= i < list.len() && (#[trigger] list[i]).name@ == name
        && list[i].column_type.shape() == t
}

pub(crate) proof fn column_is_had(list: Seq<Column>, i: int)
    requires
        0 <= i < list.len(),
    ensures
        has_column(list, columns(list)[i].name, columns(list)[i].column_type),
        list[i].nullable == columns(list)[i].nullable,
{
    assert(list[i].name@ == columns(list)[i].name);
}

/// The values of a partition have the key of their array, their target, and the issue time and
/// the lane that their type has; no cell of them is null, and the times are in the zone of the
/// partition's reference.
pub proof fn values_have_their_coordinates(
    key: PartitionKey,
    width: Option<usize>,
    zone: Option<String>,
    r: Result<PartitionSchema, String>,
)
    requires
        call_ensures(PartitionSchema::new, (key, width), r),
        call_ensures(column_zone, (&key.time_reference,), zone),
        r is Ok,
    ensures
        ({
            let list = r->Ok_0.values.columns@;
            let kind = key.time_series_type;
            let time = ColumnTypeView::Timestamp(opt_text(zone));
            let lane: nat = if kind is Probabilistic || kind is Scenarios {
                1
            } else {
                0
            };
            &&& has_column(list, DATA_HASH@, ColumnTypeView::Text)
            &&& has_column(list, TIME_AXIS@, ColumnTypeView::Text)
            &&& has_column(list, TIMESTAMP@, time)
            &&& kind.forecasts() ==> has_column(list, ISSUE_TIME@, time)
            &&& kind is Probabilistic ==> has_column(
                list,
                PERCENTILE@,
                ColumnTypeView::Primitive(Dtype::F64),
            )
            &&& kind is Scenarios ==> has_column(
                list,
                SCENARIO@,
                ColumnTypeView::Primitive(Dtype::I64),
            )
            &&& list.len() == (if kind.forecasts() {
                5nat
            } else {
                4nat
            }) + lane
            &&& forall|i: int| 0 <= i < list.len() ==> !(#[trigger] list[i]).nullable
        }),
{
    let list = r->Ok_0.values.columns@;
    let kind = key.time_series_type;
    assert(columns(list).len() == list.len());
    assert(key@.kind == kind);
    column_is_had(list, 0);
    column_is_had(list, 1);
    column_is_had(list, 2);
    if kind.forecasts() {
        column_is_had(list, 3);
    }
    if kind is Probabilistic || kind is Scenarios {
        column_is_had(list, 4);
    }
    assert forall|i: int| 0 <= i < list.len() implies !(#[trigger] list[i]).nullable by {
        column_is_had(list, i);
    }
}

/// The rows of a series file have every field of a series under its own name: its ids as whole
/// numbers, its first instant as a time, its counts as whole numbers, and everything else as
/// text; no cell of them is null.
pub proof fn series_have_their_fields(
    key: PartitionKey,
    width: Option<usize>,
    zone: Option<String>,
    r: Result<PartitionSchema, String>,
)
    requires
        call_ensures(PartitionSchema::new, (key, width), r),
        call_ensures(column_zone, (&key.time_reference,), zone),
        r is Ok,
    ensures
        ({
            let list = r->Ok_0.series.columns@;
            let kind = key.time_series_type;
            let text = ColumnTypeView::Text;
            let whole = ColumnTypeView::Primitive(Dtype::I64);
            let time = ColumnTypeView::Timestamp(opt_text(zone));
            &&& has_column(list, DATA_HASH@, text)
            &&& has_column(list, TIME_AXIS@, text)
            &&& has_column(list, schema::ID@, whole)
            &&& has_column(list, schema::OWNER_ID@, whole)
            &&& has_column(list, schema::OWNER_TYPE@, text)
            &&& has_column(list, schema::OWNER_CATEGORY@, text)
            &&& has_column(list, schema::TIME_SERIES_TYPE@, text)
            &&& has_column(list, schema::NAME@, text)
            &&& kind is SingleTimeSeries || kind.forecasts() ==> has_column(
                list,
                schema::INITIAL_TIMESTAMP@,
                time,
            ) && has_column(list, schema::RESOLUTION@, text)
            &&& kind is SingleTimeSeries ==> has_column(list, schema::LENGTH@, whole)
            &&& kind.forecasts() ==> has_column(list, schema::INTERVAL@, text) && has_column(
                list,
                schema::HORIZON@,
                text,
            ) && has_column(list, schema::COUNT@, whole)
            &&& has_column(list, schema::FEATURES@, text)
            &&& has_column(list, schema::ELEMENT_TYPE@, text)
            &&& has_column(list, schema::ELEMENT_SHAPE@, text)
            &&& has_column(list, schema::TIME_REFERENCE@, text)
            &&& has_column(list, schema::UNITS@, text)
            &&& has_column(list, schema::QUANTITY_KIND@, text)
            &&& has_column(list, schema::UNIT_SYSTEM@, text)
            &&& has_column(list, schema::COMPONENT_FIELD@, text)
            &&& has_column(list, schema::APPLICATION_DATA@, text)
            &&& forall|i: int| 0 <= i < list.len() ==> !(#[trigger] list[i]).nullable
        }),
{
    let list = r->Ok_0.series.columns@;
    let kind = key.time_series_type;
    let n = list.len() as int;
    assert(columns(list).len() == n);
    assert(key@.kind == kind);
    column_is_had(list, 0);
    column_is_had(list, 1);
    column_is_had(list, 2);
    column_is_had(list, 3);
    column_is_had(list, 4);
    column_is_had(list, 5);
    column_is_had(list, 6);
    column_is_had(list, 7);
    if gridded(kind) {
        column_is_had(list, 8);
        column_is_had(list, 9);
        column_is_had(list, 10);
    }
    if kind.forecasts() {
        column_is_had(list, 11);
        column_is_had(list, 12);
    }
    column_is_had(list, n - 9);
    column_is_had(list, n - 8);
    column_is_had(list, n - 7);
    column_is_had(list, n - 6);
    column_is_had(list, n - 5);
    column_is_had(list, n - 4);
    column_is_had(list, n - 3);
    column_is_had(list, n - 2);
    column_is_had(list, n - 1);
    assert forall|i: int| 0 <= i < list.len() implies !(#[trigger] list[i]).nullable by {
        column_is_had(list, i);
    }
}

} // verus!
