//! One series as one table: its instants, its values, and its catalog row in the footer.
//!
//! A static series has two columns. A forecast is a long table, where every row carries the
//! coordinates that place it, so that nothing depends on the order of the rows.
use crate::array::{
    after, cell, cell_inside, element_count, element_dims, product, product_of_both,
    product_of_one, shape_text, show_shape, tail_of, times, width_of, wrong_length_text,
    ArrayView, TypedArray,
};
use crate::columns::{holds_table, Cell, ColumnData};
use crate::cube::{slot_at, slot_inside, LaneValue};
use crate::footer::Footer;
use crate::halves::FooterView;
use crate::kinds::{reference_view, Dtype, TimeReference, TimeSeriesType};
use crate::partition::copy_sizes;
use crate::instant::step_from;
use crate::roundtrip::{column_facts, row_at, row_found};
use crate::rows::{
    cube_steps, emission_of, emittable, grid_of_axis, rows_of, series_rows, ValueRow,
};
use crate::schema;
use crate::schema::{encode_element_shape, sizes_json_text};
use crate::series::{opt_text, AxisView, DataView, TimeAxis, TimeSeriesData};
use crate::table::{
    column_is_had, column_zone, columns, has_column, list_leaf, list_sizes, nested,
    nested_has_its_sizes, oversized, oversized_text, timestamp_type, zone_of, Column, ColumnType,
    ColumnTypeView, ColumnView,
};
use crate::text::{decimal, decimal_text};
use crate::values::append_bytes;
use vstd::prelude::*;

verus! {

/// The value column. Named alike in every table, so that tables of different components
/// concatenate.
pub const VALUE_COLUMN: &'static str = "value";

/// When a forecast's window was issued.
pub const ISSUE_TIME_COLUMN: &'static str = "issue_time";

/// The instant a forecast's value is for.
pub const TARGET_TIME_COLUMN: &'static str = "target_time";

/// The lane of a probabilistic forecast.
pub const PERCENTILE_COLUMN: &'static str = "percentile";

/// The lane of a scenarios forecast.
pub const SCENARIO_COLUMN: &'static str = "scenario";

/// The instants of a static series, or the breakpoints of a step function.
pub const TIMESTAMP_COLUMN: &'static str = "timestamp";

/// The type of a series' time columns.
pub fn timestamp_data_type(reference: &Option<TimeReference>) -> (r: ColumnType)
    ensures
        r.shape() == ColumnTypeView::Timestamp(zone_of(reference_view(*reference))),
{
    timestamp_type(reference)
}

/// One series as a table.
#[derive(Debug)]
pub struct SeriesTable {
    pub columns: Vec<Column>,
    pub data: Vec<ColumnData>,
    pub footer: Footer,
}

/// The type of a value column that holds an array's rows.
pub open spec fn value_column(array: ArrayView) -> ColumnTypeView {
    nested(ColumnTypeView::Primitive(array.dtype), element_dims(array.shape))
}

fn value_type_of(array: &TypedArray) -> (r: Result<ColumnType, String>)
    ensures
        match (r, oversized(element_dims(array@.shape))) {
            (Ok(t), None) => t.shape() == value_column(array@),
            (Err(e), Some(dim)) => e@ == oversized_text(dim),
            _ => false,
        },
{
    crate::table::value_data_type(
        &crate::partition::ValueKind::Dense { dtype: array.dtype, shape: array.element_shape() },
        None,
    )
}

// ---- Static series ------------------------------------------------------------------------------

pub open spec fn uneven_text(instants: nat, rows: nat) -> Seq<char> {
    decimal_text(instants) + " timestamps but "@ + decimal_text(rows) + " value rows"@
}

/// The columns of a static series' table.
pub open spec fn static_columns(zone: Option<Seq<char>>, array: ArrayView) -> Seq<ColumnView> {
    seq![
        ColumnView {
            name: TIMESTAMP_COLUMN@,
            column_type: ColumnTypeView::Timestamp(zone),
            nullable: false,
        },
        ColumnView { name: VALUE_COLUMN@, column_type: value_column(array), nullable: false },
    ]
}

/// The rows of a static series' table.
pub open spec fn static_cells(rows: Seq<ValueRow>, array: ArrayView) -> Seq<Seq<Cell>> {
    let width = (product(element_dims(array.shape)) * array.dtype.bytes()) as int;
    Seq::new(
        rows.len(),
        |k: int|
            seq![Cell::Instant(rows[k].target), Cell::Value(cell(array.bytes, k, width))],
    )
}

/// Why a static series is no table, if it is none.
pub open spec fn static_fault(data: DataView) -> Option<Seq<char>> {
    match rows_of(data) {
        Err(text) => Some(text),
        Ok(rows) => match oversized(element_dims(data.array.shape)) {
            Some(dim) => Some(oversized_text(dim)),
            None => if data.array.shape[0] != rows.len() {
                Some(uneven_text(rows.len(), data.array.shape[0] as nat))
            } else {
                None
            },
        },
    }
}

fn targets(rows: &Vec<ValueRow>) -> (r: Vec<i64>)
    ensures
        r@.len() == rows@.len(),
        forall|k: int| 0 <= k < rows@.len() ==> #[trigger] r@[k] == rows@[k].target,
{
    let mut out: Vec<i64> = Vec::new();
    let mut k: usize = 0;
    while k < rows.len()
        invariant
            k <= rows.len(),
            out@.len() == k,
            forall|j: int| 0 <= j < k ==> #[trigger] out@[j] == rows@[j].target,
        decreases rows.len() - k,
    {
        out.push(rows[k].target);
        k += 1;
    }
    out
}

fn copy_array(array: &TypedArray) -> (r: TypedArray)
    ensures
        r@ == array@,
{
    TypedArray {
        dtype: array.dtype,
        shape: copy_sizes(&array.shape),
        bytes: array.bytes.clone(),
    }
}

fn build_batch(data: &TimeSeriesData, reference: &Option<TimeReference>, footer: Footer) -> (r:
    Result<SeriesTable, String>)
    requires
        emittable(data@),
        data@.array.fits(),
        data@.array.shape.len() > 0,
    ensures
        match (r, static_fault(data@)) {
            (Ok(t), None) => {
                let zone = zone_of(reference_view(*reference));
                &&& columns(t.columns@) == static_columns(zone, data@.array)
                &&& holds_table(
                    t.data@,
                    static_columns(zone, data@.array),
                    static_cells(rows_of(data@)->Ok_0, data@.array),
                )
                &&& t.footer@ == footer@
            },
            (Err(e), Some(text)) => e@ == text,
            _ => false,
        },
{
    let rows = match series_rows(data) {
        Ok(rows) => rows,
        Err(e) => {
            return Err(e);
        },
    };
    let value_type = match value_type_of(&data.array) {
        Ok(t) => t,
        Err(e) => {
            return Err(e);
        },
    };
    if data.array.shape[0] != rows.len() {
        let mut e = decimal(rows.len() as u64);
        e.append(" timestamps but ");
        e.append(decimal(data.array.shape[0] as u64).as_str());
        e.append(" value rows");
        return Err(e);
    }
    let ghost zone = zone_of(reference_view(*reference));
    let mut list: Vec<Column> = Vec::new();
    list.push(Column {
        name: TIMESTAMP_COLUMN,
        column_type: timestamp_data_type(reference),
        nullable: false,
    });
    list.push(Column { name: VALUE_COLUMN, column_type: value_type, nullable: false });
    let mut cells: Vec<ColumnData> = Vec::new();
    cells.push(ColumnData::Instants(targets(&rows)));
    cells.push(ColumnData::Values(copy_array(&data.array)));
    proof {
        assert(columns(list@) =~= static_columns(zone, data@.array));
        let expected = static_cells(rows@, data@.array);
        assert(data@.array.shape[0] == rows@.len());
        assert forall|c: int, k: int| 0 <= c < cells@.len() && 0 <= k < expected.len() implies
            #[trigger] cells@[c].at(k) == expected[k][c] by {}
    }
    Ok(SeriesTable { columns: list, data: cells, footer })
}

// ---- Forecasts ----------------------------------------------------------------------------------

pub open spec fn flat_text(leading: nat, shape: Seq<usize>) -> Seq<char> {
    "a forecast array has at least "@ + decimal_text(leading) + " dimensions, got "@ + shape_text(
        shape,
    )
}

pub open spec fn short_array_text(length: nat, offset: usize) -> Seq<char> {
    "forecast array is "@ + decimal_text(length) + " bytes, too short for element "@ + decimal_text(
        offset as nat,
    )
}

/// The shape of one step of a forecast: what follows the leading axes of its cube.
pub open spec fn step_dims(data: DataView) -> Seq<usize> {
    after(data.array.shape, data.axis.kind().axes() as int)
}

/// How many bytes one step of a forecast has, never none.
pub open spec fn step_width(data: DataView) -> int {
    (data.array.dtype.bytes() * width_of(step_dims(data))) as int
}

/// The first of the first `n` rows whose element the array does not have.
pub open spec fn first_short(rows: Seq<ValueRow>, width: int, length: int, n: int) -> Option<usize>
    decreases n,
{
    if n <= 0 {
        None
    } else {
        match first_short(rows, width, length, n - 1) {
            Some(offset) => Some(offset),
            None => if (rows[n - 1].offset + 1) * width > length {
                Some(rows[n - 1].offset)
            } else {
                None
            },
        }
    }
}

proof fn short_persists(rows: Seq<ValueRow>, width: int, length: int, n: int, m: int)
    requires
        0 <= n <= m,
        first_short(rows, width, length, n) is Some,
    ensures
        first_short(rows, width, length, m) == first_short(rows, width, length, n),
    decreases m - n,
{
    if n < m {
        short_persists(rows, width, length, n, m - 1);
    }
}

/// The elements of the first `n` rows, one after the other.
pub open spec fn gathered(rows: Seq<ValueRow>, bytes: Seq<u8>, width: int, n: int) -> Seq<u8>
    decreases n,
{
    if n <= 0 {
        seq![]
    } else {
        gathered(rows, bytes, width, n - 1) + cell(bytes, rows[n - 1].offset as int, width)
    }
}

/// The value column of a forecast's table: the stored elements, in the order of the rows.
pub open spec fn gathered_array(data: DataView) -> ArrayView {
    let rows = rows_of(data)->Ok_0;
    ArrayView {
        dtype: data.array.dtype,
        shape: seq![rows.len() as usize] + step_dims(data),
        bytes: gathered(rows, data.array.bytes, step_width(data), rows.len() as int),
    }
}

/// Why a forecast is no table, if it is none.
pub open spec fn long_fault(data: DataView) -> Option<Seq<char>> {
    let leading = data.axis.kind().axes();
    if data.array.shape.len() < leading {
        Some(flat_text(leading, data.array.shape))
    } else {
        match rows_of(data) {
            Err(text) => Some(text),
            Ok(rows) => match first_short(
                rows,
                step_width(data),
                data.array.bytes.len() as int,
                rows.len() as int,
            ) {
                Some(offset) => Some(short_array_text(data.array.bytes.len(), offset)),
                None => if !gathered_array(data).fits() {
                    Some(wrong_length_text(gathered_array(data)))
                } else {
                    match oversized(step_dims(data)) {
                        Some(dim) => Some(oversized_text(dim)),
                        None => None,
                    }
                },
            },
        }
    }
}

/// The columns of a forecast's table.
pub open spec fn long_columns(kind: TimeSeriesType, zone: Option<Seq<char>>, array: ArrayView) -> Seq<
    ColumnView,
> {
    seq![
        ColumnView {
            name: ISSUE_TIME_COLUMN@,
            column_type: ColumnTypeView::Timestamp(zone),
            nullable: false,
        },
        ColumnView {
            name: TARGET_TIME_COLUMN@,
            column_type: ColumnTypeView::Timestamp(zone),
            nullable: false,
        },
    ] + (match kind {
        TimeSeriesType::Probabilistic => seq![
            ColumnView {
                name: PERCENTILE_COLUMN@,
                column_type: ColumnTypeView::Primitive(Dtype::F64),
                nullable: false,
            },
        ],
        TimeSeriesType::Scenarios => seq![
            ColumnView {
                name: SCENARIO_COLUMN@,
                column_type: ColumnTypeView::Primitive(Dtype::I32),
                nullable: false,
            },
        ],
        _ => seq![],
    }) + seq![ColumnView { name: VALUE_COLUMN@, column_type: value_column(array), nullable: false }]
}

/// One row of a forecast's table.
pub open spec fn long_cell(row: ValueRow, value: Seq<u8>) -> Seq<Cell> {
    seq![Cell::Instant(row.issue->0), Cell::Instant(row.target)] + (match row.lane {
        Some(LaneValue::Percentile(p)) => seq![Cell::Float(p)],
        Some(LaneValue::Scenario(s)) => seq![Cell::SmallInteger(s as i32)],
        None => seq![],
    }) + seq![Cell::Value(value)]
}

/// The rows of a forecast's table.
pub open spec fn long_cells(data: DataView) -> Seq<Seq<Cell>> {
    let rows = rows_of(data)->Ok_0;
    let width = step_width(data);
    Seq::new(
        rows.len(),
        |k: int| long_cell(rows[k], cell(data.array.bytes, rows[k].offset as int, width)),
    )
}

/// The footer of a forecast's table: the shape of one step, since the catalog's counts from
/// another axis, and how many trajectories there are, since the catalog does not say.
pub open spec fn long_footer(footer: FooterView, data: DataView) -> FooterView {
    let shaped = footer.insert(schema::ELEMENT_SHAPE@, sizes_json_text(step_dims(data)));
    match data.axis {
        AxisView::Scenarios { scenario_count, .. } => shaped.insert(
            schema::SCENARIO_COUNT@,
            decimal_text(scenario_count),
        ),
        _ => shaped,
    }
}

/// Gathering takes the elements of the rows, one after the other.
pub proof fn gathered_in_order(rows: Seq<ValueRow>, bytes: Seq<u8>, width: int, n: int)
    requires
        0 <= n <= rows.len(),
        0 <= width,
        first_short(rows, width, bytes.len() as int, n) is None,
    ensures
        gathered(rows, bytes, width, n).len() == n * width,
        forall|k: int|
            0 <= k < n ==> #[trigger] cell(gathered(rows, bytes, width, n), k, width) == cell(
                bytes,
                rows[k].offset as int,
                width,
            ),
    decreases n,
{
    if n > 0 {
        gathered_in_order(rows, bytes, width, n - 1);
        let earlier = gathered(rows, bytes, width, n - 1);
        let offset = rows[n - 1].offset as int;
        cell_inside(offset, offset + 1, width);
        let value = cell(bytes, offset, width);
        assert(value.len() == width);
        assert(n * width == (n - 1) * width + width) by (nonlinear_arith);
        assert forall|k: int| 0 <= k < n implies #[trigger] cell(
            gathered(rows, bytes, width, n),
            k,
            width,
        ) == cell(bytes, rows[k].offset as int, width) by {
            if k < n - 1 {
                cell_inside(k, n - 1, width);
                assert(cell(earlier + value, k, width) =~= cell(earlier, k, width));
            } else {
                assert(cell(earlier + value, k, width) =~= value);
            }
        }
    } else {
        assert(0 * width == 0);
    }
}

fn gather(rows: &Vec<ValueRow>, bytes: &Vec<u8>, width: usize) -> (r: Result<Vec<u8>, String>)
    ensures
        match (
            r,
            first_short(rows@, width as int, bytes@.len() as int, rows@.len() as int),
        ) {
            (Ok(out), None) => out@ == gathered(
                rows@,
                bytes@,
                width as int,
                rows@.len() as int,
            ),
            (Err(e), Some(offset)) => e@ == short_array_text(bytes@.len(), offset),
            _ => false,
        },
{
    let length: usize = bytes.len();
    let mut out: Vec<u8> = Vec::new();
    let mut k: usize = 0;
    while k < rows.len()
        invariant
            k <= rows.len(),
            length == bytes@.len(),
            first_short(rows@, width as int, length as int, k as int) is None,
            out@ == gathered(rows@, bytes@, width as int, k as int),
        decreases rows.len() - k,
    {
        let offset: usize = rows[k].offset;
        proof {
            assert((offset + 1) * width == offset * width + width) by (nonlinear_arith);
        }
        let start: Option<usize> = match times(offset, width) {
            Some(start) => {
                if start <= length && width <= length - start {
                    Some(start)
                } else {
                    None
                }
            },
            None => None,
        };
        match start {
            Some(start) => {
                append_bytes(&mut out, bytes, start, width);
            },
            None => {
                proof {
                    short_persists(
                        rows@,
                        width as int,
                        length as int,
                        k + 1,
                        rows@.len() as int,
                    );
                }
                let mut e = "forecast array is ".to_string();
                e.append(decimal(length as u64).as_str());
                e.append(" bytes, too short for element ");
                e.append(decimal(offset as u64).as_str());
                return Err(e);
            },
        }
        k += 1;
    }
    Ok(out)
}

/// The coordinate columns of a forecast's table.
struct Coordinates {
    issue: Vec<i64>,
    target: Vec<i64>,
    percentile: Vec<u64>,
    scenario: Vec<i32>,
}

fn coordinates(rows: &Vec<ValueRow>, kind: TimeSeriesType) -> (r: Coordinates)
    requires
        forall|k: int|
            0 <= k < rows@.len() ==> crate::values::fits_kind(
                (#[trigger] rows@[k]).issue,
                rows@[k].lane,
                kind,
            ),
        kind.forecasts(),
    ensures
        r.issue@.len() == rows@.len(),
        r.target@.len() == rows@.len(),
        forall|k: int| 0 <= k < rows@.len() ==> #[trigger] r.issue@[k] == rows@[k].issue->0,
        forall|k: int| 0 <= k < rows@.len() ==> #[trigger] r.target@[k] == rows@[k].target,
        kind == TimeSeriesType::Probabilistic ==> r.percentile@.len() == rows@.len() && forall|
            k: int,
        |
            0 <= k < rows@.len() ==> rows@[k].lane == Some(
                LaneValue::Percentile(#[trigger] r.percentile@[k]),
            ),
        kind == TimeSeriesType::Scenarios ==> r.scenario@.len() == rows@.len() && forall|k: int|
            0 <= k < rows@.len() ==> #[trigger] r.scenario@[k] == rows@[k].lane->0->Scenario_0
                as i32,
{
    let mut out = Coordinates {
        issue: Vec::new(),
        target: Vec::new(),
        percentile: Vec::new(),
        scenario: Vec::new(),
    };
    let mut k: usize = 0;
    while k < rows.len()
        invariant
            k <= rows.len(),
            kind.forecasts(),
            forall|j: int|
                0 <= j < rows@.len() ==> crate::values::fits_kind(
                    (#[trigger] rows@[j]).issue,
                    rows@[j].lane,
                    kind,
                ),
            out.issue@.len() == k,
            out.target@.len() == k,
            forall|j: int| 0 <= j < k ==> #[trigger] out.issue@[j] == rows@[j].issue->0,
            forall|j: int| 0 <= j < k ==> #[trigger] out.target@[j] == rows@[j].target,
            kind == TimeSeriesType::Probabilistic ==> out.percentile@.len() == k && forall|j: int|
                0 <= j < k ==> rows@[j].lane == Some(
                    LaneValue::Percentile(#[trigger] out.percentile@[j]),
                ),
            kind == TimeSeriesType::Scenarios ==> out.scenario@.len() == k && forall|j: int|
                0 <= j < k ==> #[trigger] out.scenario@[j] == rows@[j].lane->0->Scenario_0 as i32,
        decreases rows.len() - k,
    {
        let row: ValueRow = rows[k];
        proof {
            assert(crate::values::fits_kind(rows@[k as int].issue, rows@[k as int].lane, kind));
        }
        out.issue.push(
            match row.issue {
                Some(at) => at,
                None => 0,
            },
        );
        out.target.push(row.target);
        match row.lane {
            Some(LaneValue::Percentile(p)) => {
                out.percentile.push(p);
            },
            Some(LaneValue::Scenario(s)) => {
                out.scenario.push(#[verifier::truncate] (s as i32));
            },
            None => {},
        }
        k += 1;
    }
    out
}

/// The long table of a forecast.
fn forecast_batch(data: &TimeSeriesData, reference: &Option<TimeReference>, footer: Footer) -> (r:
    Result<SeriesTable, String>)
    requires
        data@.axis.kind().forecasts(),
        data@.array.shape.len() >= data@.axis.kind().axes() ==> emittable(data@),
        width_of(step_dims(data@)) * 8 <= usize::MAX,
    ensures
        match (r, long_fault(data@)) {
            (Ok(t), None) => {
                let zone = zone_of(reference_view(*reference));
                let schema = long_columns(data@.axis.kind(), zone, gathered_array(data@));
                &&& columns(t.columns@) == schema
                &&& holds_table(t.data@, schema, long_cells(data@))
                &&& t.footer@ == long_footer(footer@, data@)
            },
            (Err(e), Some(text)) => e@ == text,
            _ => false,
        },
{
    let kind = data.time_series_type();
    let leading: usize = kind.leading_dims();
    if data.array.shape.len() < leading {
        let mut e = "a forecast array has at least ".to_string();
        e.append(decimal(leading as u64).as_str());
        e.append(" dimensions, got ");
        e.append(show_shape(&data.array.shape).as_str());
        return Err(e);
    }
    let element = tail_of(&data.array.shape, leading);
    let mut footer = footer;
    footer.set(schema::ELEMENT_SHAPE, encode_element_shape(&element));
    match &data.axis {
        TimeAxis::Scenarios { scenario_count, .. } => {
            footer.set(schema::SCENARIO_COUNT, decimal(*scenario_count as u64));
        },
        _ => {},
    }
    let rows = match series_rows(data) {
        Ok(rows) => rows,
        Err(e) => {
            return Err(e);
        },
    };
    let per_element: usize = match element_count(&element) {
        Some(0) => 1,
        Some(n) => n,
        None => {
            proof {
                assert(false);
            }
            1
        },
    };
    proof {
        assert(data.array.dtype.bytes() * per_element <= 8 * per_element) by (nonlinear_arith)
            requires
                data.array.dtype.bytes() <= 8,
                per_element >= 0,
        ;
    }
    let width: usize = data.array.dtype.size() * per_element;
    let bytes = match gather(&rows, &data.array.bytes, width) {
        Ok(bytes) => bytes,
        Err(e) => {
            return Err(e);
        },
    };
    let mut shape: Vec<usize> = Vec::new();
    shape.push(rows.len());
    let mut rest = copy_sizes(&element);
    shape.append(&mut rest);
    proof {
        assert(shape@ =~= seq![rows@.len() as usize] + element@);
    }
    let values = match TypedArray::new(data.array.dtype, shape, bytes) {
        Ok(values) => values,
        Err(e) => {
            return Err(e);
        },
    };
    proof {
        assert(element_dims(values@.shape) =~= element@);
    }
    let value_type = match value_type_of(&values) {
        Ok(t) => t,
        Err(e) => {
            return Err(e);
        },
    };
    let ghost zone = zone_of(reference_view(*reference));
    let ghost array = values@;
    proof {
        crate::values::emitted_rows_fit(data@);
    }
    let placed = coordinates(&rows, kind);
    let mut list: Vec<Column> = Vec::new();
    list.push(Column {
        name: ISSUE_TIME_COLUMN,
        column_type: timestamp_data_type(reference),
        nullable: false,
    });
    list.push(Column {
        name: TARGET_TIME_COLUMN,
        column_type: timestamp_data_type(reference),
        nullable: false,
    });
    let mut cells: Vec<ColumnData> = Vec::new();
    cells.push(ColumnData::Instants(placed.issue));
    cells.push(ColumnData::Instants(placed.target));
    match kind {
        TimeSeriesType::Probabilistic => {
            list.push(
                Column {
                    name: PERCENTILE_COLUMN,
                    column_type: ColumnType::Primitive(Dtype::F64),
                    nullable: false,
                },
            );
            cells.push(ColumnData::Floats(placed.percentile));
        },
        TimeSeriesType::Scenarios => {
            list.push(
                Column {
                    name: SCENARIO_COLUMN,
                    column_type: ColumnType::Primitive(Dtype::I32),
                    nullable: false,
                },
            );
            cells.push(ColumnData::SmallIntegers(placed.scenario));
        },
        _ => {},
    }
    list.push(Column { name: VALUE_COLUMN, column_type: value_type, nullable: false });
    cells.push(ColumnData::Values(values));
    proof {
        let n = rows@.len() as int;
        let expected = long_cells(data@);
        let schema = long_columns(kind, zone, array);
        let each = (product(element_dims(array.shape)) * array.dtype.bytes()) as int;
        assert(columns(list@) =~= schema);
        gathered_in_order(rows@, data@.array.bytes, width as int, n);
        assert(width == step_width(data@));
        if n > 0 {
            product_of_both(seq![n as usize], element@);
            product_of_one(n as usize);
            assert(n * product(element@) * array.dtype.bytes() == n * each) by (nonlinear_arith)
                requires
                    each == product(element@) * array.dtype.bytes(),
            ;
            assert(each == width) by (nonlinear_arith)
                requires
                    n * each == n * width,
                    n > 0,
            ;
        }
        assert forall|c: int, k: int| 0 <= c < cells@.len() && 0 <= k < expected.len() implies
            #[trigger] cells@[c].at(k) == expected[k][c] by {
            assert(crate::values::fits_kind(rows@[k].issue, rows@[k].lane, kind));
            assert(cell(array.bytes, k, width as int) == cell(
                data@.array.bytes,
                rows@[k].offset as int,
                width as int,
            ));
            if kind == TimeSeriesType::Probabilistic && c == 2 {
                assert(rows@[k].lane == Some(LaneValue::Percentile(placed.percentile@[k])));
            }
            if kind == TimeSeriesType::Scenarios && c == 2 {
                assert(placed.scenario@[k] == rows@[k].lane->0->Scenario_0 as i32);
            }
            if c == 0 {
                assert(placed.issue@[k] == rows@[k].issue->0);
            }
            if c == 1 {
                assert(placed.target@[k] == rows@[k].target);
            }
        }
    }
    Ok(SeriesTable { columns: list, data: cells, footer })
}

/// Why a series is no table, if it is none.
pub open spec fn table_fault(data: DataView) -> Option<Seq<char>> {
    if data.axis.kind().forecasts() {
        long_fault(data)
    } else {
        static_fault(data)
    }
}

/// Whether a table is that of a series.
pub open spec fn is_series_table(
    t: SeriesTable,
    data: DataView,
    zone: Option<Seq<char>>,
    footer: FooterView,
) -> bool {
    if data.axis.kind().forecasts() {
        let schema = long_columns(data.axis.kind(), zone, gathered_array(data));
        &&& columns(t.columns@) == schema
        &&& holds_table(t.data@, schema, long_cells(data))
        &&& t.footer@ == long_footer(footer, data)
    } else {
        let schema = static_columns(zone, data.array);
        &&& columns(t.columns@) == schema
        &&& holds_table(t.data@, schema, static_cells(rows_of(data)->Ok_0, data.array))
        &&& t.footer@ == footer
    }
}

/// One series as a table. `reference` is the catalog row's, which is the authority where the
/// values disagree, and `footer` the row's own entries.
pub fn record_batch(data: &TimeSeriesData, reference: &Option<TimeReference>, footer: Footer) -> (r:
    Result<SeriesTable, String>)
    requires
        data@.array.shape.len() >= data@.axis.kind().axes() ==> emittable(data@),
        !data@.axis.kind().forecasts() ==> data@.array.fits() && data@.array.shape.len() > 0,
        width_of(step_dims(data@)) * 8 <= usize::MAX,
    ensures
        match (r, table_fault(data@)) {
            (Ok(t), None) => is_series_table(
                t,
                data@,
                zone_of(reference_view(*reference)),
                footer@,
            ),
            (Err(e), Some(text)) => e@ == text,
            _ => false,
        },
{
    if data.time_series_type().is_forecast() {
        forecast_batch(data, reference, footer)
    } else {
        build_batch(data, reference, footer)
    }
}

// ---- What stands under a name -------------------------------------------------------------------

proof fn column_names_apart()
    ensures
        ISSUE_TIME_COLUMN@.len() == 10 && ISSUE_TIME_COLUMN@[0] == 'i',
        TARGET_TIME_COLUMN@.len() == 11,
        PERCENTILE_COLUMN@.len() == 10 && PERCENTILE_COLUMN@[0] == 'p',
        SCENARIO_COLUMN@.len() == 8,
        TIMESTAMP_COLUMN@.len() == 9,
        VALUE_COLUMN@.len() == 5,
{
    reveal_strlit("issue_time");
    reveal_strlit("target_time");
    reveal_strlit("percentile");
    reveal_strlit("scenario");
    reveal_strlit("timestamp");
    reveal_strlit("value");
}

/// Whether a table has a column of a name, and every such column holds a value in a row.
pub open spec fn stands_under(t: SeriesTable, name: Seq<char>, k: int, value: Cell) -> bool {
    &&& exists|c: int| 0 <= c < t.columns@.len() && #[trigger] t.columns@[c].name@ == name
    &&& forall|c: int|
        0 <= c < t.columns@.len() && #[trigger] t.columns@[c].name@ == name ==> t.data@[c].at(k)
            == value
}

/// Whether a table has no column of a name.
pub open spec fn nothing_under(t: SeriesTable, name: Seq<char>) -> bool {
    forall|c: int| 0 <= c < t.columns@.len() ==> #[trigger] t.columns@[c].name@ != name
}

/// How many lanes a forecast's axis has.
pub open spec fn lanes_of(axis: AxisView) -> int {
    match axis {
        AxisView::Probabilistic { percentiles, .. } => percentiles.len() as int,
        AxisView::Scenarios { scenario_count, .. } => scenario_count as int,
        _ => 1,
    }
}

proof fn cell_under(
    t: SeriesTable,
    schema: Seq<ColumnView>,
    rows: Seq<Seq<Cell>>,
    at: int,
    k: int,
)
    requires
        columns(t.columns@) == schema,
        holds_table(t.data@, schema, rows),
        0 <= at < schema.len(),
        0 <= k < rows.len(),
        forall|c: int| 0 <= c < schema.len() && c != at ==> (#[trigger] schema[c]).name
            != schema[at].name,
    ensures
        stands_under(t, schema[at].name, k, rows[k][at]),
{
    assert forall|c: int| 0 <= c < t.columns@.len() implies #[trigger] t.columns@[c].name@
        == schema[c].name by {
        assert(columns(t.columns@)[c].name == t.columns@[c].name@);
    }
    assert(t.columns@[at].name@ == schema[at].name);
    assert(t.data@[at].at(k) == rows[k][at]);
}

/// The row of a window, a step and a lane holds what its columns are named for: when the window
/// was issued, counted from the first by the interval; the instant of the step, counted from the
/// issue time by the resolution; the lane's percentile or number; and the element that the
/// stored cube has at that lane, step and window.
pub proof fn forecast_cells_stand_under_their_names(
    series: TimeSeriesData,
    reference: Option<TimeReference>,
    footer: Footer,
    r: Result<SeriesTable, String>,
    window: int,
    step: int,
    lane: int,
)
    requires
        call_ensures(record_batch, (&series, &reference, footer), r),
        r is Ok,
        series@.axis.kind().forecasts(),
        emittable(series@),
        0 <= window < grid_of_axis(series@.axis).count,
        0 <= step < series@.array.shape[series@.axis.kind().axes() - 2],
        0 <= lane < lanes_of(series@.axis),
    ensures
        ({
            let t = r->Ok_0;
            let data = series@;
            let grid = grid_of_axis(data.axis);
            let steps = data.array.shape[data.axis.kind().axes() - 2] as int;
            let k = (window * steps + step) * lanes_of(data.axis) + lane;
            let issue = step_from(grid.interval.step, grid.initial_timestamp, window as i64)->0;
            let target = step_from(grid.resolution.step, issue, step as i64)->0;
            let slot = (lane * steps + step) * grid.count + window;
            let width = (data.array.dtype.bytes() * width_of(
                after(data.array.shape, data.axis.kind().axes() as int),
            )) as int;
            &&& forall|c: int|
                0 <= c < t.data@.len() ==> (#[trigger] t.data@[c]).rows() == grid.count * steps
                    * lanes_of(data.axis)
            &&& stands_under(t, ISSUE_TIME_COLUMN@, k, Cell::Instant(issue))
            &&& stands_under(t, TARGET_TIME_COLUMN@, k, Cell::Instant(target))
            &&& match data.axis {
                AxisView::Probabilistic { percentiles, .. } => stands_under(
                    t,
                    PERCENTILE_COLUMN@,
                    k,
                    Cell::Float(percentiles[lane]),
                ) && nothing_under(t, SCENARIO_COLUMN@),
                AxisView::Scenarios { .. } => stands_under(
                    t,
                    SCENARIO_COLUMN@,
                    k,
                    Cell::SmallInteger((lane as i64) as i32),
                ) && nothing_under(t, PERCENTILE_COLUMN@),
                _ => nothing_under(t, PERCENTILE_COLUMN@) && nothing_under(t, SCENARIO_COLUMN@),
            }
            &&& stands_under(
                t,
                VALUE_COLUMN@,
                k,
                Cell::Value(data.array.bytes.subrange(slot * width, slot * width + width)),
            )
        }),
{
    let t = r->Ok_0;
    let data = series@;
    let zone = zone_of(reference_view(reference));
    let steps = cube_steps(data);
    let e = emission_of(data.axis, steps);
    let rows = e.rows(e.count as int);
    let k = row_at(e, window, step, lane);
    row_found(e, e.count as int, window, step, lane);
    column_facts(e);
    column_names_apart();
    let slot = slot_at(lane, step, window, steps as int, e.count as int);
    let width = step_width(data);
    slot_inside(lane, step, window, lanes_of(data.axis), steps as int, e.count as int);
    assert((slot + 1) * width == slot * width + width) by (nonlinear_arith);
    let schema = long_columns(data.axis.kind(), zone, gathered_array(data));
    let cells = long_cells(data);
    assert(cells[k] == long_cell(
        rows[k],
        cell(data.array.bytes, rows[k].offset as int, step_width(data)),
    ));
    cell_under(t, schema, cells, 0, k);
    cell_under(t, schema, cells, 1, k);
    cell_under(t, schema, cells, schema.len() - 1, k);
    if lanes_of(data.axis) == 1 && data.axis is Deterministic {
    } else {
        cell_under(t, schema, cells, 2, k);
    }
    assert forall|c: int| 0 <= c < t.columns@.len() implies #[trigger] t.columns@[c].name@
        == schema[c].name by {
        assert(columns(t.columns@)[c].name == t.columns@[c].name@);
    }
}

/// A row of a static series' table holds what its columns are named for: the instant of the row,
/// counted from the first by the resolution where the series is regular, and the element that
/// the stored array has there.
pub proof fn static_cells_stand_under_their_names(
    series: TimeSeriesData,
    reference: Option<TimeReference>,
    footer: Footer,
    r: Result<SeriesTable, String>,
    k: int,
)
    requires
        call_ensures(record_batch, (&series, &reference, footer), r),
        r is Ok,
        !series@.axis.kind().forecasts(),
        0 <= k,
        match series@.axis {
            AxisView::SingleTimeSeries { length, .. } => k < length,
            AxisView::NonSequentialTimeSeries { timestamps } => k < timestamps.len(),
            AxisView::PersistentTimeSeries { timestamps } => k < timestamps.len(),
            _ => false,
        },
    ensures
        ({
            let t = r->Ok_0;
            let data = series@;
            let instant = match data.axis {
                AxisView::SingleTimeSeries { initial_timestamp, resolution, .. } => step_from(
                    resolution.step,
                    initial_timestamp,
                    k as i64,
                )->0,
                AxisView::NonSequentialTimeSeries { timestamps } => timestamps[k],
                AxisView::PersistentTimeSeries { timestamps } => timestamps[k],
                _ => 0,
            };
            let width = (product(element_dims(data.array.shape)) * data.array.dtype.bytes()) as int;
            &&& stands_under(t, TIMESTAMP_COLUMN@, k, Cell::Instant(instant))
            &&& stands_under(
                t,
                VALUE_COLUMN@,
                k,
                Cell::Value(data.array.bytes.subrange(k * width, k * width + width)),
            )
            &&& t.footer@ == footer@
        }),
{
    let t = r->Ok_0;
    let data = series@;
    let zone = zone_of(reference_view(reference));
    column_names_apart();
    let schema = static_columns(zone, data.array);
    let cells = static_cells(rows_of(data)->Ok_0, data.array);
    let width = (product(element_dims(data.array.shape)) * data.array.dtype.bytes()) as int;
    assert((k + 1) * width == k * width + width) by (nonlinear_arith);
    cell_under(t, schema, cells, 0, k);
    cell_under(t, schema, cells, 1, k);
}

/// The times of a table are in the zone of the series' reference, its values nest as the steps
/// of the series do, its lanes are of the numbers that say them, and no cell of it is null.
pub proof fn tables_have_the_types_of_their_series(
    series: TimeSeriesData,
    reference: Option<TimeReference>,
    footer: Footer,
    zone: Option<String>,
    r: Result<SeriesTable, String>,
)
    requires
        call_ensures(record_batch, (&series, &reference, footer), r),
        call_ensures(column_zone, (&reference,), zone),
        r is Ok,
    ensures
        ({
            let list = r->Ok_0.columns@;
            let kind = series@.axis.kind();
            let time = ColumnTypeView::Timestamp(opt_text(zone));
            let dims = if kind.forecasts() {
                after(series@.array.shape, kind.axes() as int)
            } else {
                element_dims(series@.array.shape)
            };
            let value = list.last().column_type.shape();
            &&& list.len() > 0
            &&& !kind.forecasts() ==> has_column(list, TIMESTAMP_COLUMN@, time) && list.len() == 2
            &&& kind.forecasts() ==> has_column(list, ISSUE_TIME_COLUMN@, time) && has_column(
                list,
                TARGET_TIME_COLUMN@,
                time,
            )
            &&& kind is Probabilistic ==> has_column(
                list,
                PERCENTILE_COLUMN@,
                ColumnTypeView::Primitive(Dtype::F64),
            )
            &&& kind is Scenarios ==> has_column(
                list,
                SCENARIO_COLUMN@,
                ColumnTypeView::Primitive(Dtype::I32),
            )
            &&& list.last().name@ == VALUE_COLUMN@
            &&& list_leaf(value) == ColumnTypeView::Primitive(series@.array.dtype)
            &&& list_sizes(value).len() == dims.len()
            &&& forall|i: int| 0 <= i < dims.len() ==> #[trigger] list_sizes(value)[i] == dims[i]
            &&& forall|i: int| 0 <= i < list.len() ==> !(#[trigger] list[i]).nullable
        }),
{
    let list = r->Ok_0.columns@;
    let kind = series@.axis.kind();
    let n = list.len() as int;
    assert(columns(list).len() == n);
    let array = if kind.forecasts() {
        gathered_array(series@)
    } else {
        series@.array
    };
    if kind.forecasts() {
        assert(element_dims(array.shape) =~= step_dims(series@));
    }
    nested_has_its_sizes(
        ColumnTypeView::Primitive(series@.array.dtype),
        element_dims(array.shape),
    );
    column_is_had(list, 0);
    column_is_had(list, 1);
    column_is_had(list, n - 1);
    assert(columns(list)[n - 1].column_type == list[n - 1].column_type.shape());
    assert(columns(list)[n - 1].name == list[n - 1].name@);
    if kind is Probabilistic || kind is Scenarios {
        column_is_had(list, 2);
    }
    assert forall|i: int| 0 <= i < list.len() implies !(#[trigger] list[i]).nullable by {
        column_is_had(list, i);
    }
}

/// A forecast's table says the shape of a step, and of scenarios how many there are, on top of
/// what its footer said; a static one says what its footer said.
pub proof fn tables_say_what_their_footer_said(
    series: TimeSeriesData,
    reference: Option<TimeReference>,
    footer: Footer,
    key: Seq<char>,
    r: Result<SeriesTable, String>,
)
    requires
        call_ensures(record_batch, (&series, &reference, footer), r),
        r is Ok,
    ensures
        ({
            let kind = series@.axis.kind();
            let said = r->Ok_0.footer@;
            &&& !kind.forecasts() ==> said == footer@
            &&& kind.forecasts() ==> said.contains_key(schema::ELEMENT_SHAPE@)
            &&& kind.forecasts() ==> said[schema::ELEMENT_SHAPE@] == sizes_json_text(
                after(series@.array.shape, kind.axes() as int),
            )
            &&& series@.axis matches AxisView::Scenarios { scenario_count, .. }
                ==> said.contains_key(schema::SCENARIO_COUNT@) && said[schema::SCENARIO_COUNT@]
                == decimal_text(scenario_count)
            &&& key != schema::ELEMENT_SHAPE@ && (kind is Scenarios ==> key
                != schema::SCENARIO_COUNT@) ==> (said.contains_key(key) <==> footer@.contains_key(
                key,
            )) && (footer@.contains_key(key) ==> said[key] == footer@[key])
        }),
{
    reveal_strlit("element_shape");
    reveal_strlit("scenario_count");
    assert(schema::ELEMENT_SHAPE@.len() != schema::SCENARIO_COUNT@.len());
}

} // verus!
