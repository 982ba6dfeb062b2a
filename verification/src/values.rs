//! The values file: every distinct array once, one row per value, in row groups.
use crate::array::{
    cell, cell_inside, element_count, element_dims, length_text, product, product_of_both,
    product_of_one, times, width_of, wrong_length, TypedArray,
};
use crate::catalog::{per_step_shape, MetadataView, TimeSeriesMetadata};
use crate::columns::{holds_table, Cell, ColumnData};
use crate::cube::LaneValue;
use crate::kinds::TimeSeriesType;
use crate::rows::{emittable, rows_of, series_rows, Emission, ValueRow};
use crate::series::{DataView, TimeSeriesData};
use crate::table::{
    nested, value_dims, values_columns, zone_of, ArrayKey, ArrayKeyView, ColumnView,
    PartitionSchema, ROW_GROUP_TARGET,
};
use crate::text::{decimal, decimal_text};
use vstd::prelude::*;

verus! {

/// One row of a values file.
pub struct Line {
    pub key: ArrayKeyView,
    pub issue: Option<i64>,
    pub target: i64,
    pub lane: Option<LaneValue>,
    pub value: Seq<u8>,
}

impl Line {
    /// The row's cells, in the order of the columns.
    pub open spec fn cells(self) -> Seq<Cell> {
        seq![
            Cell::Text(self.key.data_hash),
            Cell::Text(self.key.time_axis),
            Cell::Instant(self.target),
        ] + (match self.issue {
            Some(at) => seq![Cell::Instant(at)],
            None => seq![],
        }) + (match self.lane {
            Some(LaneValue::Percentile(p)) => seq![Cell::Float(p)],
            Some(LaneValue::Scenario(s)) => seq![Cell::Integer(s)],
            None => seq![],
        }) + seq![Cell::Value(self.value)]
    }
}

/// The cells of rows.
pub open spec fn cells_of(lines: Seq<Line>) -> Seq<Seq<Cell>> {
    lines.map_values(|l: Line| l.cells())
}

/// Whether a row has the coordinates that rows of a type have.
pub open spec fn fits_kind(issue: Option<i64>, lane: Option<LaneValue>, kind: TimeSeriesType) -> bool {
    &&& (issue is Some) == kind.forecasts()
    &&& match lane {
        None => kind != TimeSeriesType::Probabilistic && kind != TimeSeriesType::Scenarios,
        Some(LaneValue::Percentile(_)) => kind == TimeSeriesType::Probabilistic,
        Some(LaneValue::Scenario(_)) => kind == TimeSeriesType::Scenarios,
    }
}

/// Whether rows of the two types have the same coordinates.
pub open spec fn same_form(a: TimeSeriesType, b: TimeSeriesType) -> bool {
    &&& a.forecasts() == b.forecasts()
    &&& (a == TimeSeriesType::Probabilistic) == (b == TimeSeriesType::Probabilistic)
    &&& (a == TimeSeriesType::Scenarios) == (b == TimeSeriesType::Scenarios)
}

fn agree_in_form(a: TimeSeriesType, b: TimeSeriesType) -> (r: bool)
    ensures
        r == same_form(a, b),
{
    a.is_forecast() == b.is_forecast() && (a == TimeSeriesType::Probabilistic) == (b
        == TimeSeriesType::Probabilistic) && (a == TimeSeriesType::Scenarios) == (b
        == TimeSeriesType::Scenarios)
}

/// So many zero bytes.
pub open spec fn zeros(n: nat) -> Seq<u8> {
    Seq::new(n, |i: int| 0u8)
}

/// One row's bytes as a partition writes them: the stored ones, and zeros up to the
/// partition's width.
pub open spec fn padded_value(bytes: Seq<u8>, offset: int, stored: int, width: int) -> Seq<u8> {
    cell(bytes, offset, stored) + zeros((width - stored) as nat)
}

/// The rows an array contributes to a file whose rows hold `width` bytes.
pub open spec fn lines_of(
    key: ArrayKeyView,
    rows: Seq<ValueRow>,
    bytes: Seq<u8>,
    stored: int,
    width: int,
) -> Seq<Line> {
    Seq::new(
        rows.len(),
        |k: int|
            Line {
                key,
                issue: rows[k].issue,
                target: rows[k].target,
                lane: rows[k].lane,
                value: padded_value(bytes, rows[k].offset as int, stored, width),
            },
    )
}

proof fn rows_fit(e: Emission, kind: TimeSeriesType, window: int, n: int)
    requires
        forall|lane: int| fits_kind(Some(0i64), #[trigger] e.lanes.label(lane), kind),
    ensures
        forall|k: int|
            0 <= k < e.window_rows(window, n).len() ==> fits_kind(
                (#[trigger] e.window_rows(window, n)[k]).issue,
                e.window_rows(window, n)[k].lane,
                kind,
            ),
    decreases n,
{
    if n > 0 {
        rows_fit(e, kind, window, n - 1);
        let all = e.window_rows(window, n);
        let first = e.window_rows(window, n - 1);
        let last = e.step_rows(window, n - 1);
        assert forall|k: int| 0 <= k < all.len() implies fits_kind(
            (#[trigger] all[k]).issue,
            all[k].lane,
            kind,
        ) by {
            if k < first.len() {
                assert(all[k] == first[k]);
            } else {
                let lane = k - first.len();
                assert(all[k] == last[lane]);
                assert(fits_kind(Some(0i64), e.lanes.label(lane), kind));
            }
        }
    }
}

proof fn windows_fit(e: Emission, kind: TimeSeriesType, n: int)
    requires
        forall|lane: int| fits_kind(Some(0i64), #[trigger] e.lanes.label(lane), kind),
    ensures
        forall|k: int|
            0 <= k < e.rows(n).len() ==> fits_kind(
                (#[trigger] e.rows(n)[k]).issue,
                e.rows(n)[k].lane,
                kind,
            ),
    decreases n,
{
    if n > 0 {
        windows_fit(e, kind, n - 1);
        rows_fit(e, kind, n - 1, e.steps as int);
        let all = e.rows(n);
        let first = e.rows(n - 1);
        let last = e.window_rows(n - 1, e.steps as int);
        assert forall|k: int| 0 <= k < all.len() implies fits_kind(
            (#[trigger] all[k]).issue,
            all[k].lane,
            kind,
        ) by {
            if k < first.len() {
                assert(all[k] == first[k]);
            } else {
                assert(all[k] == last[k - first.len()]);
            }
        }
    }
}

/// The rows a series contributes have the coordinates of its type.
pub proof fn emitted_rows_fit(data: DataView)
    requires
        rows_of(data) is Ok,
    ensures
        forall|k: int|
            0 <= k < rows_of(data)->Ok_0.len() ==> fits_kind(
                (#[trigger] rows_of(data)->Ok_0[k]).issue,
                rows_of(data)->Ok_0[k].lane,
                data.axis.kind(),
            ),
{
    let kind = data.axis.kind();
    if kind.forecasts() {
        let e = crate::rows::emission_of(data.axis, crate::rows::cube_steps(data));
        windows_fit(e, kind, e.count as int);
    }
}

// ---- The buffer ---------------------------------------------------------------------------

/// Value rows accumulated for the current row group.
///
/// The value column is raw little-endian bytes, so one code path serves every dtype and a
/// value never passes through a wider type on its way out.
#[derive(Debug)]
pub struct ValuesBuffer<'a> {
    table: &'a PartitionSchema,
    width: usize,
    /// The size of one element; zero until the first array says.
    element_bytes: usize,
    data_hash: Vec<String>,
    time_axis: Vec<String>,
    timestamp: Vec<i64>,
    issue_time: Vec<i64>,
    percentile: Vec<u64>,
    scenario: Vec<i64>,
    value: Vec<u8>,
}

pub open spec fn dtype_text() -> Seq<char> {
    "two arrays in one partition disagree about their dtype"@
}

pub open spec fn width_text(name: Seq<char>, stored: nat, width: nat) -> Seq<char> {
    "series '"@ + name + "' has element width "@ + decimal_text(stored)
        + ", but its partition is "@ + decimal_text(width)
}

pub open spec fn wider_text(name: Seq<char>, stored: nat, width: nat) -> Seq<char> {
    "series '"@ + name + "' is wider ("@ + decimal_text(stored)
        + ") than the partition it was placed in ("@ + decimal_text(width) + ")"@
}

pub open spec fn form_text(name: Seq<char>, kind: TimeSeriesType, partition: TimeSeriesType) -> Seq<
    char,
> {
    "series '"@ + name + "' holds a "@ + kind.spelling() + ", but its partition holds "@
        + partition.spelling()
}

pub open spec fn short_text(name: Seq<char>) -> Seq<char> {
    "series '"@ + name + "' is shorter than its shape"@
}

/// Whether every row's element lies inside the stored bytes.
pub open spec fn rows_inside(rows: Seq<ValueRow>, stored: int, length: int) -> bool {
    forall|k: int| 0 <= k < rows.len() ==> ((#[trigger] rows[k]).offset + 1) * stored <= length
}

/// Why an array cannot go into a values file, if it cannot.
pub open spec fn array_fault(
    table: PartitionSchema,
    element_bytes: nat,
    row: MetadataView,
    data: DataView,
) -> Option<Seq<char>> {
    let stored = width_of(row.per_step());
    match rows_of(data) {
        Err(text) => Some(text),
        Ok(rows) => if element_bytes != 0 && element_bytes != data.array.dtype.bytes() {
            Some(dtype_text())
        } else if !(table.key@.value is Composite) && stored != table.width() {
            Some(width_text(row.name, stored, table.width()))
        } else if stored > table.width() {
            Some(wider_text(row.name, stored, table.width()))
        } else if !same_form(data.axis.kind(), table.key@.kind) {
            Some(form_text(row.name, data.axis.kind(), table.key@.kind))
        } else if !rows_inside(
            rows,
            (stored * data.array.dtype.bytes()) as int,
            data.array.bytes.len() as int,
        ) {
            Some(short_text(row.name))
        } else {
            None
        },
    }
}

/// The rows an array contributes to a partition's values file.
pub open spec fn array_lines(
    table: PartitionSchema,
    key: ArrayKeyView,
    row: MetadataView,
    data: DataView,
) -> Seq<Line> {
    let size = data.array.dtype.bytes();
    lines_of(
        key,
        rows_of(data)->Ok_0,
        data.array.bytes,
        (width_of(row.per_step()) * size) as int,
        (table.width() * size) as int,
    )
}

/// What is said when a batch's bytes are not as many as its shape says.
pub open spec fn misfit_text(table: PartitionSchema, n: nat, row_bytes: nat) -> Seq<char> {
    length_text(
        table.key@.value.leaf(),
        seq![n as usize] + value_dims(table.key@.value, table.composite_width),
        n * row_bytes,
    )
}

/// Whether rows of so many bytes are rows of the partition's value column.
pub open spec fn rows_match(table: PartitionSchema, row_bytes: nat) -> bool {
    product(value_dims(table.key@.value, table.composite_width)) * table.key@.value.leaf().bytes()
        == row_bytes
}

/// The columns of a partition's values file.
pub open spec fn value_schema(table: PartitionSchema) -> Seq<ColumnView> {
    values_columns(
        table.key@.kind,
        zone_of(table.key@.reference),
        nested(
            crate::table::ColumnTypeView::Primitive(table.key@.value.leaf()),
            value_dims(table.key@.value, table.composite_width),
        ),
    )
}

pub(crate) fn append_bytes(out: &mut Vec<u8>, from: &Vec<u8>, start: usize, n: usize)
    requires
        start + n <= from@.len(),
    ensures
        final(out)@ == old(out)@ + from@.subrange(start as int, start + n),
{
    let available: usize = from.len();
    let mut i: usize = 0;
    while i < n
        invariant
            i <= n,
            available == from@.len(),
            start + n <= from@.len(),
            out@ == old(out)@ + from@.subrange(start as int, start + i),
        decreases n - i,
    {
        out.push(from[start + i]);
        i += 1;
    }
}

fn append_zeros(out: &mut Vec<u8>, n: usize)
    ensures
        final(out)@ == old(out)@ + zeros(n as nat),
{
    let mut i: usize = 0;
    while i < n
        invariant
            i <= n,
            out@ == old(out)@ + zeros(i as nat),
        decreases n - i,
    {
        out.push(0u8);
        i += 1;
    }
}

/// Appending to a buffer leaves its rows as they were.
proof fn cell_of_longer(bytes: Seq<u8>, more: Seq<u8>, k: int, n: int, width: int)
    requires
        0 <= k < n,
        0 <= width,
        bytes.len() == n * width,
    ensures
        cell(bytes + more, k, width) == cell(bytes, k, width),
{
    cell_inside(k, n, width);
    assert(cell(bytes + more, k, width) =~= cell(bytes, k, width));
}

/// What is appended to a buffer of whole rows is its next row.
proof fn cell_appended(bytes: Seq<u8>, more: Seq<u8>, n: int, width: int)
    requires
        0 <= n,
        more.len() == width,
        bytes.len() == n * width,
    ensures
        cell(bytes + more, n, width) == more,
        (bytes + more).len() == (n + 1) * width,
{
    assert((n + 1) * width == n * width + width) by (nonlinear_arith);
    assert(cell(bytes + more, n, width) =~= more);
}

impl<'a> ValuesBuffer<'a> {
    /// How many bytes one row holds.
    pub open spec fn row_bytes(self) -> nat {
        self.of().width() * self.size()
    }

    /// The size of one element; zero while no array has been taken up.
    pub closed spec fn size(self) -> nat {
        self.element_bytes as nat
    }

    /// The partition the rows belong to.
    pub closed spec fn of(self) -> PartitionSchema {
        *self.table
    }

    spec fn line(self, k: int) -> Line {
        Line {
            key: ArrayKeyView { data_hash: self.data_hash@[k]@, time_axis: self.time_axis@[k]@ },
            issue: if self.table.key@.kind.forecasts() {
                Some(self.issue_time@[k])
            } else {
                None
            },
            target: self.timestamp@[k],
            lane: match self.table.key@.kind {
                TimeSeriesType::Probabilistic => Some(LaneValue::Percentile(self.percentile@[k])),
                TimeSeriesType::Scenarios => Some(LaneValue::Scenario(self.scenario@[k])),
                _ => None,
            },
            value: cell(self.value@, k, self.row_bytes() as int),
        }
    }

    /// The rows held.
    pub closed spec fn lines(self) -> Seq<Line> {
        Seq::new(self.timestamp@.len(), |k: int| self.line(k))
    }

    /// Whether the columns are as long as each other and as the type wants them.
    pub closed spec fn wf(self) -> bool {
        let n = self.timestamp@.len();
        let kind = self.table.key@.kind;
        &&& self.data_hash@.len() == n
        &&& self.time_axis@.len() == n
        &&& self.issue_time@.len() == if kind.forecasts() {
            n
        } else {
            0
        }
        &&& self.percentile@.len() == if kind == TimeSeriesType::Probabilistic {
            n
        } else {
            0
        }
        &&& self.scenario@.len() == if kind == TimeSeriesType::Scenarios {
            n
        } else {
            0
        }
        &&& self.width == self.table.width()
        &&& self.width * 8 <= usize::MAX
        &&& self.element_bytes <= 8
        &&& self.element_bytes == 0 ==> n == 0
        &&& self.value@.len() == n * self.row_bytes()
    }

    /// A buffer without rows.
    pub fn new(table: &'a PartitionSchema) -> (r: ValuesBuffer<'a>)
        requires
            table.width() * 8 <= usize::MAX,
        ensures
            r.wf(),
            r.of() == *table,
            r.size() == 0,
            r.lines() == Seq::<Line>::empty(),
    {
        let r = ValuesBuffer {
            table,
            width: table.element_width(),
            element_bytes: 0,
            data_hash: Vec::new(),
            time_axis: Vec::new(),
            timestamp: Vec::new(),
            issue_time: Vec::new(),
            percentile: Vec::new(),
            scenario: Vec::new(),
            value: Vec::new(),
        };
        proof {
            assert(r.lines() =~= Seq::<Line>::empty());
        }
        r
    }

    /// How many rows are held.
    pub fn len(&self) -> (r: usize)
        ensures
            r == self.lines().len(),
    {
        self.timestamp.len()
    }

    /// Whether no row is held.
    pub fn is_empty(&self) -> (r: bool)
        ensures
            r == (self.lines().len() == 0),
    {
        self.timestamp.len() == 0
    }

    fn push_line(
        &mut self,
        key: &ArrayKey,
        row: &ValueRow,
        bytes: &Vec<u8>,
        start: usize,
        stored: usize,
        pad: usize,
    )
        requires
            old(self).wf(),
            old(self).size() > 0,
            fits_kind(row.issue, row.lane, old(self).of().key@.kind),
            start + stored <= bytes@.len(),
            stored + pad == old(self).row_bytes(),
        ensures
            final(self).wf(),
            final(self).of() == old(self).of(),
            final(self).size() == old(self).size(),
            final(self).row_bytes() == old(self).row_bytes(),
            final(self).lines() == old(self).lines().push(
                Line {
                    key: key@,
                    issue: row.issue,
                    target: row.target,
                    lane: row.lane,
                    value: bytes@.subrange(start as int, start + stored) + zeros(pad as nat),
                },
            ),
    {
        let ghost n = self.timestamp@.len() as int;
        let ghost width = self.row_bytes() as int;
        let ghost was = self.value@;
        let ghost more = bytes@.subrange(start as int, start + stored) + zeros(pad as nat);
        self.data_hash.push(key.data_hash.clone());
        self.time_axis.push(key.time_axis.clone());
        self.timestamp.push(row.target);
        match row.issue {
            Some(at) => {
                self.issue_time.push(at);
            },
            None => {},
        }
        match row.lane {
            Some(LaneValue::Percentile(p)) => {
                self.percentile.push(p);
            },
            Some(LaneValue::Scenario(s)) => {
                self.scenario.push(s);
            },
            None => {},
        }
        append_bytes(&mut self.value, bytes, start, stored);
        append_zeros(&mut self.value, pad);
        proof {
            assert(self.value@ =~= was + more);
            cell_appended(was, more, n, width);
            assert forall|k: int| 0 <= k < n implies self.lines()[k] == old(self).lines()[k] by {
                cell_of_longer(was, more, k, n, width);
            }
            assert(self.lines() =~= old(self).lines().push(
                Line {
                    key: key@,
                    issue: row.issue,
                    target: row.target,
                    lane: row.lane,
                    value: more,
                },
            ));
        }
    }

    /// Appends every value row of one array, and says how many there were. Nothing is appended
    /// where the array does not belong in the partition.
    pub fn push_array(
        &mut self,
        key: &ArrayKey,
        row: &TimeSeriesMetadata,
        data: &TimeSeriesData,
    ) -> (r: Result<usize, String>)
        requires
            old(self).wf(),
            emittable(data@),
            product(row@.per_step()) <= usize::MAX,
        ensures
            final(self).wf(),
            final(self).of() == old(self).of(),
            match (r, array_fault(old(self).of(), old(self).size(), row@, data@)) {
                (Ok(n), None) => {
                    &&& n == rows_of(data@)->Ok_0.len()
                    &&& final(self).size() == data@.array.dtype.bytes()
                    &&& final(self).lines() == old(self).lines() + array_lines(
                        old(self).of(),
                        key@,
                        row@,
                        data@,
                    )
                },
                (Err(e), Some(text)) => e@ == text && *final(self) == *old(self),
                _ => false,
            },
    {
        let rows = match series_rows(data) {
            Ok(rows) => rows,
            Err(e) => {
                return Err(e);
            },
        };
        let stride: usize = data.array.dtype.size();
        if self.element_bytes != 0 && self.element_bytes != stride {
            return Err("two arrays in one partition disagree about their dtype".to_string());
        }
        let stored_width: usize = match element_count(&per_step_shape(row)) {
            Some(0) => 1,
            Some(n) => n,
            None => 1,
        };
        if !self.table.key.value_kind.is_composite() && stored_width != self.width {
            let mut e = "series '".to_string();
            e.append(row.name.as_str());
            e.append("' has element width ");
            e.append(decimal(stored_width as u64).as_str());
            e.append(", but its partition is ");
            e.append(decimal(self.width as u64).as_str());
            return Err(e);
        }
        if stored_width > self.width {
            let mut e = "series '".to_string();
            e.append(row.name.as_str());
            e.append("' is wider (");
            e.append(decimal(stored_width as u64).as_str());
            e.append(") than the partition it was placed in (");
            e.append(decimal(self.width as u64).as_str());
            e.append(")");
            return Err(e);
        }
        if !agree_in_form(data.time_series_type(), self.table.key.time_series_type) {
            let mut e = "series '".to_string();
            e.append(row.name.as_str());
            e.append("' holds a ");
            e.append(data.time_series_type().as_str());
            e.append(", but its partition holds ");
            e.append(self.table.key.time_series_type.as_str());
            return Err(e);
        }
        let cell_bytes: usize = match inside(&rows, stored_width, stride, data.array.bytes.len()) {
            Some(n) => n,
            None => {
                let mut e = "series '".to_string();
                e.append(row.name.as_str());
                e.append("' is shorter than its shape");
                return Err(e);
            },
        };
        let ghost before = *self;
        let ghost size = data@.array.dtype.bytes();
        let ghost stored = (stored_width * stride) as int;
        let ghost width = (self.width * stride) as int;
        let ghost wanted = lines_of(key@, rows@, data@.array.bytes, stored, width);
        proof {
            emitted_rows_fit(data@);
            assert(self.width * stride <= self.width * 8) by (nonlinear_arith)
                requires
                    stride <= 8,
                    self.width >= 0,
            ;
            assert((self.width - stored_width) * stride == self.width * stride - stored_width
                * stride) by (nonlinear_arith);
            assert(stored_width * stride >= 0) by (nonlinear_arith);
            assert(self.width * stride >= stored_width * stride) by (nonlinear_arith)
                requires
                    self.width >= stored_width,
            ;
        }
        let pad: usize = (self.width - stored_width) * stride;
        self.element_bytes = stride;
        proof {
            assert(0 * (self.width * self.element_bytes) == 0);
            assert(self.row_bytes() == width);
            assert forall|j: int| 0 <= j < self.lines().len() implies self.lines()[j]
                == before.lines()[j] by {}
            assert(self.lines() =~= before.lines());
            assert(before.lines() + wanted.take(0) =~= before.lines());
        }
        let mut k: usize = 0;
        while k < rows.len()
            invariant
                k <= rows.len(),
                self.wf(),
                self.table == before.table,
                self.size() == stride,
                stride > 0,
                stride == size,
                self.row_bytes() == width,
                rows@.len() > 0 ==> cell_bytes == stored,
                stored + pad == width,
                pad == width - stored,
                rows_inside(rows@, stored, data.array.bytes@.len() as int),
                wanted == lines_of(key@, rows@, data@.array.bytes, stored, width),
                same_form(data@.axis.kind(), self.table.key@.kind),
                rows_of(data@) is Ok,
                rows@ == rows_of(data@)->Ok_0,
                forall|j: int|
                    0 <= j < rows@.len() ==> fits_kind(
                        (#[trigger] rows@[j]).issue,
                        rows@[j].lane,
                        data@.axis.kind(),
                    ),
                self.lines() == before.lines() + wanted.take(k as int),
            decreases rows.len() - k,
        {
            let ghost offset = rows@[k as int].offset as int;
            let length: usize = data.array.bytes.len();
            proof {
                assert(fits_kind(rows@[k as int].issue, rows@[k as int].lane, data@.axis.kind()));
                cell_inside(offset, offset + 1, stored);
                assert((offset + 1) * stored <= length);
            }
            let start: usize = rows[k].offset * cell_bytes;
            self.push_line(key, &rows[k], &data.array.bytes, start, cell_bytes, pad);
            proof {
                assert(wanted.take(k + 1) =~= wanted.take(k as int).push(wanted[k as int]));
                assert(self.lines() =~= before.lines() + wanted.take(k + 1));
            }
            k += 1;
        }
        proof {
            assert(wanted.take(k as int) =~= wanted);
        }
        Ok(rows.len())
    }
}

/// Takes the first `n` items out of a list.
fn take_front<T>(list: &mut Vec<T>, n: usize) -> (r: Vec<T>)
    requires
        n <= old(list)@.len(),
    ensures
        r@ == old(list)@.take(n as int),
        final(list)@ == old(list)@.skip(n as int),
{
    let mut front = list.split_off(n);
    core::mem::swap(list, &mut front);
    proof {
        assert(front@ =~= old(list)@.take(n as int));
        assert(list@ =~= old(list)@.skip(n as int));
    }
    front
}

/// The rows of a buffer of whole rows, when the first `n` are taken out.
proof fn cells_of_parts(bytes: Seq<u8>, n: int, total: int, width: int)
    requires
        0 <= n <= total,
        0 <= width,
        bytes.len() == total * width,
    ensures
        0 <= n * width <= bytes.len(),
        bytes.skip(n * width).len() == (total - n) * width,
        forall|k: int|
            0 <= k < n ==> #[trigger] cell(bytes.take(n * width), k, width) == cell(
                bytes,
                k,
                width,
            ),
        forall|k: int|
            0 <= k < total - n ==> #[trigger] cell(bytes.skip(n * width), k, width) == cell(
                bytes,
                n + k,
                width,
            ),
{
    assert(0 <= n * width <= total * width && (total - n) * width == total * width - n * width)
        by (nonlinear_arith)
        requires
            0 <= n <= total,
            0 <= width,
    ;
    assert forall|k: int| 0 <= k < n implies #[trigger] cell(bytes.take(n * width), k, width)
        == cell(bytes, k, width) by {
        cell_inside(k, n, width);
        assert(cell(bytes.take(n * width), k, width) =~= cell(bytes, k, width));
    }
    assert forall|k: int| 0 <= k < total - n implies #[trigger] cell(
        bytes.skip(n * width),
        k,
        width,
    ) == cell(bytes, n + k, width) by {
        cell_inside(k, total - n, width);
        cell_inside(n + k, total, width);
        assert((n + k) * width == n * width + k * width) by (nonlinear_arith);
        assert(cell(bytes.skip(n * width), k, width) =~= cell(bytes, n + k, width));
    }
}

impl<'a> ValuesBuffer<'a> {
    /// Takes the first `n` rows as a batch in the columns of the values file, leaving the rest
    /// buffered. Nothing is taken where the rows are not rows of the value column.
    pub fn take(&mut self, n: usize) -> (r: Result<Vec<ColumnData>, String>)
        requires
            old(self).wf(),
            0 < n <= old(self).lines().len(),
        ensures
            final(self).wf(),
            final(self).of() == old(self).of(),
            final(self).size() == old(self).size(),
            final(self).row_bytes() == old(self).row_bytes(),
            match r {
                Ok(batch) => {
                    &&& rows_match(old(self).of(), old(self).row_bytes())
                    &&& holds_table(
                        batch@,
                        value_schema(old(self).of()),
                        cells_of(old(self).lines().take(n as int)),
                    )
                    &&& final(self).lines() == old(self).lines().skip(n as int)
                },
                Err(e) => {
                    &&& !rows_match(old(self).of(), old(self).row_bytes())
                    &&& e@ == misfit_text(old(self).of(), n as nat, old(self).row_bytes())
                    &&& *final(self) == *old(self)
                },
            },
    {
        let ghost before = *self;
        let ghost total = self.timestamp@.len() as int;
        let ghost width = self.row_bytes() as int;
        let ghost dims = value_dims(self.table.key@.value, self.table.composite_width);
        let length: usize = self.value.len();
        proof {
            cells_of_parts(self.value@, n as int, total, width);
            assert(self.width * self.element_bytes >= 0) by (nonlinear_arith);
            assert(self.width * self.element_bytes <= self.width * 8) by (nonlinear_arith)
                requires
                    self.element_bytes <= 8,
                    self.width >= 0,
            ;
        }
        let row_bytes: usize = self.width * self.element_bytes;
        let dtype = self.table.key.value_kind.leaf_dtype();
        let mut element = self.table.element_shape();
        let fits = match element_count(&element) {
            Some(count) => match times(count, dtype.size()) {
                Some(expected) => expected == row_bytes,
                None => false,
            },
            None => {
                proof {
                    assert(product(dims) * dtype.bytes() >= product(dims)) by (nonlinear_arith)
                        requires
                            dtype.bytes() >= 1,
                            product(dims) >= 0,
                    ;
                }
                false
            },
        };
        let mut shape: Vec<usize> = Vec::new();
        shape.push(n);
        shape.append(&mut element);
        proof {
            assert(shape@ =~= seq![n] + dims);
        }
        if !fits {
            return Err(wrong_length(dtype, &shape, n * row_bytes));
        }
        let bytes = take_front(&mut self.value, n * row_bytes);
        let values = TypedArray { dtype, shape, bytes };
        proof {
            product_of_both(seq![n], dims);
            product_of_one(n);
            let leaf = dtype.bytes();
            let one = product(dims);
            assert((n * one) * leaf == n * (one * leaf)) by (nonlinear_arith);
            assert(element_dims(shape@) =~= dims);
        }
        let kind = self.table.key.time_series_type;
        let mut columns: Vec<ColumnData> = Vec::new();
        columns.push(ColumnData::Text(take_front(&mut self.data_hash, n)));
        columns.push(ColumnData::Text(take_front(&mut self.time_axis, n)));
        columns.push(ColumnData::Instants(take_front(&mut self.timestamp, n)));
        if kind.is_forecast() {
            columns.push(ColumnData::Instants(take_front(&mut self.issue_time, n)));
        }
        match kind {
            TimeSeriesType::Probabilistic => {
                columns.push(ColumnData::Floats(take_front(&mut self.percentile, n)));
            },
            TimeSeriesType::Scenarios => {
                columns.push(ColumnData::Integers(take_front(&mut self.scenario, n)));
            },
            _ => {},
        }
        columns.push(ColumnData::Values(values));
        proof {
            assert(self.lines() =~= before.lines().skip(n as int));
            let rows = cells_of(before.lines().take(n as int));
            let schema = value_schema(before.of());
            assert(rows.len() == n);
            assert forall|c: int, k: int| 0 <= c < columns@.len() && 0 <= k < n implies
                #[trigger] columns@[c].at(k) == rows[k][c] by {
                assert(rows[k] == before.line(k).cells());
            }
        }
        Ok(columns)
    }
}

/// Whether every row's element lies inside so many bytes, and if it does, how many bytes one
/// element has.
fn inside(rows: &Vec<ValueRow>, stored_width: usize, stride: usize, length: usize) -> (r: Option<
    usize,
>)
    requires
        stored_width > 0,
        stride > 0,
    ensures
        match r {
            Some(n) => rows_inside(rows@, stored_width * stride, length as int) && (rows@.len() > 0
                ==> n == stored_width * stride),
            None => !rows_inside(rows@, stored_width * stride, length as int),
        },
{
    if rows.len() == 0 {
        return Some(0);
    }
    let n: usize = match times(stored_width, stride) {
        Some(n) => n,
        None => {
            proof {
                let stored = stored_width * stride;
                let more = rows@[0].offset + 1;
                assert(more * stored >= stored) by (nonlinear_arith)
                    requires
                        more >= 1,
                        stored >= 0,
                ;
                assert(!rows_inside(rows@, stored, length as int));
            }
            return None;
        },
    };
    let mut k: usize = 0;
    while k < rows.len()
        invariant
            k <= rows.len(),
            n == stored_width * stride,
            forall|j: int|
                0 <= j < k ==> ((#[trigger] rows@[j]).offset + 1) * n <= length,
        decreases rows.len() - k,
    {
        let offset: usize = rows[k].offset;
        let fits = match times(offset, n) {
            Some(start) => start <= length && n <= length - start,
            None => false,
        };
        proof {
            assert((offset + 1) * n == offset * n + n) by (nonlinear_arith);
        }
        if !fits {
            proof {
                assert(rows@[k as int].offset == offset);
                assert(!rows_inside(rows@, stored_width * stride, length as int));
            }
            return None;
        }
        k += 1;
    }
    Some(n)
}

// ---- Row groups -----------------------------------------------------------------------------

/// Whether the rows held are written out before an array of `coming` rows is taken up: they
/// are, if together they would be more than a group.
pub open spec fn cut_first(held: nat, coming: nat) -> bool {
    held > 0 && held + coming > ROW_GROUP_TARGET
}

/// How many row groups an array of `coming` rows completes, where `held` rows are waiting.
pub open spec fn group_count(held: nat, coming: nat) -> nat {
    if cut_first(held, coming) {
        1 + coming / (ROW_GROUP_TARGET as nat)
    } else {
        (held + coming) / (ROW_GROUP_TARGET as nat)
    }
}

/// Where the `i`-th of those groups begins, among the rows waiting and coming.
pub open spec fn group_bound(held: nat, coming: nat, i: int) -> int {
    if !cut_first(held, coming) {
        i * ROW_GROUP_TARGET
    } else if i == 0 {
        0
    } else {
        held + (i - 1) * ROW_GROUP_TARGET
    }
}

/// The bounds of the groups lie among the rows, no group is larger than the target, what is
/// left waiting is smaller, and only an array that is larger than the target by itself is
/// divided between groups.
pub proof fn arrays_stay_whole(held: nat, coming: nat, i: int)
    requires
        held < ROW_GROUP_TARGET,
        0 <= i <= group_count(held, coming),
    ensures
        0 <= group_bound(held, coming, i) <= held + coming,
        held + coming - group_bound(held, coming, group_count(held, coming) as int)
            < ROW_GROUP_TARGET,
        i < group_count(held, coming) ==> 0 < group_bound(held, coming, i + 1) - group_bound(
            held,
            coming,
            i,
        ) <= ROW_GROUP_TARGET,
        held < group_bound(held, coming, i) < held + coming ==> coming > ROW_GROUP_TARGET,
{
    let t = ROW_GROUP_TARGET as int;
    let all = held + coming;
    if cut_first(held, coming) {
        let q = coming as int / t;
        assert(q * t <= coming < q * t + t) by (nonlinear_arith)
            requires
                q == coming as int / t,
                t == 1_000_000,
        ;
        if i > 0 {
            assert(0 <= (i - 1) * t <= q * t) by (nonlinear_arith)
                requires
                    0 <= i - 1 <= q,
                    t == 1_000_000,
            ;
        }
        assert(i * t == (i - 1) * t + t) by (nonlinear_arith);
        if held < group_bound(held, coming, i) {
            assert((i - 1) * t >= t) by (nonlinear_arith)
                requires
                    i - 1 >= 1,
                    t == 1_000_000,
            ;
        }
    } else {
        let q = all as int / t;
        assert(q * t <= all < q * t + t) by (nonlinear_arith)
            requires
                q == all as int / t,
                t == 1_000_000,
        ;
        assert(0 <= i * t <= q * t) by (nonlinear_arith)
            requires
                0 <= i <= q,
                t == 1_000_000,
        ;
        assert((i + 1) * t == i * t + t) by (nonlinear_arith);
        if 0 < i {
            assert(i * t >= t) by (nonlinear_arith)
                requires
                    i >= 1,
                    t == 1_000_000,
            ;
        }
    }
}

/// What writing one array out came to.
#[derive(Debug)]
pub struct WrittenArray {
    /// How many value rows the array has.
    pub rows: usize,
    /// The row groups that are complete now, in order.
    pub groups: Vec<Vec<ColumnData>>,
}

/// Why an array cannot be written out, if it cannot.
pub open spec fn write_fault(
    table: PartitionSchema,
    held: nat,
    size: nat,
    row: MetadataView,
    data: DataView,
) -> Option<Seq<char>> {
    match rows_of(data) {
        Err(text) => Some(text),
        Ok(rows) => if cut_first(held, rows.len()) && !rows_match(table, table.width() * size) {
            Some(misfit_text(table, held, table.width() * size))
        } else {
            match array_fault(table, size, row, data) {
                Some(text) => Some(text),
                None => {
                    let row_bytes = table.width() * data.array.dtype.bytes();
                    let waiting = if cut_first(held, rows.len()) {
                        rows.len()
                    } else {
                        held + rows.len()
                    };
                    if waiting >= ROW_GROUP_TARGET && !rows_match(table, row_bytes) {
                        Some(misfit_text(table, ROW_GROUP_TARGET as nat, row_bytes))
                    } else {
                        None
                    }
                },
            }
        },
    }
}

/// Whether groups hold the rows between their bounds.
pub open spec fn holds_groups(
    groups: Seq<Vec<ColumnData>>,
    table: PartitionSchema,
    all: Seq<Line>,
    held: nat,
    coming: nat,
) -> bool {
    forall|i: int|
        0 <= i < groups.len() ==> holds_table(
            (#[trigger] groups[i])@,
            value_schema(table),
            cells_of(
                all.subrange(group_bound(held, coming, i), group_bound(held, coming, i + 1)),
            ),
        )
}

impl<'a> ValuesBuffer<'a> {
    /// Takes up one array, and hands out the row groups that are complete with it.
    ///
    /// A group ends on an array boundary whenever it can, so that the statistics of a group
    /// say something about the arrays in it.
    pub fn write_array(
        &mut self,
        key: &ArrayKey,
        row: &TimeSeriesMetadata,
        data: &TimeSeriesData,
    ) -> (r: Result<WrittenArray, String>)
        requires
            old(self).wf(),
            old(self).lines().len() < ROW_GROUP_TARGET,
            emittable(data@),
            product(row@.per_step()) <= usize::MAX,
        ensures
            final(self).wf(),
            final(self).of() == old(self).of(),
            match (
                r,
                write_fault(
                    old(self).of(),
                    old(self).lines().len(),
                    old(self).size(),
                    row@,
                    data@,
                ),
            ) {
                (Ok(w), None) => {
                    let held = old(self).lines().len();
                    let coming = rows_of(data@)->Ok_0.len();
                    let all = old(self).lines() + array_lines(old(self).of(), key@, row@, data@);
                    &&& w.rows == coming
                    &&& w.groups@.len() == group_count(held, coming)
                    &&& holds_groups(w.groups@, old(self).of(), all, held, coming)
                    &&& final(self).lines() == all.skip(
                        group_bound(held, coming, group_count(held, coming) as int),
                    )
                    &&& final(self).lines().len() < ROW_GROUP_TARGET
                    &&& final(self).size() == data@.array.dtype.bytes()
                },
                (Err(e), Some(text)) => e@ == text,
                _ => false,
            },
    {
        let ghost table = self.of();
        let ghost first = self.lines();
        let ghost held = self.lines().len();
        let coming: usize = match crate::rows::row_count(data) {
            Ok(n) => n,
            Err(e) => {
                return Err(e);
            },
        };
        let ghost all = first + array_lines(table, key@, row@, data@);
        let mut groups: Vec<Vec<ColumnData>> = Vec::new();
        let waiting: usize = self.len();
        let ghost cut = cut_first(held, coming as nat);
        if waiting > 0 && coming > ROW_GROUP_TARGET - waiting {
            match self.take(waiting) {
                Ok(batch) => {
                    groups.push(batch);
                    proof {
                        assert(first.take(waiting as int) =~= all.subrange(
                            group_bound(held, coming as nat, 0),
                            group_bound(held, coming as nat, 1),
                        ));
                    }
                },
                Err(e) => {
                    return Err(e);
                },
            }
        }
        let rows: usize = match self.push_array(key, row, data) {
            Ok(n) => n,
            Err(e) => {
                return Err(e);
            },
        };
        proof {
            assert(self.lines() =~= all.skip(
                group_bound(held, coming as nat, groups@.len() as int),
            ));
        }
        while self.len() >= ROW_GROUP_TARGET
            invariant
                self.wf(),
                self.of() == table,
                table == old(self).of(),
                held == old(self).lines().len(),
                self.size() == data@.array.dtype.bytes(),
                self.row_bytes() == table.width() * data@.array.dtype.bytes(),
                rows == coming,
                held < ROW_GROUP_TARGET,
                all.len() == held + coming,
                cut == cut_first(held, coming as nat),
                cut ==> groups@.len() >= 1,
                groups@.len() <= group_count(held, coming as nat),
                self.lines() == all.skip(group_bound(held, coming as nat, groups@.len() as int)),
                self.lines().len() == all.len() - group_bound(
                    held,
                    coming as nat,
                    groups@.len() as int,
                ),
                holds_groups(groups@, table, all, held, coming as nat),
                rows_of(data@) is Ok,
                rows_of(data@)->Ok_0.len() == coming,
                groups@.len() > (if cut { 1int } else { 0int }) ==> rows_match(table, self.row_bytes()),
                write_fault(table, held, old(self).size(), row@, data@) == (if (if cut {
                    coming as int
                } else {
                    held + coming
                }) >= ROW_GROUP_TARGET && !rows_match(table, self.row_bytes()) {
                    Some(misfit_text(table, ROW_GROUP_TARGET as nat, self.row_bytes()))
                } else {
                    None
                }),
            decreases self.lines().len(),
        {
            let ghost i = groups@.len() as int;
            let ghost here = self.lines();
            match self.take(ROW_GROUP_TARGET) {
                Ok(batch) => {
                    groups.push(batch);
                    proof {
                        arrays_stay_whole(held, coming as nat, i);
                        let from = group_bound(held, coming as nat, i);
                        let to = group_bound(held, coming as nat, i + 1);
                        let t = ROW_GROUP_TARGET as int;
                        assert((i + 1) * t == i * t + t && i * t == (i - 1) * t + t)
                            by (nonlinear_arith);
                        assert(to == from + t);
                        assert(here.take(t) =~= all.subrange(from, to));
                        assert(self.lines() =~= all.skip(to));
                        if cut {
                            assert(i <= coming as int / t) by (nonlinear_arith)
                                requires
                                    (i - 1) * t + t <= coming,
                                    t == 1_000_000,
                            ;
                        } else {
                            assert(i + 1 <= (held + coming) / t) by (nonlinear_arith)
                                requires
                                    i * t + t <= held + coming,
                                    t == 1_000_000,
                            ;
                        }
                    }
                },
                Err(e) => {
                    return Err(e);
                },
            }
        }
        proof {
            let n = groups@.len() as int;
            let t = ROW_GROUP_TARGET as int;
            arrays_stay_whole(held, coming as nat, n);
            if cut {
                assert(n == 1 + coming as int / t) by (nonlinear_arith)
                    requires
                        0 <= coming - (n - 1) * t < t,
                        t == 1_000_000,
                ;
            } else {
                assert(n == (held + coming) / t) by (nonlinear_arith)
                    requires
                        0 <= held + coming - n * t < t,
                        t == 1_000_000,
                ;
            }
        }
        Ok(WrittenArray { rows, groups })
    }

    /// The last row group: whatever is still waiting.
    pub fn finish(&mut self) -> (r: Result<Option<Vec<ColumnData>>, String>)
        requires
            old(self).wf(),
        ensures
            final(self).wf(),
            final(self).of() == old(self).of(),
            match r {
                Ok(None) => old(self).lines().len() == 0 && *final(self) == *old(self),
                Ok(Some(batch)) => {
                    &&& old(self).lines().len() > 0
                    &&& rows_match(old(self).of(), old(self).row_bytes())
                    &&& holds_table(
                        batch@,
                        value_schema(old(self).of()),
                        cells_of(old(self).lines()),
                    )
                    &&& final(self).lines().len() == 0
                },
                Err(e) => {
                    &&& old(self).lines().len() > 0
                    &&& !rows_match(old(self).of(), old(self).row_bytes())
                    &&& e@ == misfit_text(
                        old(self).of(),
                        old(self).lines().len(),
                        old(self).row_bytes(),
                    )
                },
            },
    {
        if self.is_empty() {
            return Ok(None);
        }
        let remaining: usize = self.len();
        proof {
            assert(self.lines().take(remaining as int) =~= self.lines());
        }
        match self.take(remaining) {
            Ok(batch) => Ok(Some(batch)),
            Err(e) => Err(e),
        }
    }
}

// ---- What is written of an array ------------------------------------------------------------

/// A row of a values file is the row of the series it came from: its key and its coordinates as
/// they are, and its element's bytes first, with nothing but zeros behind them up to the width of
/// the partition.
pub proof fn elements_are_written_whole(
    table: PartitionSchema,
    key: ArrayKeyView,
    row: MetadataView,
    data: DataView,
    element_bytes: nat,
    k: int,
)
    requires
        array_fault(table, element_bytes, row, data) is None,
        0 <= k < rows_of(data)->Ok_0.len(),
    ensures
        ({
            let line = array_lines(table, key, row, data)[k];
            let emitted = rows_of(data)->Ok_0[k];
            let size = data.array.dtype.bytes() as int;
            let stored = width_of(row.per_step()) * size;
            let width = table.width() * size;
            &&& array_lines(table, key, row, data).len() == rows_of(data)->Ok_0.len()
            &&& line.key == key
            &&& line.issue == emitted.issue
            &&& line.target == emitted.target
            &&& line.lane == emitted.lane
            &&& line.value.len() == width
            &&& forall|b: int|
                0 <= b < stored ==> #[trigger] line.value[b] == data.array.bytes[emitted.offset
                    * stored + b]
            &&& forall|b: int| stored <= b < width ==> #[trigger] line.value[b] == 0
        }),
{
    let rows = rows_of(data)->Ok_0;
    let size = data.array.dtype.bytes() as int;
    let stored = width_of(row.per_step()) * size;
    let width = table.width() * size;
    let offset = rows[k].offset as int;
    assert((rows[k].offset + 1) * stored <= data.array.bytes.len());
    assert(0 <= stored <= width) by (nonlinear_arith)
        requires
            stored == width_of(row.per_step()) * size,
            width == table.width() * size,
            width_of(row.per_step()) <= table.width(),
            size >= 0,
    ;
    crate::array::cell_inside(offset, offset + 1, stored);
    assert(data.array.dtype.bytes() * 1 == size);
    assert((width_of(row.per_step()) * data.array.dtype.bytes()) as int == stored);
    assert((table.width() * data.array.dtype.bytes()) as int == width);
}

/// A row group ends before it is full only to keep an array whole: only the first can, and only
/// where what was held would have overflowed with what comes. Every other is full.
pub proof fn groups_are_full_or_keep_an_array_whole(held: nat, coming: nat, i: int)
    requires
        held < ROW_GROUP_TARGET,
        0 <= i < group_count(held, coming),
    ensures
        ({
            let size = group_bound(held, coming, i + 1) - group_bound(held, coming, i);
            &&& size == ROW_GROUP_TARGET || (i == 0 && size == held && held > 0 && held + coming
                > ROW_GROUP_TARGET)
            &&& i == 0 && held > 0 && held + coming > ROW_GROUP_TARGET ==> size == held
        }),
        group_bound(held, coming, 0) == 0,
{
}

/// An array is taken exactly where it fits: its rows can be told, its numbers are those of the
/// rows before it, its steps are as wide as the partition's, or, of function data, no wider, it is
/// of a type with the same coordinates, and it has an element for every row.
pub proof fn arrays_are_taken_where_they_fit(
    table: PartitionSchema,
    element_bytes: nat,
    row: MetadataView,
    data: DataView,
)
    ensures
        ({
            let stored = width_of(row.per_step());
            let bytes = data.array.dtype.bytes();
            array_fault(table, element_bytes, row, data) is None <==> {
                &&& rows_of(data) is Ok
                &&& element_bytes == 0 || element_bytes == bytes
                &&& stored == table.width() || (table.key@.value is Composite && stored
                    < table.width())
                &&& data.axis.kind().forecasts() == table.key@.kind.forecasts()
                &&& (data.axis is Probabilistic) == (table.key@.kind is Probabilistic)
                &&& (data.axis is Scenarios) == (table.key@.kind is Scenarios)
                &&& forall|k: int|
                    0 <= k < rows_of(data)->Ok_0.len() ==> ((#[trigger] rows_of(
                        data,
                    )->Ok_0[k]).offset + 1) * (stored * bytes) <= data.array.bytes.len()
            }
        }),
{
    if rows_of(data) is Ok {
        let rows = rows_of(data)->Ok_0;
        let width = (width_of(row.per_step()) * data.array.dtype.bytes()) as int;
        assert forall|k: int| 0 <= k < rows.len() implies (rows[k].offset + 1) * width == (
        #[trigger] rows[k].offset + 1) * (width_of(row.per_step()) * data.array.dtype.bytes()) by {}
    }
}

/// Where the rows of a partition have the bytes its value column says, an array that fits is
/// written, whether or not its rows fill a group.
pub proof fn fitting_arrays_are_written(
    table: PartitionSchema,
    held: nat,
    size: nat,
    row: MetadataView,
    data: DataView,
)
    requires
        rows_match(table, table.width() * data.array.dtype.bytes()),
        held > 0 ==> size == data.array.dtype.bytes(),
    ensures
        write_fault(table, held, size, row, data) is None <==> array_fault(
            table,
            size,
            row,
            data,
        ) is None,
{
}

} // verus!
