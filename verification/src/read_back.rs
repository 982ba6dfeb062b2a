//! What a partition's two files give back of what was written into them.
use crate::array::{cell, cell_inside, product, product_of_both, product_of_one};
use crate::assemble::{group_rows, optional_text, static_axis};
use crate::cube::{forecast_fault, is_forecast_of, leading_axes, GridColumns};
use crate::features::features_text;
use crate::groups::{
    group_keys, opened_group, read_line, read_lines, with_line, GroupView, ReadLine, ReaderView,
};
use crate::instant::{no_steps_lead_nowhere, PeriodView};
use crate::kinds::{Dtype, TimeSeriesType};
use crate::merge::{halves_join_iff_they_hold_the_same_arrays, joined_from};
use crate::partition_tables::{series_lines, value_lines};
use crate::plan::{grouped, ArrayGroupView, Selected};
use crate::roundtrip::{
    columns_of, row_total, rows_determine_bytes, tells_apart, values_written,
    written_forecast_reads_back, written_layout,
};
use crate::rows::{emission_of, grid_of_axis, rows_of};
use crate::series::{AxisView, DataView};
use crate::series_file::{period_cell, series_line, text_cell, SeriesLine};
use crate::series_reader::{read_row, read_rows, SeriesRowView, SeriesView};
use crate::table::{gridded, key_before, key_order, literal_of, ArrayKeyView, PartitionSchema};
use crate::values::{array_lines, fits_kind, lines_of, same_form, Line};
use vstd::prelude::*;

verus! {

/// A row as it is read, in a file whose value column has this shape and dtype.
pub open spec fn as_read(line: Line, dims: Seq<usize>, dtype: Dtype) -> ReadLine {
    ReadLine {
        key: line.key,
        target: line.target,
        issue: line.issue,
        lane: line.lane,
        dims,
        dtype,
        value: line.value,
    }
}

/// Rows as they are read.
pub open spec fn all_read(lines: Seq<Line>, dims: Seq<usize>, dtype: Dtype) -> Seq<ReadLine> {
    Seq::new(lines.len(), |k: int| as_read(lines[k], dims, dtype))
}

/// The bytes of the first `n` rows.
pub open spec fn bytes_of(lines: Seq<Line>, n: int) -> Seq<u8>
    decreases n,
{
    if n <= 0 {
        seq![]
    } else {
        bytes_of(lines, n - 1) + lines[n - 1].value
    }
}

/// The array that the first `n` rows of one key make up.
pub open spec fn first_rows(
    lines: Seq<Line>,
    n: int,
    kind: TimeSeriesType,
    dims: Seq<usize>,
    dtype: Dtype,
    zone: Option<Seq<char>>,
) -> GroupView {
    GroupView {
        key: lines[0].key,
        timestamps: Seq::new(n as nat, |k: int| lines[k].target),
        issue: if kind.forecasts() {
            Seq::new(n as nat, |k: int| lines[k].issue->0)
        } else {
            seq![]
        },
        lanes: if kind == TimeSeriesType::Probabilistic || kind == TimeSeriesType::Scenarios {
            Seq::new(n as nat, |k: int| lines[k].lane->0)
        } else {
            seq![]
        },
        dims,
        dtype,
        bytes: bytes_of(lines, n),
        zone,
    }
}

/// The array that rows of one key make up.
pub open spec fn group_of(
    lines: Seq<Line>,
    kind: TimeSeriesType,
    dims: Seq<usize>,
    dtype: Dtype,
    zone: Option<Seq<char>>,
) -> GroupView {
    first_rows(lines, lines.len() as int, kind, dims, dtype, zone)
}

/// Whether rows are those of one array, with the coordinates of a type.
pub open spec fn one_array(lines: Seq<Line>, kind: TimeSeriesType) -> bool {
    &&& lines.len() > 0
    &&& forall|k: int| 0 <= k < lines.len() ==> (#[trigger] lines[k]).key == lines[0].key
    &&& forall|k: int|
        0 <= k < lines.len() ==> fits_kind((#[trigger] lines[k]).issue, lines[k].lane, kind)
}

proof fn rows_join_their_array(
    s: ReaderView,
    lines: Seq<Line>,
    n: int,
    kind: TimeSeriesType,
    dims: Seq<usize>,
    dtype: Dtype,
)
    requires
        one_array(lines, kind),
        0 < n <= lines.len(),
        !s.opened.contains(lines[0].key),
        s.open is Some ==> s.open->0.key != lines[0].key,
    ensures
        read_lines(s, all_read(lines, dims, dtype), n) == Ok::<_, Seq<char>>(
            ReaderView {
                ready: s.groups(),
                open: Some(first_rows(lines, n, kind, dims, dtype, s.zone)),
                opened: s.opened.push(lines[0].key),
                zone: s.zone,
            },
        ),
    decreases n,
{
    let reads = all_read(lines, dims, dtype);
    let line = reads[n - 1];
    assert(lines[n - 1].key == lines[0].key);
    assert(fits_kind(lines[n - 1].issue, lines[n - 1].lane, kind));
    if n == 1 {
        assert(read_lines(s, reads, 0) == Ok::<_, Seq<char>>(s));
        let opened = opened_group(line, s.zone);
        let grown = with_line(opened, line);
        let expected = first_rows(lines, 1, kind, dims, dtype, s.zone);
        assert(bytes_of(lines, 0) =~= seq![]);
        assert(grown.timestamps =~= expected.timestamps);
        assert(grown.issue =~= expected.issue);
        assert(grown.lanes =~= expected.lanes);
        assert(grown.bytes =~= expected.bytes);
        assert(grown == expected);
        assert(read_lines(s, reads, 1) == read_line(s, line));
    } else {
        rows_join_their_array(s, lines, n - 1, kind, dims, dtype);
        let before = first_rows(lines, n - 1, kind, dims, dtype, s.zone);
        let grown = with_line(before, line);
        let expected = first_rows(lines, n, kind, dims, dtype, s.zone);
        assert(grown.timestamps =~= expected.timestamps);
        assert(grown.issue =~= expected.issue);
        assert(grown.lanes =~= expected.lanes);
        assert(grown == expected);
    }
}

/// The rows of the first `n` arrays, one array after the other.
pub open spec fn flat_lines(written: Seq<Seq<Line>>, n: int) -> Seq<Line>
    decreases n,
{
    if n <= 0 {
        seq![]
    } else {
        flat_lines(written, n - 1) + written[n - 1]
    }
}

/// Whether the arrays of a values file are whole, and no two have the same key.
pub open spec fn arrays_apart(written: Seq<Seq<Line>>, kind: TimeSeriesType) -> bool {
    &&& forall|a: int| 0 <= a < written.len() ==> one_array(#[trigger] written[a], kind)
    &&& forall|a: int, b: int|
        #![trigger written[a], written[b]]
        0 <= a < b < written.len() ==> written[a][0].key != written[b][0].key
}

/// A reader that has read nothing, of a file whose time column has this zone.
pub open spec fn fresh_reader(zone: Option<Seq<char>>) -> ReaderView {
    ReaderView { ready: seq![], open: None, opened: seq![], zone }
}

/// The keys of the first `n` arrays.
pub open spec fn written_keys(written: Seq<Seq<Line>>, n: int) -> Seq<ArrayKeyView> {
    Seq::new(n as nat, |a: int| written[a][0].key)
}

/// The first `n` arrays as they are read back.
pub open spec fn groups_of(
    written: Seq<Seq<Line>>,
    n: int,
    kind: TimeSeriesType,
    dims: Seq<usize>,
    dtype: Dtype,
    zone: Option<Seq<char>>,
) -> Seq<GroupView> {
    Seq::new(n as nat, |a: int| group_of(written[a], kind, dims, dtype, zone))
}

/// A values file gives back the arrays that were written into it: as many, in the same order,
/// each under its key and with its own rows.
pub proof fn written_arrays_read_back(
    written: Seq<Seq<Line>>,
    n: int,
    kind: TimeSeriesType,
    dims: Seq<usize>,
    dtype: Dtype,
    zone: Option<Seq<char>>,
)
    requires
        arrays_apart(written, kind),
        0 <= n <= written.len(),
    ensures
        ({
            let lines = all_read(flat_lines(written, n), dims, dtype);
            match read_lines(fresh_reader(zone), lines, lines.len() as int) {
                Ok(s) => {
                    &&& s.groups() == groups_of(written, n, kind, dims, dtype, zone)
                    &&& s.opened == written_keys(written, n)
                    &&& s.zone == zone
                },
                Err(_) => false,
            }
        }),
    decreases n,
{
    let lines = all_read(flat_lines(written, n), dims, dtype);
    if n == 0 {
        assert(fresh_reader(zone).groups() =~= groups_of(written, 0, kind, dims, dtype, zone));
        assert(fresh_reader(zone).opened =~= written_keys(written, 0));
    } else {
        written_arrays_read_back(written, n - 1, kind, dims, dtype, zone);
        let earlier = all_read(flat_lines(written, n - 1), dims, dtype);
        let last = all_read(written[n - 1], dims, dtype);
        let s = read_lines(fresh_reader(zone), earlier, earlier.len() as int)->Ok_0;
        assert(lines =~= earlier + last);
        crate::groups::batches_do_not_matter(
            fresh_reader(zone),
            earlier,
            last,
            last.len() as int,
        );
        assert(one_array(written[n - 1], kind));
        assert(!s.opened.contains(written[n - 1][0].key)) by {
            if s.opened.contains(written[n - 1][0].key) {
                let a = choose|a: int|
                    0 <= a < s.opened.len() && s.opened[a] == written[n - 1][0].key;
                assert(written[a][0].key == written[n - 1][0].key);
            }
        }
        if s.open is Some {
            let groups = s.groups();
            assert(groups.last() == s.open->0);
            assert(groups.last() == groups_of(written, n - 1, kind, dims, dtype, zone).last());
            assert(groups.last().key == written[n - 2][0].key);
            assert(written[n - 2][0].key != written[n - 1][0].key);
        }
        rows_join_their_array(s, written[n - 1], written[n - 1].len() as int, kind, dims, dtype);
        let t = read_lines(s, last, last.len() as int)->Ok_0;
        assert(t.groups() =~= groups_of(written, n, kind, dims, dtype, zone));
        assert(t.opened =~= written_keys(written, n));
    }
}

// ---- The series half ----------------------------------------------------------------------------

/// The rows of the first `n` keys, one key after the other.
pub open spec fn flat_series(written: Seq<Seq<SeriesRowView>>, n: int) -> Seq<SeriesRowView>
    decreases n,
{
    if n <= 0 {
        seq![]
    } else {
        flat_series(written, n - 1) + written[n - 1]
    }
}

/// Whether the rows of a series file stand together by key, and no two keys are the same.
pub open spec fn keys_apart(written: Seq<Seq<SeriesRowView>>) -> bool {
    &&& forall|a: int| 0 <= a < written.len() ==> (#[trigger] written[a]).len() > 0
    &&& forall|a: int, k: int|
        0 <= a < written.len() && 0 <= k < written[a].len() ==> (#[trigger] written[a][k]).key
            == written[a][0].key
    &&& forall|a: int, b: int|
        #![trigger written[a], written[b]]
        0 <= a < b < written.len() ==> written[a][0].key != written[b][0].key
}

impl SeriesView {
    /// The rows held, by key.
    pub open spec fn groups(self) -> Seq<Seq<SeriesRowView>> {
        if self.open.len() > 0 {
            self.ready.push(self.open)
        } else {
            self.ready
        }
    }
}

proof fn series_rows_join(s: SeriesView, rows: Seq<SeriesRowView>, n: int)
    requires
        0 < n <= rows.len(),
        forall|k: int| 0 <= k < rows.len() ==> (#[trigger] rows[k]).key == rows[0].key,
        !s.opened.contains(rows[0].key),
        s.open.len() > 0 ==> s.open[0].key != rows[0].key,
    ensures
        read_rows(s, rows, n) == Ok::<_, Seq<char>>(
            SeriesView {
                ready: s.groups(),
                open: rows.take(n),
                opened: s.opened.push(rows[0].key),
            },
        ),
    decreases n,
{
    assert(rows[n - 1].key == rows[0].key);
    if n == 1 {
        assert(read_rows(s, rows, 0) == Ok::<_, Seq<char>>(s));
        assert(rows.take(1) =~= seq![rows[0]]);
        assert(read_rows(s, rows, 1) == read_row(s, rows[0]));
    } else {
        series_rows_join(s, rows, n - 1);
        assert(rows.take(n) =~= rows.take(n - 1).push(rows[n - 1]));
        assert(rows.take(n - 1)[0] == rows[0]);
    }
}

proof fn rows_continue(s: SeriesView, first: Seq<SeriesRowView>, second: Seq<SeriesRowView>, n: int)
    requires
        0 <= n <= second.len(),
    ensures
        read_rows(s, first + second, first.len() + n) == (match read_rows(
            s,
            first,
            first.len() as int,
        ) {
            Err(text) => Err(text),
            Ok(t) => read_rows(t, second, n),
        }),
    decreases n,
{
    if n > 0 {
        rows_continue(s, first, second, n - 1);
        assert((first + second)[first.len() + n - 1] == second[n - 1]);
    } else {
        same_rows_read_the_same(s, first, first + second, first.len() as int);
    }
}

proof fn same_rows_read_the_same(
    s: SeriesView,
    a: Seq<SeriesRowView>,
    b: Seq<SeriesRowView>,
    n: int,
)
    requires
        0 <= n <= a.len(),
        n <= b.len(),
        forall|k: int| 0 <= k < n ==> a[k] == b[k],
    ensures
        read_rows(s, a, n) == read_rows(s, b, n),
    decreases n,
{
    if n > 0 {
        same_rows_read_the_same(s, a, b, n - 1);
        assert(a[n - 1] == b[n - 1]);
    }
}

/// The keys of the first `n` lists of rows.
pub open spec fn series_keys(written: Seq<Seq<SeriesRowView>>, n: int) -> Seq<ArrayKeyView> {
    Seq::new(n as nat, |a: int| written[a][0].key)
}

/// A series file gives back the rows that were written into it, every row of one key together
/// and in the same order.
pub proof fn written_rows_read_back(written: Seq<Seq<SeriesRowView>>, n: int)
    requires
        keys_apart(written),
        0 <= n <= written.len(),
    ensures
        ({
            let rows = flat_series(written, n);
            let empty = SeriesView { ready: seq![], open: seq![], opened: seq![] };
            match read_rows(empty, rows, rows.len() as int) {
                Ok(s) => s.groups() == written.take(n) && s.opened == series_keys(written, n),
                Err(_) => false,
            }
        }),
    decreases n,
{
    let empty = SeriesView { ready: seq![], open: seq![], opened: seq![] };
    if n == 0 {
        assert(empty.groups() =~= written.take(0));
        assert(empty.opened =~= series_keys(written, 0));
    } else {
        written_rows_read_back(written, n - 1);
        let earlier = flat_series(written, n - 1);
        let last = written[n - 1];
        let s = read_rows(empty, earlier, earlier.len() as int)->Ok_0;
        rows_continue(empty, earlier, last, last.len() as int);
        assert(!s.opened.contains(last[0].key)) by {
            if s.opened.contains(last[0].key) {
                let a = choose|a: int| 0 <= a < s.opened.len() && s.opened[a] == last[0].key;
                assert(written[a][0].key == written[n - 1][0].key);
            }
        }
        if s.open.len() > 0 {
            assert(s.groups().last() == s.open);
            assert(s.groups().last() == written.take(n - 1).last());
            assert(s.open == written[n - 2]);
            assert(written[n - 2][0].key != written[n - 1][0].key);
        }
        assert forall|k: int| 0 <= k < last.len() implies (#[trigger] last[k]).key
            == last[0].key by {
            assert(written[n - 1][k].key == written[n - 1][0].key);
        }
        series_rows_join(s, last, last.len() as int);
        let t = read_rows(s, last, last.len() as int)->Ok_0;
        assert(last.take(last.len() as int) =~= last);
        assert(t.groups() =~= written.take(n));
        assert(t.opened =~= series_keys(written, n));
    }
}

/// Two halves that were written with the same keys join, and every array is filed.
pub proof fn written_halves_join(
    values: Seq<Seq<Line>>,
    series: Seq<Seq<SeriesRowView>>,
    kind: TimeSeriesType,
    dims: Seq<usize>,
    dtype: Dtype,
    zone: Option<Seq<char>>,
)
    requires
        arrays_apart(values, kind),
        keys_apart(series),
        values.len() == series.len(),
        forall|a: int|
            #![trigger values[a], series[a]]
            0 <= a < values.len() ==> values[a][0].key == series[a][0].key,
    ensures
        joined_from(
            group_keys(groups_of(values, values.len() as int, kind, dims, dtype, zone)),
            series_keys(series, series.len() as int),
            0,
        ) == Ok::<_, Seq<char>>(values.len() as int),
{
    let v = group_keys(groups_of(values, values.len() as int, kind, dims, dtype, zone));
    let s = series_keys(series, series.len() as int);
    assert forall|a: int| 0 <= a < v.len() implies v[a] == s[a] by {
        assert(values[a][0].key == series[a][0].key);
    }
    assert(v =~= s);
    halves_join_iff_they_hold_the_same_arrays(v, s);
}

/// A descriptor reads back as it was stored, but that a stored empty text reads back as absent:
/// the price of having no nullable column.
pub proof fn descriptors_read_back(stored: Option<Seq<char>>)
    ensures
        optional_text(text_cell(stored)) == (if stored == Some(Seq::<char>::empty()) {
            None
        } else {
            stored
        }),
{
    if stored is Some && stored->0.len() == 0 {
        assert(stored->0 =~= Seq::<char>::empty());
    }
}

// ---- Values -------------------------------------------------------------------------------------

/// The rows of an array that needs no padding.
pub open spec fn plain_lines(key: ArrayKeyView, data: DataView, dims: Seq<usize>) -> Seq<Line> {
    let width = (product(dims) * data.array.dtype.bytes()) as int;
    lines_of(key, rows_of(data)->Ok_0, data.array.bytes, width, width)
}

/// The array of a series that needs no padding, as it is read back.
pub open spec fn plain_group(
    key: ArrayKeyView,
    data: DataView,
    dims: Seq<usize>,
    zone: Option<Seq<char>>,
) -> GroupView {
    group_of(plain_lines(key, data, dims), data.axis.kind(), dims, data.array.dtype, zone)
}

proof fn bytes_come_in_order(key: ArrayKeyView, data: DataView, dims: Seq<usize>, n: int)
    requires
        rows_of(data) is Ok,
        0 <= n <= rows_of(data)->Ok_0.len(),
        forall|k: int|
            0 <= k < rows_of(data)->Ok_0.len() ==> (rows_of(data)->Ok_0[k].offset + 1) * (product(
                dims,
            ) * data.array.dtype.bytes()) <= data.array.bytes.len(),
    ensures
        ({
            let lines = plain_lines(key, data, dims);
            let width = (product(dims) * data.array.dtype.bytes()) as int;
            &&& bytes_of(lines, n).len() == n * width
            &&& forall|k: int|
                0 <= k < n ==> #[trigger] cell(bytes_of(lines, n), k, width) == cell(
                    data.array.bytes,
                    rows_of(data)->Ok_0[k].offset as int,
                    width,
                )
        }),
    decreases n,
{
    let lines = plain_lines(key, data, dims);
    let rows = rows_of(data)->Ok_0;
    let width = (product(dims) * data.array.dtype.bytes()) as int;
    assert(width >= 0) by (nonlinear_arith)
        requires
            width == product(dims) * data.array.dtype.bytes(),
    ;
    if n > 0 {
        bytes_come_in_order(key, data, dims, n - 1);
        let before = bytes_of(lines, n - 1);
        let value = lines[n - 1].value;
        let offset = rows[n - 1].offset as int;
        assert((rows[n - 1].offset + 1) * width <= data.array.bytes.len());
        cell_inside(offset, offset + 1, width);
        assert(value =~= cell(data.array.bytes, offset, width));
        assert(n * width == (n - 1) * width + width) by (nonlinear_arith);
        assert forall|k: int| 0 <= k < n implies #[trigger] cell(bytes_of(lines, n), k, width)
            == cell(data.array.bytes, rows[k].offset as int, width) by {
            if k < n - 1 {
                cell_inside(k, n - 1, width);
                assert(cell(before + value, k, width) =~= cell(before, k, width));
            } else {
                assert(cell(before + value, k, width) =~= value);
            }
        }
    } else {
        assert(0 * width == 0);
    }
}

/// The resolution that is written for a series: a regular one has one.
pub open spec fn written_resolution(axis: AxisView) -> Option<PeriodView> {
    match axis {
        AxisView::SingleTimeSeries { resolution, .. } => Some(resolution),
        _ => None,
    }
}

/// What a read gives back of a write: a static series is read back, from the rows it was
/// written as, with the axis it had and the array it had.
pub proof fn written_static_reads_back(
    data: DataView,
    key: ArrayKeyView,
    dims: Seq<usize>,
    zone: Option<Seq<char>>,
    inferred: Result<PeriodView, Seq<char>>,
    name: Seq<char>,
)
    requires
        !data.axis.kind().forecasts(),
        rows_of(data) is Ok,
        0 < rows_of(data)->Ok_0.len() <= usize::MAX,
        data.array.shape == seq![rows_of(data)->Ok_0.len() as usize] + dims,
        data.array.fits(),
        product(dims) > 0,
    ensures
        plain_group(key, data, dims, zone).array() == data.array,
        static_axis(
            data.axis.kind(),
            plain_group(key, data, dims, zone),
            written_resolution(data.axis),
            inferred,
            name,
        ) == Ok::<_, Seq<char>>(data.axis),
{
    let rows = rows_of(data)->Ok_0;
    let n = rows.len() as int;
    let lines = plain_lines(key, data, dims);
    let group = plain_group(key, data, dims, zone);
    let width = (product(dims) * data.array.dtype.bytes()) as int;
    assert(data.array.bytes.len() == n * width) by {
        product_of_both(seq![n as usize], dims);
        product_of_one(n as usize);
        assert((n * product(dims)) * data.array.dtype.bytes() == n * width) by (nonlinear_arith)
            requires
                width == product(dims) * data.array.dtype.bytes(),
        ;
    }
    assert(width > 0) by (nonlinear_arith)
        requires
            product(dims) > 0,
            data.array.dtype.bytes() > 0,
            width == product(dims) * data.array.dtype.bytes(),
    ;
    assert forall|k: int| 0 <= k < n implies rows[k].offset == k && (rows[k].offset + 1) * width
        <= data.array.bytes.len() by {
        cell_inside(k, n, width);
    }
    bytes_come_in_order(key, data, dims, n);
    assert forall|k: int| 0 <= k < n implies #[trigger] cell(group.bytes, k, width) == cell(
        data.array.bytes,
        k,
        width,
    ) by {
        assert(rows[k].offset == k);
        assert(cell(bytes_of(lines, n), k, width) == cell(
            data.array.bytes,
            rows[k].offset as int,
            width,
        ));
    }
    rows_determine_bytes(group.bytes, data.array.bytes, n, width);
    match data.axis {
        AxisView::SingleTimeSeries { initial_timestamp, resolution, length } => {
            let grid = crate::series::grid_instants(initial_timestamp, resolution, length as int);
            assert(group.timestamps =~= grid);
            assert(crate::series::grid_at(initial_timestamp, resolution, 0) is Some);
            no_steps_lead_nowhere(resolution.step, initial_timestamp);
            assert(group.timestamps[0] == initial_timestamp);
        },
        AxisView::NonSequentialTimeSeries { timestamps } => {
            assert(group.timestamps =~= timestamps);
        },
        AxisView::PersistentTimeSeries { timestamps } => {
            assert(group.timestamps =~= timestamps);
        },
        _ => {},
    }
}

/// What a read gives back of a write, for a forecast: the rows it was written as are accepted,
/// and what they are put together as has the axis it had and the array it had.
pub proof fn written_forecast_group_reads_back(
    data: DataView,
    key: ArrayKeyView,
    dims: Seq<usize>,
    steps: nat,
    columns: GridColumns,
    zone: Option<Seq<char>>,
    name: Seq<char>,
    back: DataView,
)
    requires
        data.axis.kind().forecasts(),
        steps == crate::rows::cube_steps(data),
        rows_of(data) is Ok,
        data.array.fits(),
        product(dims) > 0,
        ({
            let e = emission_of(data.axis, steps);
            let grid = grid_of_axis(data.axis);
            &&& tells_apart(e, grid.horizon.step, name)
            &&& data.array.shape == leading_axes(written_layout(e, name)) + dims
            &&& columns.resolution == Some(grid.resolution)
            &&& columns.interval.text.len() > 0
            &&& columns.interval.reading == Ok::<PeriodView, Seq<char>>(grid.interval)
            &&& columns.horizon.text.len() > 0
            &&& columns.horizon.reading == Ok::<PeriodView, Seq<char>>(grid.horizon)
        }),
    ensures
        ({
            let group = plain_group(key, data, dims, zone);
            let kind = data.axis.kind();
            &&& forecast_fault(kind, columns, group_rows(group), name) is None
            &&& is_forecast_of(back, kind, columns, group_rows(group), group.array(), name)
                ==> back.axis == data.axis && back.array == data.array
        }),
{
    let e = emission_of(data.axis, steps);
    let rows = e.rows(e.count as int);
    let n = row_total(e);
    let group = plain_group(key, data, dims, zone);
    let lines = plain_lines(key, data, dims);
    let read = columns_of(rows, e.lanes);
    let width = (product(dims) * data.array.dtype.bytes()) as int;
    let lanes = e.lanes.lanes() as int;
    let count = e.count as int;
    assert(rows_of(data)->Ok_0 == rows);
    crate::roundtrip::column_facts(e);
    assert(lanes * steps * count == count * steps * lanes) by (nonlinear_arith);
    assert(n > 0) by (nonlinear_arith)
        requires
            n == count * steps * lanes,
            count > 0,
            steps > 0,
            lanes > 0,
    ;
    crate::cube::cube_shape_holds(written_layout(e, name), dims, n);
    assert(data.array.bytes.len() == n * width) by {
        assert(n * product(dims) * data.array.dtype.bytes() == n * width) by (nonlinear_arith)
            requires
                width == product(dims) * data.array.dtype.bytes(),
        ;
    }
    assert(width >= 0) by (nonlinear_arith)
        requires
            width == product(dims) * data.array.dtype.bytes(),
    ;
    assert forall|k: int| 0 <= k < n implies (rows[k].offset + 1) * width
        <= data.array.bytes.len() by {
        crate::roundtrip::row_facts(e, k);
        let (w, s, l) = crate::roundtrip::coordinates(e, k);
        crate::cube::slot_inside(l, s, w, lanes, steps as int, count);
        let slot = crate::cube::slot_at(l, s, w, steps as int, count);
        assert(rows[k].offset == slot);
        cell_inside(slot, n, width);
    }
    bytes_come_in_order(key, data, dims, n);
    assert(group_rows(group).timestamps =~= read.timestamps);
    assert(group_rows(group).issue =~= read.issue);
    assert(group_rows(group).lanes =~= read.lanes);
    assert(group.bytes == bytes_of(lines, n));
    assert(values_written(group.array(), data.array, e, dims));
    written_forecast_reads_back(
        data.axis,
        data.array,
        dims,
        steps,
        columns,
        group.array(),
        name,
        back,
    );
}

// ---- A whole partition ----------------------------------------------------------------------

/// The rows of a partition's values file, by array: those of the first series of each.
pub open spec fn planned_lines(
    table: PartitionSchema,
    list: Seq<ArrayGroupView>,
    series: Seq<Selected>,
) -> Seq<Seq<Line>> {
    Seq::new(
        list.len(),
        |a: int|
            array_lines(
                table,
                list[a].key,
                series[list[a].members[0] as int].row@,
                series[list[a].members[0] as int].data@,
            ),
    )
}

/// A catalog row as it is read back: what its type has no column for is the empty text.
pub open spec fn row_of_line(line: SeriesLine, kind: TimeSeriesType) -> SeriesRowView {
    SeriesRowView {
        key: line.key,
        id: match line.row.id {
            Some(id) => id,
            None => 0,
        },
        owner_id: Some(line.row.owner_id),
        owner_type: line.row.owner_type,
        owner_category: line.row.owner_category.spelling(),
        kind: line.row.kind.spelling(),
        name: line.row.name,
        resolution: if gridded(kind) {
            period_cell(line.row.resolution)
        } else {
            seq![]
        },
        interval: if kind.forecasts() {
            period_cell(line.row.interval)
        } else {
            seq![]
        },
        horizon: if kind.forecasts() {
            period_cell(line.row.horizon)
        } else {
            seq![]
        },
        features: features_text(line.row.features),
        element_type: line.row.element_type.spelling(),
        time_reference: literal_of(line.row.time_reference),
        units: text_cell(line.row.units),
        quantity_kind: text_cell(line.row.quantity_kind),
        unit_system: match line.row.unit_system {
            Some(u) => u.spelling(),
            None => seq![],
        },
        component_field: text_cell(line.row.component_field),
        application_data: text_cell(line.row.application_data),
    }
}

/// The rows of a partition's series file, by array.
pub open spec fn planned_rows(
    kind: TimeSeriesType,
    list: Seq<ArrayGroupView>,
    series: Seq<Selected>,
) -> Seq<Seq<SeriesRowView>> {
    Seq::new(
        list.len(),
        |a: int|
            Seq::new(
                list[a].members.len(),
                |i: int|
                    row_of_line(
                        series_line(
                            list[a].key,
                            series[list[a].members[i] as int].row@,
                            series[list[a].members[i] as int].data@.axis,
                        ),
                        kind,
                    ),
            ),
    )
}

/// Whether every array of a partition can be written: the first series of each has values,
/// with the coordinates of the partition's type.
pub open spec fn writable(table: PartitionSchema, list: Seq<ArrayGroupView>, series: Seq<Selected>) -> bool {
    forall|a: int|
        0 <= a < list.len() ==> {
            let data = series[(#[trigger] list[a]).members[0] as int].data@;
            &&& rows_of(data) matches Ok(rows) && rows.len() > 0
            &&& same_form(data.axis.kind(), table.key@.kind)
        }
}

/// An exported partition imports: its values file holds each array once, its series file the
/// rows of each array together, and the two join, array by array.
pub proof fn planned_partition_joins(
    table: PartitionSchema,
    list: Seq<ArrayGroupView>,
    series: Seq<Selected>,
    members: Seq<usize>,
    dims: Seq<usize>,
    dtype: Dtype,
    zone: Option<Seq<char>>,
)
    requires
        grouped(list, series, members),
        writable(table, list, series),
    ensures
        ({
            let kind = table.key@.kind;
            let lines = planned_lines(table, list, series);
            let rows = planned_rows(kind, list, series);
            &&& arrays_apart(lines, kind)
            &&& keys_apart(rows)
            &&& joined_from(
                group_keys(groups_of(lines, lines.len() as int, kind, dims, dtype, zone)),
                series_keys(rows, rows.len() as int),
                0,
            ) == Ok::<_, Seq<char>>(list.len() as int)
        }),
{
    let kind = table.key@.kind;
    let lines = planned_lines(table, list, series);
    let rows = planned_rows(kind, list, series);
    assert forall|a: int| 0 <= a < lines.len() implies one_array(#[trigger] lines[a], kind)
        && lines[a][0].key == list[a].key by {
        let data = series[list[a].members[0] as int].data@;
        assert(rows_of(data)->Ok_0.len() > 0);
        crate::values::emitted_rows_fit(data);
        assert forall|k: int| 0 <= k < lines[a].len() implies fits_kind(
            (#[trigger] lines[a][k]).issue,
            lines[a][k].lane,
            kind,
        ) by {
            assert(fits_kind(
                rows_of(data)->Ok_0[k].issue,
                rows_of(data)->Ok_0[k].lane,
                data.axis.kind(),
            ));
        }
    }
    assert forall|a: int, b: int|
        #![trigger lines[a], lines[b]]
        0 <= a < b < lines.len() implies lines[a][0].key != lines[b][0].key by {
        assert(one_array(lines[a], kind));
        assert(one_array(lines[b], kind));
        assert(key_before(list[a].key, list[b].key));
        key_order(list[a].key, list[b].key, list[a].key);
    }
    assert forall|a: int| 0 <= a < rows.len() implies (#[trigger] rows[a]).len() > 0
        && rows[a][0].key == list[a].key by {
        assert(list[a].members.len() > 0);
    }
    assert forall|a: int, k: int| 0 <= a < rows.len() && 0 <= k < rows[a].len() implies (
    #[trigger] rows[a][k]).key == rows[a][0].key by {
        assert(rows[a].len() > 0);
    }
    assert forall|a: int, b: int|
        #![trigger rows[a], rows[b]]
        0 <= a < b < rows.len() implies rows[a][0].key != rows[b][0].key by {
        assert(rows[a].len() > 0);
        assert(rows[b].len() > 0);
        assert(key_before(list[a].key, list[b].key));
        key_order(list[a].key, list[b].key, list[a].key);
    }
    assert forall|a: int|
        #![trigger lines[a], rows[a]]
        0 <= a < lines.len() implies lines[a][0].key == rows[a][0].key by {
        assert(one_array(lines[a], kind));
        assert(rows[a].len() > 0);
    }
    written_halves_join(lines, rows, kind, dims, dtype, zone);
}

proof fn planned_lines_are_written(
    table: PartitionSchema,
    list: Seq<ArrayGroupView>,
    series: Seq<Selected>,
    n: int,
)
    requires
        0 <= n <= list.len(),
    ensures
        value_lines(table, list, series, n) == flat_lines(planned_lines(table, list, series), n),
    decreases n,
{
    if n > 0 {
        planned_lines_are_written(table, list, series, n - 1);
    }
}

/// The rows of a partition's series file as they are read.
pub open spec fn rows_read(
    kind: TimeSeriesType,
    list: Seq<ArrayGroupView>,
    series: Seq<Selected>,
    n: int,
) -> Seq<SeriesRowView> {
    series_lines(list, series, n).map_values(|line: SeriesLine| row_of_line(line, kind))
}

proof fn planned_rows_are_written(
    kind: TimeSeriesType,
    list: Seq<ArrayGroupView>,
    series: Seq<Selected>,
    n: int,
)
    requires
        0 <= n <= list.len(),
    ensures
        rows_read(kind, list, series, n) == flat_series(planned_rows(kind, list, series), n),
    decreases n,
{
    if n > 0 {
        planned_rows_are_written(kind, list, series, n - 1);
        let rows = planned_rows(kind, list, series);
        assert(rows_read(kind, list, series, n) =~= rows_read(kind, list, series, n - 1)
            + rows[n - 1]);
    } else {
        assert(rows_read(kind, list, series, n) =~= flat_series(
            planned_rows(kind, list, series),
            n,
        ));
    }
}

/// The two files of an exported partition read back: the values file as one group for each of
/// the partition's arrays, with every row of it, and the series file as the rows of each
/// array together, in the same order.
pub proof fn written_files_read_back(
    table: PartitionSchema,
    list: Seq<ArrayGroupView>,
    series: Seq<Selected>,
    members: Seq<usize>,
    dims: Seq<usize>,
    dtype: Dtype,
    zone: Option<Seq<char>>,
)
    requires
        grouped(list, series, members),
        writable(table, list, series),
    ensures
        ({
            let kind = table.key@.kind;
            let n = list.len() as int;
            let lines = all_read(value_lines(table, list, series, n), dims, dtype);
            let rows = rows_read(kind, list, series, n);
            let empty = SeriesView { ready: seq![], open: seq![], opened: seq![] };
            &&& match read_lines(fresh_reader(zone), lines, lines.len() as int) {
                Ok(s) => s.groups() == groups_of(
                    planned_lines(table, list, series),
                    n,
                    kind,
                    dims,
                    dtype,
                    zone,
                ),
                Err(_) => false,
            }
            &&& match read_rows(empty, rows, rows.len() as int) {
                Ok(s) => s.groups() == planned_rows(kind, list, series),
                Err(_) => false,
            }
        }),
{
    let kind = table.key@.kind;
    let n = list.len() as int;
    let written = planned_lines(table, list, series);
    let rows = planned_rows(kind, list, series);
    planned_partition_joins(table, list, series, members, dims, dtype, zone);
    planned_lines_are_written(table, list, series, n);
    planned_rows_are_written(kind, list, series, n);
    written_arrays_read_back(written, n, kind, dims, dtype, zone);
    written_rows_read_back(rows, n);
    assert(rows.take(n) =~= rows);
}

} // verus!
