//! What the tables of a partition hold is what is read out of them, column by column.
use crate::array::{cell, product};
use crate::batch::{
    column_in, first_off_calendar, first_unscaled, ints_of_column, level_dims, level_fault, scaled,
    stamps_in, text_of_column, values_in, zone_in, ListLevel, ReadBatch, ReadColumn, ReadData,
    TimeUnit, ValueEnd,
};
use crate::columns::Cell;
use crate::groups::{
    batch_view, batches_do_not_matter, issued_in, read_batch, read_lines, ReadLine, ReaderView,
};
use crate::instant::is_instant;
use crate::kinds::{Dtype, TimeSeriesType};
use crate::partition_tables::value_lines;
use crate::plan::{grouped, ArrayGroupView, Selected};
use crate::read_back::{
    all_read, as_read, bytes_of, flat_lines, fresh_reader, groups_of, planned_lines, row_of_line,
    writable, written_files_read_back,
};
use crate::schema;
use crate::series::opt_text;
use crate::series_file::{series_cells, SeriesLine};
use crate::series_reader::{first_text_fault, read_names, row_in, rows_in};
use crate::table::{
    gridded, series_columns, values_columns, ColumnTypeView, ColumnView, PartitionSchema, DATA_HASH,
    ISSUE_TIME, PERCENTILE, SCENARIO, TIMESTAMP, TIME_AXIS,
};
use crate::text::texts;
use crate::values::{cells_of, fits_kind, Line};
use vstd::prelude::*;

verus! {

// ---- Columns and their places -----------------------------------------------------------------

/// Whether a column that was read is a column of a schema, and holds its cells of these rows.
pub open spec fn carries(c: ReadColumn, v: ColumnView, rows: Seq<Seq<Cell>>, at: int) -> bool {
    &&& c.name@ == v.name
    &&& !c.nulls
    &&& match (v.column_type, c.data) {
        (ColumnTypeView::Text, ReadData::Text(t)) => {
            &&& t@.len() == rows.len()
            &&& forall|k: int|
                0 <= k < rows.len() ==> rows[k][at] == Cell::Text(#[trigger] texts(t@)[k])
        },
        (ColumnTypeView::Primitive(dtype), ReadData::Int64(t)) => {
            &&& dtype == Dtype::I64
            &&& t@.len() == rows.len()
            &&& forall|k: int| 0 <= k < rows.len() ==> rows[k][at] == Cell::Integer(#[trigger] t@[k])
        },
        (ColumnTypeView::Primitive(dtype), ReadData::Float64(t)) => {
            &&& dtype == Dtype::F64
            &&& t@.len() == rows.len()
            &&& forall|k: int| 0 <= k < rows.len() ==> rows[k][at] == Cell::Float(#[trigger] t@[k])
        },
        (ColumnTypeView::Timestamp(zone), ReadData::Timestamp { unit, zone: z, values }) => {
            &&& unit == TimeUnit::Millisecond
            &&& opt_text(z) == zone
            &&& values@.len() == rows.len()
            &&& forall|k: int|
                0 <= k < rows.len() ==> rows[k][at] == Cell::Instant(#[trigger] values@[k])
        },
        _ => false,
    }
}

/// Whether columns that were read are the columns of a schema, in its order, and hold these
/// rows.
pub open spec fn carry_table(
    list: Seq<ReadColumn>,
    schema: Seq<ColumnView>,
    rows: Seq<Seq<Cell>>,
) -> bool {
    &&& list.len() == schema.len()
    &&& forall|c: int| 0 <= c < list.len() ==> carries(#[trigger] list[c], schema[c], rows, c)
}

proof fn column_is_at(list: Seq<ReadColumn>, name: Seq<char>, at: int)
    requires
        0 <= at < list.len(),
        list[at].name@ == name,
        forall|j: int| 0 <= j < at ==> (#[trigger] list[j]).name@ != name,
    ensures
        column_in(list, name) == Some(list[at]),
    decreases list.len(),
{
    if at > 0 {
        let rest = list.skip(1);
        assert forall|j: int| 0 <= j < at - 1 implies (#[trigger] rest[j]).name@ != name by {
            assert(rest[j] == list[j + 1]);
        }
        assert(list[0].name@ != name);
        column_is_at(rest, name, at - 1);
    }
}

proof fn column_is_nowhere(list: Seq<ReadColumn>, name: Seq<char>)
    requires
        forall|j: int| 0 <= j < list.len() ==> (#[trigger] list[j]).name@ != name,
    ensures
        column_in(list, name) is None,
    decreases list.len(),
{
    if list.len() > 0 {
        let rest = list.skip(1);
        assert forall|j: int| 0 <= j < rest.len() implies (#[trigger] rest[j]).name@ != name by {
            assert(rest[j] == list[j + 1]);
        }
        assert(list[0].name@ != name);
        column_is_nowhere(rest, name);
    }
}

// ---- The series file ------------------------------------------------------------------------

/// Where the columns that describe the values begin.
spec fn tail_place(kind: TimeSeriesType) -> int {
    8 + (if gridded(kind) {
        2int
    } else {
        0int
    }) + (if kind == TimeSeriesType::SingleTimeSeries {
        1int
    } else {
        0int
    }) + (if kind.forecasts() {
        3int
    } else {
        0int
    })
}

/// Where a column of a series file is, by its length and its first letter, which tell the
/// names apart; -1 for a column that a type's files do not have.
spec fn series_place(kind: TimeSeriesType, name: Seq<char>) -> int {
    let n = name.len();
    let c = name[0];
    let tail = tail_place(kind);
    if n == 9 && c == 'd' {
        0
    } else if n == 9 && c == 't' {
        1
    } else if n == 2 {
        2
    } else if n == 8 && c == 'o' {
        3
    } else if n == 10 && c == 'o' {
        4
    } else if n == 14 && c == 'o' {
        5
    } else if n == 16 && c == 't' {
        6
    } else if n == 4 {
        7
    } else if n == 17 && gridded(kind) {
        8
    } else if n == 10 && c == 'r' && gridded(kind) {
        9
    } else if n == 6 && kind == TimeSeriesType::SingleTimeSeries {
        10
    } else if n == 8 && c == 'i' && kind.forecasts() {
        10
    } else if n == 7 && kind.forecasts() {
        11
    } else if n == 5 && c == 'c' && kind.forecasts() {
        12
    } else if n == 8 && c == 'f' {
        tail
    } else if n == 12 {
        tail + 1
    } else if n == 13 && c == 'e' {
        tail + 2
    } else if n == 14 && c == 't' {
        tail + 3
    } else if n == 5 && c == 'u' {
        tail + 4
    } else if n == 13 && c == 'q' {
        tail + 5
    } else if n == 11 {
        tail + 6
    } else if n == 15 {
        tail + 7
    } else if n == 16 && c == 'a' {
        tail + 8
    } else {
        -1
    }
}

proof fn series_names()
    ensures
        DATA_HASH@.len() == 9 && DATA_HASH@[0] == 'd',
        TIME_AXIS@.len() == 9 && TIME_AXIS@[0] == 't',
        schema::ID@.len() == 2,
        schema::OWNER_ID@.len() == 8 && schema::OWNER_ID@[0] == 'o',
        schema::OWNER_TYPE@.len() == 10 && schema::OWNER_TYPE@[0] == 'o',
        schema::OWNER_CATEGORY@.len() == 14 && schema::OWNER_CATEGORY@[0] == 'o',
        schema::TIME_SERIES_TYPE@.len() == 16 && schema::TIME_SERIES_TYPE@[0] == 't',
        schema::NAME@.len() == 4,
        schema::INITIAL_TIMESTAMP@.len() == 17,
        schema::RESOLUTION@.len() == 10 && schema::RESOLUTION@[0] == 'r',
        schema::LENGTH@.len() == 6,
        schema::INTERVAL@.len() == 8 && schema::INTERVAL@[0] == 'i',
        schema::HORIZON@.len() == 7,
        schema::COUNT@.len() == 5 && schema::COUNT@[0] == 'c',
        schema::FEATURES@.len() == 8 && schema::FEATURES@[0] == 'f',
        schema::ELEMENT_TYPE@.len() == 12,
        schema::ELEMENT_SHAPE@.len() == 13 && schema::ELEMENT_SHAPE@[0] == 'e',
        schema::TIME_REFERENCE@.len() == 14 && schema::TIME_REFERENCE@[0] == 't',
        schema::UNITS@.len() == 5 && schema::UNITS@[0] == 'u',
        schema::QUANTITY_KIND@.len() == 13 && schema::QUANTITY_KIND@[0] == 'q',
        schema::UNIT_SYSTEM@.len() == 11,
        schema::COMPONENT_FIELD@.len() == 15,
        schema::APPLICATION_DATA@.len() == 16 && schema::APPLICATION_DATA@[0] == 'a',
{
    reveal_strlit("data_hash");
    reveal_strlit("time_axis");
    reveal_strlit("id");
    reveal_strlit("owner_id");
    reveal_strlit("owner_type");
    reveal_strlit("owner_category");
    reveal_strlit("time_series_type");
    reveal_strlit("name");
    reveal_strlit("initial_timestamp");
    reveal_strlit("resolution");
    reveal_strlit("length");
    reveal_strlit("interval");
    reveal_strlit("horizon");
    reveal_strlit("count");
    reveal_strlit("features");
    reveal_strlit("element_type");
    reveal_strlit("element_shape");
    reveal_strlit("time_reference");
    reveal_strlit("units");
    reveal_strlit("quantity_kind");
    reveal_strlit("unit_system");
    reveal_strlit("component_field");
    reveal_strlit("application_data");
}

proof fn series_columns_are_placed(kind: TimeSeriesType, zone: Option<Seq<char>>, j: int)
    requires
        0 <= j < series_columns(kind, zone).len(),
    ensures
        series_place(kind, series_columns(kind, zone)[j].name) == j,
{
    series_names();
}

/// A column of a series file is found where the layout has it, and nothing is found where it
/// has none.
proof fn series_column_found(
    list: Seq<ReadColumn>,
    kind: TimeSeriesType,
    zone: Option<Seq<char>>,
    rows: Seq<Seq<Cell>>,
    name: Seq<char>,
)
    requires
        carry_table(list, series_columns(kind, zone), rows),
    ensures
        ({
            let at = series_place(kind, name);
            &&& 0 <= at < list.len() && series_columns(kind, zone)[at].name == name
                ==> column_in(list, name) == Some(list[at])
            &&& at == -1 ==> column_in(list, name) is None
        }),
{
    let s = series_columns(kind, zone);
    let at = series_place(kind, name);
    assert forall|j: int| 0 <= j < list.len() implies (#[trigger] list[j]).name@ == s[j].name
        && series_place(kind, list[j].name@) == j by {
        assert(carries(list[j], s[j], rows, j));
        series_columns_are_placed(kind, zone, j);
    }
    if 0 <= at < list.len() && s[at].name == name {
        column_is_at(list, name, at);
    }
    if at == -1 {
        column_is_nowhere(list, name);
    }
}

/// Whether a text column holds one cell of each row, or is not there at all.
spec fn text_held(b: ReadBatch, name: Seq<char>, rows: Seq<Seq<Cell>>, at: int) -> bool {
    match text_of_column(b, name) {
        Ok(Some(v)) => {
            &&& at >= 0
            &&& v.len() == rows.len()
            &&& forall|k: int| 0 <= k < rows.len() ==> rows[k][at] == Cell::Text(#[trigger] v[k])
        },
        Ok(None) => at == -1,
        Err(_) => false,
    }
}

proof fn series_text_held(
    b: ReadBatch,
    kind: TimeSeriesType,
    zone: Option<Seq<char>>,
    rows: Seq<Seq<Cell>>,
    name: Seq<char>,
)
    requires
        carry_table(b.columns@, series_columns(kind, zone), rows),
        ({
            let at = series_place(kind, name);
            at == -1 || 0 <= at < series_columns(kind, zone).len() && series_columns(kind, zone)[at]
                == crate::table::text_col(name)
        }),
    ensures
        text_held(b, name, rows, series_place(kind, name)),
{
    let at = series_place(kind, name);
    series_column_found(b.columns@, kind, zone, rows, name);
    if at >= 0 {
        assert(carries(b.columns@[at], series_columns(kind, zone)[at], rows, at));
    }
}

proof fn series_ints_held(
    b: ReadBatch,
    kind: TimeSeriesType,
    zone: Option<Seq<char>>,
    rows: Seq<Seq<Cell>>,
    name: Seq<char>,
)
    requires
        carry_table(b.columns@, series_columns(kind, zone), rows),
        ({
            let at = series_place(kind, name);
            0 <= at < series_columns(kind, zone).len() && series_columns(kind, zone)[at]
                == crate::table::int_col(name)
        }),
    ensures
        match ints_of_column(b, name) {
            Ok(Some(v)) => v.len() == rows.len() && forall|k: int|
                0 <= k < rows.len() ==> rows[k][series_place(kind, name)] == Cell::Integer(
                    #[trigger] v[k],
                ),
            _ => false,
        },
{
    let at = series_place(kind, name);
    series_column_found(b.columns@, kind, zone, rows, name);
    assert(carries(b.columns@[at], series_columns(kind, zone)[at], rows, at));
}

proof fn no_text_fault(b: ReadBatch, names: Seq<Seq<char>>, i: int)
    requires
        0 <= i <= names.len(),
        forall|j: int| 0 <= j < names.len() ==> text_of_column(b, #[trigger] names[j]) is Ok,
    ensures
        first_text_fault(b, names, i) is None,
    decreases names.len() - i,
{
    if i < names.len() {
        no_text_fault(b, names, i + 1);
    }
}

/// A series file gives back the rows that were written into it: a table with the columns of a
/// series file is read as one row for each of its rows, with what was written of the series.
pub proof fn series_tables_read_back(
    b: ReadBatch,
    kind: TimeSeriesType,
    zone: Option<Seq<char>>,
    lines: Seq<SeriesLine>,
)
    requires
        carry_table(b.columns@, series_columns(kind, zone), series_cells(lines, kind)),
        b.rows == lines.len(),
    ensures
        rows_in(b) == Ok::<_, Seq<char>>(
            lines.map_values(|line: SeriesLine| row_of_line(line, kind)),
        ),
{
    let rows = series_cells(lines, kind);
    let t = tail_place(kind);
    series_names();
    series_text_held(b, kind, zone, rows, DATA_HASH@);
    series_text_held(b, kind, zone, rows, TIME_AXIS@);
    series_ints_held(b, kind, zone, rows, schema::ID@);
    series_ints_held(b, kind, zone, rows, schema::OWNER_ID@);
    series_text_held(b, kind, zone, rows, schema::OWNER_TYPE@);
    series_text_held(b, kind, zone, rows, schema::OWNER_CATEGORY@);
    series_text_held(b, kind, zone, rows, schema::TIME_SERIES_TYPE@);
    series_text_held(b, kind, zone, rows, schema::NAME@);
    series_text_held(b, kind, zone, rows, schema::RESOLUTION@);
    series_text_held(b, kind, zone, rows, schema::INTERVAL@);
    series_text_held(b, kind, zone, rows, schema::HORIZON@);
    series_text_held(b, kind, zone, rows, schema::FEATURES@);
    series_text_held(b, kind, zone, rows, schema::ELEMENT_TYPE@);
    series_text_held(b, kind, zone, rows, schema::TIME_REFERENCE@);
    series_text_held(b, kind, zone, rows, schema::UNITS@);
    series_text_held(b, kind, zone, rows, schema::QUANTITY_KIND@);
    series_text_held(b, kind, zone, rows, schema::UNIT_SYSTEM@);
    series_text_held(b, kind, zone, rows, schema::COMPONENT_FIELD@);
    series_text_held(b, kind, zone, rows, schema::APPLICATION_DATA@);
    assert forall|j: int| 0 <= j < read_names().len() implies text_of_column(
        b,
        #[trigger] read_names()[j],
    ) is Ok by {}
    no_text_fault(b, read_names(), 0);
    assert forall|k: int| 0 <= k < lines.len() implies #[trigger] row_in(b, k) == row_of_line(
        lines[k],
        kind,
    ) by {
        assert(rows[k] == lines[k].cells(kind));
    }
    assert(rows_in(b)->Ok_0 =~= lines.map_values(|line: SeriesLine| row_of_line(line, kind)));
}

// ---- The values file ------------------------------------------------------------------------

/// Where a column of a values file is, besides the values; -1 for a column that a type's files
/// do not have.
spec fn values_place(kind: TimeSeriesType, name: Seq<char>) -> int {
    let n = name.len();
    let c = name[0];
    if n == 9 && c == 'd' {
        0
    } else if n == 9 && name[4] == '_' {
        1
    } else if n == 9 && name[4] == 's' {
        2
    } else if n == 10 && c == 'i' && kind.forecasts() {
        3
    } else if n == 10 && c == 'p' && kind == TimeSeriesType::Probabilistic {
        4
    } else if n == 8 && kind == TimeSeriesType::Scenarios {
        4
    } else {
        -1
    }
}

proof fn values_names()
    ensures
        DATA_HASH@.len() == 9 && DATA_HASH@[0] == 'd',
        TIME_AXIS@.len() == 9 && TIME_AXIS@[0] == 't' && TIME_AXIS@[4] == '_',
        TIMESTAMP@.len() == 9 && TIMESTAMP@[0] == 't' && TIMESTAMP@[4] == 's',
        ISSUE_TIME@.len() == 10 && ISSUE_TIME@[0] == 'i',
        PERCENTILE@.len() == 10 && PERCENTILE@[0] == 'p',
        SCENARIO@.len() == 8,
{
    reveal_strlit("data_hash");
    reveal_strlit("time_axis");
    reveal_strlit("timestamp");
    reveal_strlit("issue_time");
    reveal_strlit("percentile");
    reveal_strlit("scenario");
}

/// The columns of a values file besides the values.
pub open spec fn coordinate_columns(kind: TimeSeriesType, zone: Option<Seq<char>>) -> Seq<
    ColumnView,
> {
    values_columns(kind, zone, ColumnTypeView::Text).drop_last()
}

proof fn values_column_found(
    list: Seq<ReadColumn>,
    kind: TimeSeriesType,
    zone: Option<Seq<char>>,
    rows: Seq<Seq<Cell>>,
    name: Seq<char>,
)
    requires
        carry_table(list, coordinate_columns(kind, zone), rows),
    ensures
        ({
            let at = values_place(kind, name);
            &&& 0 <= at < list.len() && coordinate_columns(kind, zone)[at].name == name
                ==> column_in(list, name) == Some(list[at]) && carries(
                list[at],
                coordinate_columns(kind, zone)[at],
                rows,
                at,
            )
            &&& at == -1 ==> column_in(list, name) is None
        }),
{
    let s = coordinate_columns(kind, zone);
    let at = values_place(kind, name);
    values_names();
    assert forall|j: int| 0 <= j < list.len() implies (#[trigger] list[j]).name@ == s[j].name
        && values_place(kind, list[j].name@) == j by {
        assert(carries(list[j], s[j], rows, j));
    }
    if 0 <= at < list.len() && s[at].name == name {
        column_is_at(list, name, at);
    }
    if at == -1 {
        column_is_nowhere(list, name);
    }
}

proof fn no_unscaled(name: Seq<char>, values: Seq<i64>, n: int)
    ensures
        first_unscaled(name, TimeUnit::Millisecond, values, n) is None,
    decreases n,
{
    if n > 0 {
        no_unscaled(name, values, n - 1);
    }
}

proof fn none_off_calendar(millis: Seq<i64>, n: int)
    requires
        n <= millis.len(),
        forall|k: int| 0 <= k < millis.len() ==> is_instant(#[trigger] millis[k] as int),
    ensures
        first_off_calendar(millis, n) is None,
    decreases n,
{
    if n > 0 {
        none_off_calendar(millis, n - 1);
    }
}

proof fn no_level_fault(levels: Seq<ListLevel>, n: int)
    requires
        n <= levels.len(),
        forall|i: int|
            0 <= i < levels.len() ==> !(#[trigger] levels[i]).nulls && levels[i].size >= 0,
    ensures
        level_fault(levels, n) is None,
    decreases n,
{
    if n > 0 {
        no_level_fault(levels, n - 1);
    }
}

/// The values of rows lie one after the other.
proof fn values_lie_in_order(lines: Seq<Line>, n: int, width: int)
    requires
        0 <= n <= lines.len(),
        0 <= width,
        forall|k: int| 0 <= k < lines.len() ==> (#[trigger] lines[k]).value.len() == width,
    ensures
        bytes_of(lines, n).len() == n * width,
        forall|k: int|
            0 <= k < n ==> cell(bytes_of(lines, n), k, width) == (#[trigger] lines[k]).value,
    decreases n,
{
    if n > 0 {
        values_lie_in_order(lines, n - 1, width);
        let before = bytes_of(lines, n - 1);
        let all = bytes_of(lines, n);
        assert(n * width == (n - 1) * width + width) by (nonlinear_arith);
        assert forall|k: int| 0 <= k < n implies cell(all, k, width) == (
        #[trigger] lines[k]).value by {
            crate::array::cell_inside(k, n, width);
            if k < n - 1 {
                crate::array::cell_inside(k, n - 1, width);
                assert(cell(all, k, width) =~= cell(before, k, width));
            } else {
                assert(cell(all, k, width) =~= lines[k].value);
            }
        }
    } else {
        assert(0 * width == 0);
    }
}

/// Whether a batch holds the values of rows: lists of these sizes, none of them null, over one
/// number after the other.
pub open spec fn carries_values(
    b: ReadBatch,
    lines: Seq<Line>,
    dims: Seq<usize>,
    dtype: Dtype,
) -> bool {
    match b.value {
        None => false,
        Some(v) => {
            &&& forall|i: int|
                0 <= i < v.levels@.len() ==> !(#[trigger] v.levels@[i]).nulls && v.levels@[i].size
                    >= 0
            &&& level_dims(v.levels@) == dims
            &&& v.end matches ValueEnd::Leaf { nulls, dtype: leaf, bytes } && !nulls && leaf
                == dtype && bytes@ == bytes_of(lines, lines.len() as int)
        },
    }
}

/// Whether a row can be in a values file: it has the coordinates of a type, its times are on
/// the calendar, and its value has the size of an element.
pub open spec fn is_row(
    line: Line,
    kind: TimeSeriesType,
    dims: Seq<usize>,
    dtype: Dtype,
) -> bool {
    &&& fits_kind(line.issue, line.lane, kind)
    &&& is_instant(line.target as int)
    &&& line.issue is Some ==> is_instant(line.issue->0 as int)
    &&& line.value.len() == product(dims) * dtype.bytes()
}

/// A values file gives back the rows that were written into it: a table with the columns of a
/// values file is read as one row for each of its rows, with its key, its times, its lane and
/// the bytes of its value.
pub proof fn values_tables_read_back(
    b: ReadBatch,
    kind: TimeSeriesType,
    zone: Option<Seq<char>>,
    lines: Seq<Line>,
    dims: Seq<usize>,
    dtype: Dtype,
)
    requires
        carry_table(b.columns@, coordinate_columns(kind, zone), cells_of(lines)),
        carries_values(b, lines, dims, dtype),
        b.rows == lines.len(),
        forall|k: int| 0 <= k < lines.len() ==> is_row(#[trigger] lines[k], kind, dims, dtype),
    ensures
        zone_in(b, TIMESTAMP@) == Ok::<_, Seq<char>>(zone),
        match batch_view(b) {
            Ok(view) => view.lines(b.rows as nat) == all_read(lines, dims, dtype),
            Err(_) => false,
        },
{
    let rows = cells_of(lines);
    let list = b.columns@;
    let n = lines.len() as int;
    let width = (product(dims) * dtype.bytes()) as int;
    assert(0 <= width) by (nonlinear_arith)
        requires
            width == product(dims) * dtype.bytes(),
    ;
    values_names();
    values_column_found(list, kind, zone, rows, DATA_HASH@);
    values_column_found(list, kind, zone, rows, TIME_AXIS@);
    values_column_found(list, kind, zone, rows, TIMESTAMP@);
    values_column_found(list, kind, zone, rows, ISSUE_TIME@);
    values_column_found(list, kind, zone, rows, PERCENTILE@);
    values_column_found(list, kind, zone, rows, SCENARIO@);
    assert forall|k: int| 0 <= k < n implies #[trigger] rows[k] == lines[k].cells() by {}
    let stamps = list[2].data->Timestamp_values@;
    assert(stamps.len() == n);
    assert forall|k: int| 0 <= k < n implies #[trigger] stamps[k] == lines[k].target by {
        assert(rows[k][2] == Cell::Instant(stamps[k]));
    }
    no_unscaled(TIMESTAMP@, stamps, n);
    assert(scaled(TIMESTAMP@, TimeUnit::Millisecond, stamps) =~= stamps);
    none_off_calendar(stamps, n);
    assert(stamps_in(b, TIMESTAMP@) == Ok::<_, Seq<char>>(stamps));
    if kind.forecasts() {
        let issued = list[3].data->Timestamp_values@;
        assert(issued.len() == n);
        assert forall|k: int| 0 <= k < n implies Some(#[trigger] issued[k]) == lines[k].issue by {
            assert(rows[k][3] == Cell::Instant(issued[k]));
            assert(fits_kind(lines[k].issue, lines[k].lane, kind));
        }
        no_unscaled(ISSUE_TIME@, issued, n);
        assert(scaled(ISSUE_TIME@, TimeUnit::Millisecond, issued) =~= issued);
        none_off_calendar(issued, n);
        assert(issued_in(b) == Ok::<_, Seq<char>>(Some(issued)));
    }
    let levels = b.value->0.levels@;
    no_level_fault(levels, levels.len() as int);
    values_lie_in_order(lines, n, width);
    let shape = seq![b.rows] + dims;
    crate::array::product_of_both(seq![b.rows], dims);
    crate::array::product_of_one(b.rows);
    assert(product(shape) * dtype.bytes() == n * width) by (nonlinear_arith)
        requires
            product(shape) == b.rows * product(dims),
            b.rows == n,
            width == product(dims) * dtype.bytes(),
    ;
    assert(values_in(b) is Ok);
    let view = batch_view(b)->Ok_0;
    assert forall|k: int| 0 <= k < n implies #[trigger] view.line(k) == as_read(
        lines[k],
        dims,
        dtype,
    ) by {
        assert(rows[k] == lines[k].cells());
        assert(fits_kind(lines[k].issue, lines[k].lane, kind));
        assert(rows[k][0] == Cell::Text(texts(list[0].data->Text_0@)[k]));
        assert(rows[k][1] == Cell::Text(texts(list[1].data->Text_0@)[k]));
        assert(stamps[k] == lines[k].target);
        if kind == TimeSeriesType::Probabilistic {
            assert(rows[k][4] == Cell::Float(list[4].data->Float64_0@[k]));
        }
        if kind == TimeSeriesType::Scenarios {
            assert(rows[k][4] == Cell::Integer(list[4].data->Int64_0@[k]));
        }
    }
    assert(view.lines(b.rows as nat) =~= all_read(lines, dims, dtype));
}

// ---- Whole files ----------------------------------------------------------------------------

/// A reader after the first `n` of some batches.
pub open spec fn read_batches(s: ReaderView, list: Seq<ReadBatch>, n: int) -> Result<
    ReaderView,
    Seq<char>,
>
    decreases n,
{
    if n <= 0 {
        Ok(s)
    } else {
        match read_batches(s, list, n - 1) {
            Err(text) => Err(text),
            Ok(t) => read_batch(t, list[n - 1]),
        }
    }
}

/// Whether a batch that was read holds some rows of a values file.
pub open spec fn carries_rows(
    b: ReadBatch,
    kind: TimeSeriesType,
    zone: Option<Seq<char>>,
    lines: Seq<Line>,
    dims: Seq<usize>,
    dtype: Dtype,
) -> bool {
    &&& carry_table(b.columns@, coordinate_columns(kind, zone), cells_of(lines))
    &&& carries_values(b, lines, dims, dtype)
    &&& b.rows == lines.len()
    &&& lines.len() > 0
    &&& forall|k: int| 0 <= k < lines.len() ==> is_row(#[trigger] lines[k], kind, dims, dtype)
}

proof fn zone_stays(s: ReaderView, lines: Seq<ReadLine>, n: int)
    ensures
        read_lines(s, lines, n) is Ok ==> read_lines(s, lines, n)->Ok_0.zone == s.zone,
    decreases n,
{
    if n > 0 {
        zone_stays(s, lines, n - 1);
    }
}

/// A values file is read batch by batch as it would be read row by row, however its rows were
/// cut into batches.
pub proof fn batches_read_as_rows(
    list: Seq<ReadBatch>,
    cut: Seq<Seq<Line>>,
    n: int,
    kind: TimeSeriesType,
    zone: Option<Seq<char>>,
    dims: Seq<usize>,
    dtype: Dtype,
)
    requires
        0 < n <= list.len(),
        list.len() == cut.len(),
        forall|i: int|
            #![trigger list[i]]
            0 <= i < list.len() ==> carries_rows(list[i], kind, zone, cut[i], dims, dtype),
    ensures
        ({
            let lines = all_read(flat_lines(cut, n), dims, dtype);
            read_batches(fresh_reader(None), list, n) == read_lines(
                fresh_reader(zone),
                lines,
                lines.len() as int,
            )
        }),
    decreases n,
{
    let b = list[n - 1];
    let piece = all_read(cut[n - 1], dims, dtype);
    assert(carries_rows(b, kind, zone, cut[n - 1], dims, dtype));
    values_tables_read_back(b, kind, zone, cut[n - 1], dims, dtype);
    let before = all_read(flat_lines(cut, n - 1), dims, dtype);
    let lines = all_read(flat_lines(cut, n), dims, dtype);
    assert(lines =~= before + piece);
    batches_do_not_matter(fresh_reader(zone), before, piece, piece.len() as int);
    if n == 1 {
        assert(read_batches(fresh_reader(None), list, 0) == Ok::<_, Seq<char>>(fresh_reader(None)));
    } else {
        batches_read_as_rows(list, cut, n - 1, kind, zone, dims, dtype);
        zone_stays(fresh_reader(zone), before, before.len() as int);
    }
}

/// A partition that was exported is read back from its values file: one array for each of the
/// plan's, in the plan's order, with all of its rows.
pub proof fn written_values_file_reads_back(
    table: PartitionSchema,
    groups: Seq<ArrayGroupView>,
    series: Seq<Selected>,
    members: Seq<usize>,
    list: Seq<ReadBatch>,
    cut: Seq<Seq<Line>>,
    zone: Option<Seq<char>>,
    dims: Seq<usize>,
    dtype: Dtype,
)
    requires
        grouped(groups, series, members),
        writable(table, groups, series),
        list.len() == cut.len(),
        list.len() > 0,
        forall|i: int|
            #![trigger list[i]]
            0 <= i < list.len() ==> carries_rows(
                list[i],
                table.key@.kind,
                zone,
                cut[i],
                dims,
                dtype,
            ),
        flat_lines(cut, cut.len() as int) == value_lines(
            table,
            groups,
            series,
            groups.len() as int,
        ),
    ensures
        match read_batches(fresh_reader(None), list, list.len() as int) {
            Ok(s) => s.groups() == groups_of(
                planned_lines(table, groups, series),
                groups.len() as int,
                table.key@.kind,
                dims,
                dtype,
                zone,
            ),
            Err(_) => false,
        },
{
    let kind = table.key@.kind;
    batches_read_as_rows(list, cut, list.len() as int, kind, zone, dims, dtype);
    written_files_read_back(table, groups, series, members, dims, dtype, zone);
}

} // verus!
