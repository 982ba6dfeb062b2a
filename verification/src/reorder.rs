//! A forecast is what its rows say, in whatever order they come.
use crate::array::{cell, element_dims, product, ArrayView};
use crate::cube::{
    faultless_rows_have_places, forecast_fault, highest_scenario, is_forecast_of, labels_of,
    lane_index, layout_of, no_slot_is_left_out, percentile_fault, percentiles_in, placement_fault,
    row_fault, row_place, step_index, window_of, GridColumns, LabelsView, LaneValue, Layout,
    RowsView,
};
use crate::instant::Step;
use crate::kinds::TimeSeriesType;
use crate::order::{
    ascending_is_sorted, ascending_unique, distinct_instants, distinct_percentiles, has_key,
    instants_come_sorted, instants_determined, is_nan, percentile_place, percentile_rank,
};
use crate::roundtrip::rows_determine_bytes;
use crate::series::DataView;
use vstd::prelude::*;

verus! {

/// Whether a list names each of the first `n` rows once.
pub open spec fn is_order(order: Seq<int>, n: nat) -> bool {
    &&& order.len() == n
    &&& forall|i: int| 0 <= i < n ==> 0 <= #[trigger] order[i] < n
    &&& forall|i: int, j: int|
        #![trigger order[i], order[j]]
        0 <= i < j < n ==> order[i] != order[j]
    &&& forall|k: int| 0 <= k < n ==> #[trigger] order.contains(k)
}

/// A column in another order of its rows.
pub open spec fn reordered<T>(column: Seq<T>, order: Seq<int>) -> Seq<T> {
    Seq::new(column.len(), |i: int| column[order[i]])
}

/// Rows in another order.
pub open spec fn rows_reordered(rows: RowsView, order: Seq<int>) -> RowsView {
    RowsView {
        timestamps: reordered(rows.timestamps, order),
        issue: reordered(rows.issue, order),
        lanes: reordered(rows.lanes, order),
    }
}

/// Whether values are those of other rows, in this order.
pub open spec fn values_reordered(values: ArrayView, other: ArrayView, order: Seq<int>) -> bool {
    let width = (product(element_dims(other.shape)) * other.dtype.bytes()) as int;
    &&& values.dtype == other.dtype
    &&& values.shape == other.shape
    &&& forall|i: int|
        0 <= i < order.len() ==> #[trigger] cell(values.bytes, i, width) == cell(
            other.bytes,
            order[i],
            width,
        )
}

/// Whether no two lanes are one number in two spellings, as the two zeros are.
pub open spec fn spelled_alike(lanes: Seq<LaneValue>) -> bool {
    forall|i: int, j: int|
        #![trigger lanes[i], lanes[j]]
        0 <= i < lanes.len() && 0 <= j < lanes.len() ==> match (lanes[i], lanes[j]) {
            (LaneValue::Percentile(p), LaneValue::Percentile(q)) => percentile_rank(p)
                == percentile_rank(q) ==> p == q,
            _ => true,
        }
}

proof fn same_values<T>(column: Seq<T>, order: Seq<int>, x: T)
    requires
        is_order(order, column.len()),
    ensures
        reordered(column, order).contains(x) <==> column.contains(x),
{
    let other = reordered(column, order);
    if other.contains(x) {
        let i = choose|i: int| 0 <= i < other.len() && other[i] == x;
        assert(column[order[i]] == x);
    }
    if column.contains(x) {
        let k = choose|k: int| 0 <= k < column.len() && column[k] == x;
        assert(order.contains(k));
        let i = choose|i: int| 0 <= i < order.len() && order[i] == k;
        assert(other[i] == x);
    }
}

// ---- The grid -------------------------------------------------------------------------------

proof fn same_issues(issue: Seq<i64>, order: Seq<int>)
    requires
        is_order(order, issue.len()),
    ensures
        distinct_instants(reordered(issue, order)) == distinct_instants(issue),
{
    instants_come_sorted(issue);
    assert forall|x: i64|
        distinct_instants(issue).contains(x) <==> reordered(issue, order).contains(x) by {
        same_values(issue, order, x);
    }
    instants_determined(reordered(issue, order), distinct_instants(issue));
}

proof fn percentiles_are_sound(lanes: Seq<LaneValue>, name: Seq<char>, n: int)
    requires
        0 <= n <= lanes.len(),
    ensures
        percentile_fault(lanes, name, n) is None <==> forall|i: int|
            0 <= i < n ==> (#[trigger] lanes[i] matches LaneValue::Percentile(p) && !is_nan(p)),
    decreases n,
{
    if n > 0 {
        percentiles_are_sound(lanes, name, n - 1);
        if percentile_fault(lanes, name, n) is None {
            assert(lanes[n - 1] matches LaneValue::Percentile(p) && !is_nan(p));
        }
    }
}

proof fn highest_is_found(lanes: Seq<LaneValue>, n: int)
    requires
        0 <= n <= lanes.len(),
    ensures
        highest_scenario(lanes, n) is Some <==> forall|i: int|
            0 <= i < n ==> (#[trigger] lanes[i]) is Scenario,
        highest_scenario(lanes, n) matches Some(h) ==> {
            &&& h >= 0
            &&& forall|i: int| 0 <= i < n ==> (#[trigger] lanes[i])->Scenario_0 <= h
            &&& h == 0 || exists|i: int| 0 <= i < n && (#[trigger] lanes[i])->Scenario_0 == h
        },
    decreases n,
{
    if n > 0 {
        highest_is_found(lanes, n - 1);
        if highest_scenario(lanes, n) is Some {
            let h = highest_scenario(lanes, n)->0;
            assert(lanes[n - 1] is Scenario);
            if h != 0 && lanes[n - 1]->Scenario_0 != h {
                let i = choose|i: int|
                    0 <= i < n - 1 && (#[trigger] lanes[i])->Scenario_0 == h;
                assert(lanes[i]->Scenario_0 == h);
            }
        }
    }
}

proof fn same_percentiles(lanes: Seq<LaneValue>, order: Seq<int>)
    requires
        is_order(order, lanes.len()),
        spelled_alike(lanes),
        forall|i: int| 0 <= i < lanes.len() ==> (#[trigger] lanes[i]) is Percentile,
    ensures
        distinct_percentiles(percentiles_in(reordered(lanes, order))) == distinct_percentiles(
            percentiles_in(lanes),
        ),
{
    let key = |x: u64| percentile_rank(x);
    let a = percentiles_in(reordered(lanes, order));
    let b = percentiles_in(lanes);
    assert(a =~= reordered(b, order));
    let x = distinct_percentiles(a);
    let y = distinct_percentiles(b);
    ascending_is_sorted(a, key);
    ascending_is_sorted(b, key);
    assert forall|k: int| has_key(x, key, k) <==> has_key(y, key, k) by {
        if has_key(x, key, k) {
            assert(has_key(a, key, k));
            let i = choose|i: int| 0 <= i < a.len() && key(#[trigger] a[i]) == k;
            assert(key(b[order[i]]) == k);
            assert(has_key(b, key, k));
        }
        if has_key(y, key, k) {
            assert(has_key(b, key, k));
            let m = choose|m: int| 0 <= m < b.len() && key(#[trigger] b[m]) == k;
            assert(order.contains(m));
            let i = choose|i: int| 0 <= i < order.len() && order[i] == m;
            assert(key(a[i]) == k);
            assert(has_key(a, key, k));
        }
    }
    assert forall|i: int, j: int|
        #![trigger x[i], y[j]]
        0 <= i < x.len() && 0 <= j < y.len() && key(x[i]) == key(y[j]) implies x[i] == y[j] by {
        assert(a.contains(x[i]));
        same_values(b, order, x[i]);
        let m = choose|m: int| 0 <= m < b.len() && b[m] == x[i];
        assert(b.contains(y[j]));
        let n = choose|n: int| 0 <= n < b.len() && b[n] == y[j];
        assert(lanes[m] is Percentile && lanes[n] is Percentile);
    }
    ascending_unique(x, y, key);
}

proof fn same_labels(
    lanes: Seq<LaneValue>,
    order: Seq<int>,
    kind: TimeSeriesType,
    name: Seq<char>,
)
    requires
        is_order(order, lanes.len()),
        spelled_alike(lanes),
    ensures
        labels_of(reordered(lanes, order), kind, name) is Ok <==> labels_of(lanes, kind, name)
            is Ok,
        labels_of(lanes, kind, name) is Ok ==> labels_of(reordered(lanes, order), kind, name)
            == labels_of(lanes, kind, name),
{
    let other = reordered(lanes, order);
    let n = lanes.len() as int;
    assert forall|k: int| 0 <= k < n implies other.contains(#[trigger] lanes[k]) by {
        assert(lanes.contains(lanes[k]));
        same_values(lanes, order, lanes[k]);
    }
    match kind {
        TimeSeriesType::Probabilistic => {
            percentiles_are_sound(lanes, name, n);
            percentiles_are_sound(other, name, n);
            if percentile_fault(lanes, name, n) is None {
                assert forall|i: int| 0 <= i < n implies (
                #[trigger] other[i] matches LaneValue::Percentile(p) && !is_nan(p)) by {
                    assert(lanes[order[i]] matches LaneValue::Percentile(p) && !is_nan(p));
                }
                same_percentiles(lanes, order);
            }
            if percentile_fault(other, name, n) is None {
                assert forall|k: int| 0 <= k < n implies (
                #[trigger] lanes[k] matches LaneValue::Percentile(p) && !is_nan(p)) by {
                    let i = choose|i: int| 0 <= i < n && other[i] == lanes[k];
                    assert(other[i] matches LaneValue::Percentile(p) && !is_nan(p));
                }
            }
        },
        TimeSeriesType::Scenarios => {
            highest_is_found(lanes, n);
            highest_is_found(other, n);
            if highest_scenario(lanes, n) is Some {
                assert forall|i: int| 0 <= i < n implies (#[trigger] other[i]) is Scenario by {
                    assert(lanes[order[i]] is Scenario);
                }
            }
            if highest_scenario(other, n) is Some {
                assert forall|k: int| 0 <= k < n implies (#[trigger] lanes[k]) is Scenario by {
                    let i = choose|i: int| 0 <= i < n && other[i] == lanes[k];
                    assert(other[i] is Scenario);
                }
                let a = highest_scenario(lanes, n)->0;
                let b = highest_scenario(other, n)->0;
                if a != 0 {
                    let k = choose|k: int| 0 <= k < n && (#[trigger] lanes[k])->Scenario_0 == a;
                    let i = choose|i: int| 0 <= i < n && other[i] == lanes[k];
                    assert(other[i]->Scenario_0 <= b);
                }
                if b != 0 {
                    let i = choose|i: int| 0 <= i < n && (#[trigger] other[i])->Scenario_0 == b;
                    assert(lanes[order[i]]->Scenario_0 <= a);
                }
            }
        },
        _ => {},
    }
}

// ---- The rows -------------------------------------------------------------------------------

/// Rows that each have a place, and no two the same, have no fault.
proof fn placed_rows_are_faultless(rows: RowsView, layout: Layout, n: int)
    requires
        forall|j: int| 0 <= j < n ==> (#[trigger] row_place(rows, layout, j)) is Ok,
        forall|i: int, j: int|
            #![trigger row_place(rows, layout, i), row_place(rows, layout, j)]
            0 <= i < j < n ==> row_place(rows, layout, i) != row_place(rows, layout, j),
    ensures
        placement_fault(rows, layout, n) is None,
    decreases n,
{
    if n > 0 {
        placed_rows_are_faultless(rows, layout, n - 1);
        assert(row_place(rows, layout, n - 1) is Ok);
        assert(row_fault(rows, layout, n - 1) is None);
    }
}

proof fn same_placement(rows: RowsView, layout: Layout, order: Seq<int>)
    requires
        is_order(order, rows.timestamps.len()),
        rows.issue.len() == rows.timestamps.len(),
        rows.lanes.len() == 0 || rows.lanes.len() == rows.timestamps.len(),
    ensures
        forall|i: int|
            0 <= i < order.len() ==> #[trigger] row_place(rows_reordered(rows, order), layout, i)
                == row_place(rows, layout, order[i]),
        placement_fault(rows_reordered(rows, order), layout, order.len() as int) is None
            <==> placement_fault(rows, layout, order.len() as int) is None,
{
    let other = rows_reordered(rows, order);
    let n = order.len() as int;
    assert forall|i: int| 0 <= i < n implies #[trigger] row_place(other, layout, i) == row_place(
        rows,
        layout,
        order[i],
    ) by {
        assert(other.lane(i) == rows.lane(order[i]));
    }
    if placement_fault(rows, layout, n) is None {
        faultless_rows_have_places(rows, layout, n);
        assert forall|i: int, j: int|
            #![trigger row_place(other, layout, i), row_place(other, layout, j)]
            0 <= i < j < n implies row_place(other, layout, i) != row_place(other, layout, j) by {
            assert(order[i] != order[j]);
            assert(row_place(other, layout, i) == row_place(rows, layout, order[i]));
            assert(row_place(other, layout, j) == row_place(rows, layout, order[j]));
        }
        assert forall|j: int| 0 <= j < n implies (#[trigger] row_place(other, layout, j)) is Ok by {
            assert(row_place(rows, layout, order[j]) is Ok);
        }
        placed_rows_are_faultless(other, layout, n);
    }
    if placement_fault(other, layout, n) is None {
        faultless_rows_have_places(other, layout, n);
        assert forall|k: int| 0 <= k < n implies (#[trigger] row_place(rows, layout, k)) is Ok by {
            assert(order.contains(k));
            let i = choose|i: int| 0 <= i < order.len() && order[i] == k;
            assert(row_place(other, layout, i) is Ok);
        }
        assert forall|k: int, m: int|
            #![trigger row_place(rows, layout, k), row_place(rows, layout, m)]
            0 <= k < m < n implies row_place(rows, layout, k) != row_place(rows, layout, m) by {
            assert(order.contains(k) && order.contains(m));
            let i = choose|i: int| 0 <= i < order.len() && order[i] == k;
            let j = choose|j: int| 0 <= j < order.len() && order[j] == m;
            assert(row_place(other, layout, i) == row_place(rows, layout, k));
            assert(row_place(other, layout, j) == row_place(rows, layout, m));
            if i < j {
                assert(row_place(other, layout, i) != row_place(other, layout, j));
            } else {
                assert(row_place(other, layout, j) != row_place(other, layout, i));
            }
        }
        placed_rows_are_faultless(rows, layout, n);
    }
}

proof fn step_is_inside(
    issue: i64,
    target: i64,
    resolution: Step,
    steps: int,
    name: Seq<char>,
    k: int,
)
    requires
        0 <= k,
    ensures
        step_index(issue, target, resolution, steps, name, k) matches Ok(s) ==> 0 <= s < steps,
    decreases steps - k,
{
    if k < steps {
        step_is_inside(issue, target, resolution, steps, name, k + 1);
    }
}

proof fn percentile_is_inside(labels: Seq<u64>, p: u64)
    ensures
        percentile_place(labels, p) matches Some(i) ==> 0 <= i < labels.len(),
    decreases labels.len(),
{
    if labels.len() > 0 {
        percentile_is_inside(labels.drop_last(), p);
    }
}

/// A row's place is on the grid of its issue times.
proof fn place_is_inside(rows: RowsView, layout: Layout, row: int)
    requires
        layout.issues == distinct_instants(rows.issue),
        0 <= row < rows.issue.len(),
        row_place(rows, layout, row) is Ok,
    ensures
        row_place(rows, layout, row)->Ok_0.inside(layout),
{
    step_is_inside(
        rows.issue[row],
        rows.timestamps[row],
        layout.resolution,
        layout.steps,
        layout.name,
        0,
    );
    instants_come_sorted(rows.issue);
    assert(rows.issue.contains(rows.issue[row]));
    assert(layout.issues.contains(rows.issue[row]));
    let w = window_of(layout.issues, rows.issue[row]);
    let at = choose|w: int| 0 <= w < layout.issues.len() && layout.issues[w] == rows.issue[row];
    assert(layout.issues[at] == rows.issue[row]);
    assert(0 <= w < layout.issues.len());
    match (layout.labels, rows.lane(row)) {
        (LabelsView::Percentiles(list), Some(LaneValue::Percentile(p))) => {
            percentile_is_inside(list, p);
        },
        _ => {},
    }
    assert(lane_index(layout.labels, rows.lane(row)) is Ok);
}

// ---- The law --------------------------------------------------------------------------------

/// Rows are placed by their coordinates and not by their order: rows that come in another
/// order, each with its value, make up a forecast exactly when they did before, and then the
/// same one.
///
/// The one thing that the order decides is which of two spellings of a percentile stays, where
/// a file has both zeros.
pub proof fn row_order_does_not_matter(
    kind: TimeSeriesType,
    columns: GridColumns,
    rows: RowsView,
    array: ArrayView,
    name: Seq<char>,
    order: Seq<int>,
    other: ArrayView,
)
    requires
        is_order(order, rows.timestamps.len()),
        rows.issue.len() == 0 || rows.issue.len() == rows.timestamps.len(),
        rows.lanes.len() == 0 || rows.lanes.len() == rows.timestamps.len(),
        spelled_alike(rows.lanes),
        product(element_dims(array.shape)) > 0,
        values_reordered(other, array, order),
    ensures
        ({
            let moved = rows_reordered(rows, order);
            &&& forecast_fault(kind, columns, moved, name) is None <==> forecast_fault(
                kind,
                columns,
                rows,
                name,
            ) is None
            &&& forecast_fault(kind, columns, rows, name) is None ==> forall|
                data: DataView,
                again: DataView,
            |
                #![trigger is_forecast_of(data, kind, columns, rows, array, name), is_forecast_of(again, kind, columns, moved, other, name)]
                is_forecast_of(data, kind, columns, rows, array, name) && is_forecast_of(
                    again,
                    kind,
                    columns,
                    moved,
                    other,
                    name,
                ) ==> again == data
        }),
{
    let moved = rows_reordered(rows, order);
    let n = rows.timestamps.len() as int;
    if rows.issue.len() == 0 {
        assert(reordered(rows.issue, order) =~= rows.issue);
    } else {
        same_issues(rows.issue, order);
    }
    if rows.lanes.len() == 0 {
        assert(reordered(rows.lanes, order) =~= rows.lanes);
    } else {
        same_labels(rows.lanes, order, kind, name);
    }
    assert(layout_of(kind, columns, moved, name) is Ok <==> layout_of(kind, columns, rows, name)
        is Ok);
    if layout_of(kind, columns, rows, name) is Ok {
        let layout = layout_of(kind, columns, rows, name)->Ok_0;
        assert(layout_of(kind, columns, moved, name) == layout_of(kind, columns, rows, name));
        same_placement(rows, layout, order);
        if placement_fault(rows, layout, n) is None {
            let width = (product(element_dims(array.shape)) * array.dtype.bytes()) as int;
            assert(width > 0) by (nonlinear_arith)
                requires
                    product(element_dims(array.shape)) > 0,
                    array.dtype.bytes() > 0,
                    width == product(element_dims(array.shape)) * array.dtype.bytes(),
            ;
            faultless_rows_have_places(rows, layout, n);
            assert forall|row: int| 0 <= row < n implies (#[trigger] row_place(
                rows,
                layout,
                row,
            ))->Ok_0.inside(layout) by {
                place_is_inside(rows, layout, row);
            }
            assert forall|data: DataView, again: DataView|
                #![trigger is_forecast_of(data, kind, columns, rows, array, name), is_forecast_of(again, kind, columns, moved, other, name)]
                is_forecast_of(data, kind, columns, rows, array, name) && is_forecast_of(
                    again,
                    kind,
                    columns,
                    moved,
                    other,
                    name,
                ) implies again == data by {
                assert forall|slot: int| 0 <= slot < n implies #[trigger] cell(
                    again.array.bytes,
                    slot,
                    width,
                ) == cell(data.array.bytes, slot, width) by {
                    no_slot_is_left_out(rows, layout, n, slot);
                    let row = choose|row: int|
                        0 <= row < n && (#[trigger] row_place(rows, layout, row))->Ok_0.slot(layout)
                            == slot;
                    assert(order.contains(row));
                    let i = choose|i: int| 0 <= i < order.len() && order[i] == row;
                    assert(row_place(moved, layout, i) == row_place(rows, layout, row));
                    assert(cell(other.bytes, i, width) == cell(array.bytes, row, width));
                }
                rows_determine_bytes(again.array.bytes, data.array.bytes, n, width);
            }
        }
    }
}

} // verus!
