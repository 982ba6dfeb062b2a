//! What a forecast's rows give back of the forecast that was written.
use crate::array::{cell, cell_inside, element_dims, product, ArrayView};
use crate::cube::{
    forecast_fault, highest_scenario, horizon_steps, is_forecast_of, labels_of, layout_of,
    leading_axes, percentile_fault, percentiles_in, placement_fault, row_place, slot_at,
    slot_inside, slots_apart, step_index, window_fault, window_of, GridColumns, LabelsView,
    LaneValue, Layout, Place, RowsView,
};
use crate::instant::{leads_ahead, no_steps_lead_nowhere, steps_lead_on, PeriodView, Step};
use crate::kinds::TimeSeriesType;
use crate::order::{
    ascending, ascending_is_sorted, ascending_unique, distinct_instants, distinct_percentiles,
    has_key, instants_determined, is_nan, percentile_rank, place_in_ascending, strictly_ascending,
};
use crate::rows::{emission_of, grid_of_axis, Emission, LaneAxis, ValueRow};
use crate::series::{AxisView, DataView};
use vstd::prelude::*;

verus! {

/// The columns a reader finds where these rows were written.
pub open spec fn columns_of(rows: Seq<ValueRow>, lanes: LaneAxis) -> RowsView {
    RowsView {
        timestamps: rows.map_values(|r: ValueRow| r.target),
        issue: rows.map_values(|r: ValueRow| r.issue->0),
        lanes: match lanes {
            LaneAxis::Single => seq![],
            _ => rows.map_values(|r: ValueRow| r.lane->0),
        },
    }
}

/// The labels of a lane axis, as its rows describe it.
pub open spec fn labels_for(lanes: LaneAxis) -> LabelsView {
    match lanes {
        LaneAxis::Single => LabelsView::Single,
        LaneAxis::Percentiles(percentiles) => LabelsView::Percentiles(percentiles),
        LaneAxis::Scenarios(n) => LabelsView::Scenarios(n),
    }
}

/// The type whose lane axis this is.
pub open spec fn kind_for(lanes: LaneAxis) -> TimeSeriesType {
    match lanes {
        LaneAxis::Single => TimeSeriesType::Deterministic,
        LaneAxis::Percentiles(_) => TimeSeriesType::Probabilistic,
        LaneAxis::Scenarios(_) => TimeSeriesType::Scenarios,
    }
}

/// Percentiles the store accepts: numbers, each greater than the one before it.
pub open spec fn proper_percentiles(percentiles: Seq<u64>) -> bool {
    &&& forall|i: int| 0 <= i < percentiles.len() ==> !is_nan(#[trigger] percentiles[i])
    &&& forall|i: int, j: int|
        #![trigger percentiles[i], percentiles[j]]
        0 <= i < j < percentiles.len() ==> percentile_rank(percentiles[i]) < percentile_rank(
            percentiles[j],
        )
}

/// A forecast whose coordinates tell its values apart: it has windows, steps and lanes, its
/// windows are issued one after the other, its steps lead ahead, and its horizon holds exactly
/// its steps.
pub open spec fn tells_apart(e: Emission, horizon: Step, name: Seq<char>) -> bool {
    &&& 0 < e.count <= i64::MAX
    &&& 0 < e.steps <= i64::MAX
    &&& 0 < e.lanes.lanes() <= i64::MAX
    &&& e.lanes.lanes() * e.steps * e.count <= usize::MAX
    &&& forall|w: int| 0 <= w < e.count ==> (#[trigger] e.issue_time(w)) is Some
    &&& forall|v: int, w: int|
        #![trigger e.issue_time(v), e.issue_time(w)]
        0 <= v < w < e.count ==> e.issue_time(v)->0 < e.issue_time(w)->0
    &&& forall|w: int, s: int|
        0 <= w < e.count && 0 <= s < e.steps ==> (#[trigger] e.target_time(w, s)) is Some
    &&& leads_ahead(e.resolution)
    &&& horizon_steps(e.initial, e.resolution, horizon, name) == Ok::<int, Seq<char>>(
        e.steps as int,
    )
    &&& (e.lanes matches LaneAxis::Percentiles(percentiles) ==> proper_percentiles(percentiles))
}

/// Which row of the file one window, step and lane is.
pub open spec fn row_at(e: Emission, window: int, step: int, lane: int) -> int {
    slot_at(window, step, lane, e.steps as int, e.lanes.lanes() as int)
}

/// How many rows a forecast has.
pub open spec fn row_total(e: Emission) -> int {
    (e.count * e.steps * e.lanes.lanes()) as int
}

/// The window, step and lane of a row of the file.
pub open spec fn coordinates(e: Emission, row: int) -> (int, int, int) {
    let lanes = e.lanes.lanes() as int;
    let steps = e.steps as int;
    ((row / lanes) / steps, (row / lanes) % steps, row % lanes)
}

proof fn window_rows_length(e: Emission, window: int, n: int)
    requires
        0 <= n,
    ensures
        e.window_rows(window, n).len() == n * e.lanes.lanes(),
    decreases n,
{
    let lanes = e.lanes.lanes() as int;
    if n > 0 {
        window_rows_length(e, window, n - 1);
        assert((n - 1) * lanes + lanes == n * lanes) by (nonlinear_arith);
    } else {
        assert(0 * lanes == 0) by (nonlinear_arith);
    }
}

proof fn rows_length(e: Emission, n: int)
    requires
        0 <= n,
    ensures
        e.rows(n).len() == n * e.steps * e.lanes.lanes(),
    decreases n,
{
    let lanes = e.lanes.lanes() as int;
    let steps = e.steps as int;
    if n > 0 {
        rows_length(e, n - 1);
        window_rows_length(e, n - 1, steps);
        assert((n - 1) * steps * lanes + steps * lanes == n * steps * lanes) by (nonlinear_arith);
    } else {
        assert(0 * steps * lanes == 0) by (nonlinear_arith);
    }
}

proof fn window_row_found(e: Emission, window: int, n: int, step: int, lane: int)
    requires
        0 <= step < n,
        0 <= lane < e.lanes.lanes(),
    ensures
        0 <= step * e.lanes.lanes() + lane < n * e.lanes.lanes(),
        e.window_rows(window, n)[step * e.lanes.lanes() + lane] == e.row(window, step, lane),
    decreases n,
{
    let lanes = e.lanes.lanes() as int;
    window_rows_length(e, window, n - 1);
    window_rows_length(e, window, n);
    assert(0 <= step * lanes && step * lanes + lanes <= n * lanes) by (nonlinear_arith)
        requires
            0 <= step < n,
            0 <= lanes,
    ;
    if step < n - 1 {
        window_row_found(e, window, n - 1, step, lane);
    } else {
        assert(step * lanes + lane - (n - 1) * lanes == lane);
    }
}

/// The row of a window, step and lane stands where the file puts it.
pub proof fn row_found(e: Emission, n: int, window: int, step: int, lane: int)
    requires
        0 <= window < n,
        0 <= step < e.steps,
        0 <= lane < e.lanes.lanes(),
    ensures
        0 <= row_at(e, window, step, lane) < n * e.steps * e.lanes.lanes(),
        e.rows(n)[row_at(e, window, step, lane)] == e.row(window, step, lane),
    decreases n,
{
    let lanes = e.lanes.lanes() as int;
    let steps = e.steps as int;
    rows_length(e, n - 1);
    rows_length(e, n);
    slot_inside(window, step, lane, n, steps, lanes);
    if window < n - 1 {
        row_found(e, n - 1, window, step, lane);
    } else {
        window_row_found(e, window, steps, step, lane);
        assert((window * steps + step) * lanes + lane == window * steps * lanes + (step * lanes
            + lane)) by (nonlinear_arith);
    }
}

/// Every row of the file is the row of its coordinates.
pub proof fn row_has_coordinates(e: Emission, row: int)
    requires
        0 < e.steps,
        0 < e.lanes.lanes(),
        0 <= row < row_total(e),
    ensures
        ({
            let (window, step, lane) = coordinates(e, row);
            &&& 0 <= window < e.count
            &&& 0 <= step < e.steps
            &&& 0 <= lane < e.lanes.lanes()
            &&& row_at(e, window, step, lane) == row
        }),
{
    let lanes = e.lanes.lanes() as int;
    let steps = e.steps as int;
    let count = e.count as int;
    let q = row / lanes;
    vstd::arithmetic::div_mod::lemma_fundamental_div_mod(row, lanes);
    vstd::arithmetic::div_mod::lemma_fundamental_div_mod(q, steps);
    assert(lanes * q == q * lanes) by (nonlinear_arith);
    assert(steps * (q / steps) == (q / steps) * steps) by (nonlinear_arith);
    assert(0 <= q) by (nonlinear_arith)
        requires
            0 <= row,
            0 < lanes,
            q == row / lanes,
    ;
    assert(q < count * steps) by (nonlinear_arith)
        requires
            q * lanes <= row,
            row < count * steps * lanes,
            0 < lanes,
    ;
    let w = q / steps;
    assert(0 <= w) by (nonlinear_arith)
        requires
            0 <= q,
            0 < steps,
            w == q / steps,
    ;
    assert(w < count) by (nonlinear_arith)
        requires
            w * steps <= q,
            q < count * steps,
            0 < steps,
    ;
}

/// The layout a forecast's rows describe.
pub open spec fn written_layout(e: Emission, name: Seq<char>) -> Layout {
    Layout {
        issues: Seq::new(e.count, |w: int| e.issue_time(w)->0),
        resolution: e.resolution,
        steps: e.steps as int,
        labels: labels_for(e.lanes),
        name,
    }
}

pub proof fn column_facts(e: Emission)
    requires
        0 < e.steps,
        0 < e.lanes.lanes(),
    ensures
        e.rows(e.count as int).len() == row_total(e),
        columns_of(e.rows(e.count as int), e.lanes).timestamps.len() == row_total(e),
        columns_of(e.rows(e.count as int), e.lanes).issue.len() == row_total(e),
{
    rows_length(e, e.count as int);
}

pub proof fn row_facts(e: Emission, row: int)
    requires
        0 < e.steps,
        0 < e.lanes.lanes(),
        0 <= row < row_total(e),
    ensures
        ({
            let rows = e.rows(e.count as int);
            let read = columns_of(rows, e.lanes);
            let (w, s, l) = coordinates(e, row);
            &&& 0 <= w < e.count
            &&& 0 <= s < e.steps
            &&& 0 <= l < e.lanes.lanes()
            &&& row_at(e, w, s, l) == row
            &&& rows[row] == e.row(w, s, l)
            &&& read.issue[row] == e.issue_time(w)->0
            &&& read.timestamps[row] == e.target_time(w, s)->0
            &&& read.lane(row) == e.lanes.label(l)
        }),
{
    rows_length(e, e.count as int);
    row_has_coordinates(e, row);
    let (w, s, l) = coordinates(e, row);
    row_found(e, e.count as int, w, s, l);
}

proof fn issues_read_back(e: Emission, horizon: Step, name: Seq<char>)
    requires
        tells_apart(e, horizon, name),
    ensures
        distinct_instants(columns_of(e.rows(e.count as int), e.lanes).issue) == written_layout(
            e,
            name,
        ).issues,
        ascending(written_layout(e, name).issues),
{
    let read = columns_of(e.rows(e.count as int), e.lanes);
    let issues = written_layout(e, name).issues;
    column_facts(e);
    assert forall|i: int, j: int| 0 <= i < j < issues.len() implies issues[i] < issues[j] by {
        assert(e.issue_time(i)->0 < e.issue_time(j)->0);
    }
    assert forall|x: i64| issues.contains(x) <==> read.issue.contains(x) by {
        if issues.contains(x) {
            let w = choose|w: int| 0 <= w < issues.len() && issues[w] == x;
            row_found(e, e.count as int, w, 0, 0);
            let row = row_at(e, w, 0, 0);
            assert(read.issue[row] == x);
        }
        if read.issue.contains(x) {
            let row = choose|row: int| 0 <= row < read.issue.len() && read.issue[row] == x;
            row_facts(e, row);
            let (w, s, l) = coordinates(e, row);
            assert(issues[w] == x);
        }
    }
    instants_determined(read.issue, issues);
}

proof fn windows_read_back(e: Emission, horizon: Step, name: Seq<char>, interval: PeriodView, n: int)
    requires
        tells_apart(e, horizon, name),
        interval.step == e.interval,
        0 <= n <= e.count,
    ensures
        window_fault(written_layout(e, name).issues, interval, name, n) is None,
    decreases n,
{
    if n > 0 {
        windows_read_back(e, horizon, name, interval, n - 1);
        let issues = written_layout(e, name).issues;
        assert(e.issue_time(0) is Some);
        no_steps_lead_nowhere(e.interval, e.initial);
        assert(issues[0] == e.initial);
        assert(e.issue_time(n - 1) is Some);
    }
}

proof fn no_percentile_fault(lanes: Seq<LaneValue>, name: Seq<char>, n: int)
    requires
        0 <= n <= lanes.len(),
        forall|i: int|
            0 <= i < lanes.len() ==> (#[trigger] lanes[i] matches LaneValue::Percentile(p)
                && !is_nan(p)),
    ensures
        percentile_fault(lanes, name, n) is None,
    decreases n,
{
    if n > 0 {
        no_percentile_fault(lanes, name, n - 1);
        assert(lanes[n - 1] matches LaneValue::Percentile(p) && !is_nan(p));
    }
}

proof fn highest_is(lanes: Seq<LaneValue>, n: int, top: int)
    requires
        0 <= n <= lanes.len(),
        0 <= top,
        forall|i: int|
            0 <= i < lanes.len() ==> (#[trigger] lanes[i] matches LaneValue::Scenario(s)
                && 0 <= s <= top),
    ensures
        highest_scenario(lanes, n) is Some,
        0 <= highest_scenario(lanes, n)->0 <= top,
        forall|i: int|
            0 <= i < n ==> (#[trigger] lanes[i])->Scenario_0 <= highest_scenario(lanes, n)->0,
    decreases n,
{
    if n > 0 {
        highest_is(lanes, n - 1, top);
        assert(lanes[n - 1] matches LaneValue::Scenario(s) && 0 <= s <= top);
    }
}

proof fn labels_read_back(e: Emission, horizon: Step, name: Seq<char>)
    requires
        tells_apart(e, horizon, name),
    ensures
        labels_of(
            columns_of(e.rows(e.count as int), e.lanes).lanes,
            kind_for(e.lanes),
            name,
        ) == Ok::<LabelsView, Seq<char>>(labels_for(e.lanes)),
{
    let read = columns_of(e.rows(e.count as int), e.lanes);
    column_facts(e);
    match e.lanes {
        LaneAxis::Single => {},
        LaneAxis::Percentiles(percentiles) => {
            assert forall|row: int| 0 <= row < read.lanes.len() implies (
            #[trigger] read.lanes[row] matches LaneValue::Percentile(p) && !is_nan(p)) by {
                row_facts(e, row);
                let (w, s, l) = coordinates(e, row);
                assert(read.issue[row] == e.issue_time(w)->0);
                assert(read.lane(row) == e.lanes.label(l));
                assert(!is_nan(percentiles[l]));
            }
            no_percentile_fault(read.lanes, name, read.lanes.len() as int);
            let key = |x: u64| percentile_rank(x);
            let column = percentiles_in(read.lanes);
            let out = distinct_percentiles(column);
            ascending_is_sorted(column, key);
            assert(strictly_ascending(percentiles, key));
            assert forall|row: int| 0 <= row < column.len() implies percentiles.contains(
                #[trigger] column[row],
            ) by {
                row_facts(e, row);
                let (w, s, l) = coordinates(e, row);
                assert(read.issue[row] == e.issue_time(w)->0);
                assert(read.lane(row) == e.lanes.label(l));
                assert(column[row] == percentiles[l]);
            }
            assert forall|l: int| 0 <= l < percentiles.len() implies column.contains(
                #[trigger] percentiles[l],
            ) by {
                row_found(e, e.count as int, 0, 0, l);
                let row = row_at(e, 0, 0, l);
                assert(e.rows(e.count as int)[row] == e.row(0, 0, l));
                assert(column[row] == percentiles[l]);
            }
            assert forall|k: int| has_key(out, key, k) <==> has_key(percentiles, key, k) by {
                if has_key(out, key, k) {
                    assert(has_key(column, key, k));
                    let row = choose|row: int|
                        0 <= row < column.len() && key(#[trigger] column[row]) == k;
                    assert(percentiles.contains(column[row]));
                    let l = choose|l: int|
                        0 <= l < percentiles.len() && percentiles[l] == column[row];
                    assert(key(percentiles[l]) == k);
                }
                if has_key(percentiles, key, k) {
                    let l = choose|l: int|
                        0 <= l < percentiles.len() && key(#[trigger] percentiles[l]) == k;
                    assert(column.contains(percentiles[l]));
                    let row = choose|row: int|
                        0 <= row < column.len() && column[row] == percentiles[l];
                    assert(key(column[row]) == k);
                    assert(has_key(column, key, k));
                }
            }
            assert forall|i: int, j: int|
                #![trigger out[i], percentiles[j]]
                0 <= i < out.len() && 0 <= j < percentiles.len() && key(out[i]) == key(
                    percentiles[j],
                ) implies out[i] == percentiles[j] by {
                assert(column.contains(out[i]));
                let row = choose|row: int| 0 <= row < column.len() && column[row] == out[i];
                assert(percentiles.contains(column[row]));
                let l = choose|l: int| 0 <= l < percentiles.len() && percentiles[l] == column[row];
                if l < j {
                    assert(percentile_rank(percentiles[l]) < percentile_rank(percentiles[j]));
                } else if j < l {
                    assert(percentile_rank(percentiles[j]) < percentile_rank(percentiles[l]));
                }
            }
            ascending_unique(out, percentiles, key);
        },
        LaneAxis::Scenarios(n) => {
            assert forall|row: int| 0 <= row < read.lanes.len() implies (
            #[trigger] read.lanes[row] matches LaneValue::Scenario(s) && 0 <= s <= n - 1) by {
                row_facts(e, row);
                let (w, s, l) = coordinates(e, row);
                assert(read.issue[row] == e.issue_time(w)->0);
                assert(read.lane(row) == e.lanes.label(l));
            }
            let m = read.lanes.len() as int;
            highest_is(read.lanes, m, n - 1);
            row_found(e, e.count as int, 0, 0, n - 1);
            let row = row_at(e, 0, 0, n - 1);
            assert(e.rows(e.count as int)[row] == e.row(0, 0, n - 1));
            assert(read.lanes[row] == LaneValue::Scenario((n - 1) as i64));
            assert(read.lanes[row]->Scenario_0 <= highest_scenario(read.lanes, m)->0);
        },
    }
}

proof fn step_found(e: Emission, name: Seq<char>, window: int, step: int, k: int)
    requires
        0 <= k <= step < e.steps,
        e.steps <= i64::MAX,
        forall|s: int| 0 <= s < e.steps ==> (#[trigger] e.target_time(window, s)) is Some,
        forall|s: int|
            0 <= s < step ==> (#[trigger] e.target_time(window, s))->0 != e.target_time(
                window,
                step,
            )->0,
    ensures
        step_index(
            e.issue_time(window)->0,
            e.target_time(window, step)->0,
            e.resolution,
            e.steps as int,
            name,
            k,
        ) == Ok::<int, Seq<char>>(step),
    decreases step - k,
{
    assert(e.target_time(window, k) is Some);
    if k < step {
        step_found(e, name, window, step, k + 1);
    }
}

proof fn row_read_back(e: Emission, horizon: Step, name: Seq<char>, row: int)
    requires
        tells_apart(e, horizon, name),
        0 <= row < row_total(e),
    ensures
        ({
            let (window, step, lane) = coordinates(e, row);
            row_place(
                columns_of(e.rows(e.count as int), e.lanes),
                written_layout(e, name),
                row,
            ) == Ok::<Place, Seq<char>>(Place { lane, step, window })
        }),
{
    let read = columns_of(e.rows(e.count as int), e.lanes);
    let layout = written_layout(e, name);
    column_facts(e);
    row_facts(e, row);
    let (window, step, lane) = coordinates(e, row);
    assert(read.issue[row] == e.issue_time(window)->0);
    assert forall|s: int| 0 <= s < step implies (#[trigger] e.target_time(window, s))->0
        != e.target_time(window, step)->0 by {
        assert(e.target_time(window, s) is Some && e.target_time(window, step) is Some);
        steps_lead_on(e.resolution, e.issue_time(window)->0, s as i64, step as i64);
    }
    step_found(e, name, window, step, 0);
    issues_read_back(e, horizon, name);
    let chosen = window_of(layout.issues, read.issue[row]);
    assert(layout.issues[window] == read.issue[row]);
    assert(chosen == window) by {
        assert(0 <= chosen < layout.issues.len() && layout.issues[chosen] == read.issue[row]);
        if chosen < window {
            assert(layout.issues[chosen] < layout.issues[window]);
        } else if window < chosen {
            assert(layout.issues[window] < layout.issues[chosen]);
        }
    }
    match e.lanes {
        LaneAxis::Percentiles(percentiles) => {
            assert(strictly_ascending(percentiles, |x: u64| percentile_rank(x)));
            place_in_ascending(percentiles, lane);
        },
        _ => {},
    }
}

proof fn rows_placed(e: Emission, horizon: Step, name: Seq<char>, n: int)
    requires
        tells_apart(e, horizon, name),
        0 <= n <= row_total(e),
    ensures
        placement_fault(
            columns_of(e.rows(e.count as int), e.lanes),
            written_layout(e, name),
            n,
        ) is None,
    decreases n,
{
    if n > 0 {
        rows_placed(e, horizon, name, n - 1);
        let read = columns_of(e.rows(e.count as int), e.lanes);
        let layout = written_layout(e, name);
        let row = n - 1;
        row_read_back(e, horizon, name, row);
        let place = row_place(read, layout, row)->Ok_0;
        assert forall|j: int| 0 <= j < row implies #[trigger] row_place(read, layout, j) != Ok::<
            Place,
            Seq<char>,
        >(place) by {
            row_read_back(e, horizon, name, j);
            row_facts(e, j);
            row_facts(e, row);
        }
    }
}

/// A buffer is determined by its rows.
pub proof fn rows_determine_bytes(a: Seq<u8>, b: Seq<u8>, n: int, width: int)
    requires
        0 < width,
        a.len() == n * width,
        b.len() == n * width,
        forall|k: int| 0 <= k < n ==> #[trigger] cell(a, k, width) == cell(b, k, width),
    ensures
        a == b,
{
    assert forall|i: int| 0 <= i < a.len() implies a[i] == b[i] by {
        let k = i / width;
        vstd::arithmetic::div_mod::lemma_fundamental_div_mod(i, width);
        assert(width * k == k * width) by (nonlinear_arith);
        assert(0 <= k) by (nonlinear_arith)
            requires
                0 <= i,
                0 < width,
                k == i / width,
        ;
        assert(k < n) by (nonlinear_arith)
            requires
                k * width <= i,
                i < n * width,
                0 < width,
        ;
        cell_inside(k, n, width);
        assert(cell(a, k, width)[i - k * width] == a[i]);
        assert(cell(b, k, width)[i - k * width] == b[i]);
    }
    assert(a =~= b);
}

/// Whether a group's values are a forecast's, one row after the other as the file emits them.
pub open spec fn values_written(values: ArrayView, original: ArrayView, e: Emission, dims: Seq<usize>) -> bool {
    let rows = e.rows(e.count as int);
    let width = (product(dims) * original.dtype.bytes()) as int;
    &&& values.dtype == original.dtype
    &&& values.shape == seq![row_total(e) as usize] + dims
    &&& values.bytes.len() == row_total(e) * width
    &&& forall|row: int|
        0 <= row < row_total(e) ==> #[trigger] cell(values.bytes, row, width) == cell(
            original.bytes,
            rows[row].offset as int,
            width,
        )
}

/// What a read gives back of a write: a forecast whose coordinates tell its values apart is
/// read back, from the rows it was written as, with the axis it had and the array it had.
pub proof fn written_forecast_reads_back(
    axis: AxisView,
    original: ArrayView,
    dims: Seq<usize>,
    steps: nat,
    columns: GridColumns,
    values: ArrayView,
    name: Seq<char>,
    back: DataView,
)
    requires
        axis.kind().forecasts(),
        ({
            let e = emission_of(axis, steps);
            let grid = grid_of_axis(axis);
            &&& tells_apart(e, grid.horizon.step, name)
            &&& original.shape == leading_axes(written_layout(e, name)) + dims
            &&& original.fits()
            &&& product(dims) > 0
            &&& columns.resolution == Some(grid.resolution)
            &&& columns.interval.text.len() > 0
            &&& columns.interval.reading == Ok::<PeriodView, Seq<char>>(grid.interval)
            &&& columns.horizon.text.len() > 0
            &&& columns.horizon.reading == Ok::<PeriodView, Seq<char>>(grid.horizon)
            &&& values_written(values, original, e, dims)
        }),
    ensures
        ({
            let e = emission_of(axis, steps);
            let read = columns_of(e.rows(e.count as int), e.lanes);
            &&& forecast_fault(axis.kind(), columns, read, name) is None
            &&& is_forecast_of(back, axis.kind(), columns, read, values, name) ==> back.axis == axis
                && back.array.dtype == original.dtype && back.array.shape == original.shape
                && back.array.bytes == original.bytes
        }),
{
    let e = emission_of(axis, steps);
    let grid = grid_of_axis(axis);
    let read = columns_of(e.rows(e.count as int), e.lanes);
    let layout = written_layout(e, name);
    let n = row_total(e);
    let lanes = e.lanes.lanes() as int;
    let count = e.count as int;
    column_facts(e);
    issues_read_back(e, grid.horizon.step, name);
    windows_read_back(e, grid.horizon.step, name, grid.interval, count);
    labels_read_back(e, grid.horizon.step, name);
    assert(lanes * steps * count == count * steps * lanes) by (nonlinear_arith);
    assert(n > 0) by (nonlinear_arith)
        requires
            n == count * steps * lanes,
            count > 0,
            steps > 0,
            lanes > 0,
    ;
    assert(e.issue_time(0) is Some);
    no_steps_lead_nowhere(e.interval, e.initial);
    assert(layout.issues[0] == e.initial);
    assert(kind_for(e.lanes) == axis.kind());
    assert(layout_of(axis.kind(), columns, read, name) == Ok::<Layout, Seq<char>>(layout));
    rows_placed(e, grid.horizon.step, name, n);
    if is_forecast_of(back, axis.kind(), columns, read, values, name) {
        assert(element_dims(values.shape) =~= dims);
        let width = (product(dims) * original.dtype.bytes()) as int;
        assert(width > 0) by (nonlinear_arith)
            requires
                product(dims) > 0,
                original.dtype.bytes() > 0,
                width == product(dims) * original.dtype.bytes(),
        ;
        crate::cube::cube_shape_holds(layout, dims, n);
        assert(original.bytes.len() == n * width) by {
            assert(n * product(dims) * original.dtype.bytes() == n * width) by (nonlinear_arith)
                requires
                    width == product(dims) * original.dtype.bytes(),
            ;
        }
        assert forall|slot: int| 0 <= slot < n implies #[trigger] cell(
            back.array.bytes,
            slot,
            width,
        ) == cell(original.bytes, slot, width) by {
            let by_slot = Emission { count: e.lanes.lanes(), lanes: LaneAxis::Scenarios(e.count), ..e };
            assert(row_total(by_slot) == n);
            row_has_coordinates(by_slot, slot);
            let (lane, step, window) = coordinates(by_slot, slot);
            row_found(e, count, window, step, lane);
            let row = row_at(e, window, step, lane);
            row_read_back(e, grid.horizon.step, name, row);
            row_facts(e, row);
            let (w, s, l) = coordinates(e, row);
            slots_apart(
                Place { lane: w, step: s, window: l },
                Place { lane: window, step, window: lane },
                steps as int,
                lanes,
            );
            let place = row_place(read, layout, row)->Ok_0;
            assert(place.slot(layout) == slot);
            assert(e.rows(count)[row].offset == slot);
            assert(cell(values.bytes, row, width) == cell(original.bytes, slot, width));
        }
        rows_determine_bytes(back.array.bytes, original.bytes, n, width);
    }
}

} // verus!
