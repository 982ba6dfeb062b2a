//! A forecast's cube, rebuilt from the rows that spell out its coordinates.
//!
//! Rows are placed by their coordinates and not by their order, so a file that a query
//! engine sorted or partitioned still reads correctly. Every slot is filled exactly once.
use crate::array::{
    cell, cell_inside, element_count, element_dims, product, product_by_rows, product_of_both,
    product_of_one, put_cell, ArrayView, TypedArray,
};
use crate::instant::{
    displayed, instant_text, is_instant, opt_period, step_from, Period, PeriodView, Step,
};
use crate::kinds::TimeSeriesType;
use crate::order::{
    ascending, ascending_by, ascending_is_sorted, distinct_instants, distinct_percentiles,
    distinct_sorted, has_key, instants_come_sorted, is_nan, not_a_number, percentile_place,
    percentile_rank, percentiles_sorted, place_of_percentile, position_of,
};
use crate::rows::grid_of_axis;
use crate::series::{
    bare_descriptors, AxisView, DataView, ForecastGrid, GridView, TimeAxis, TimeSeriesData,
};
use crate::text::{decimal, decimal_text, integer, integer_text};
use vstd::prelude::*;

verus! {

/// A forecast's third axis, whichever column carries it: a percentile as its IEEE 754 bits,
/// or a trajectory.
#[derive(Clone, Copy, Debug, PartialEq, Eq, Structural)]
pub enum LaneValue {
    Percentile(u64),
    Scenario(i64),
}

/// What a forecast's lane axis is, and how wide.
#[derive(Debug)]
pub enum LaneLabels {
    Single,
    Percentiles(Vec<u64>),
    Scenarios(u64),
}

/// [`LaneLabels`], with their list as a sequence.
pub enum LabelsView {
    Single,
    Percentiles(Seq<u64>),
    Scenarios(nat),
}

impl View for LaneLabels {
    type V = LabelsView;

    open spec fn view(&self) -> LabelsView {
        match *self {
            LaneLabels::Single => LabelsView::Single,
            LaneLabels::Percentiles(labels) => LabelsView::Percentiles(labels@),
            LaneLabels::Scenarios(n) => LabelsView::Scenarios(n as nat),
        }
    }
}

impl LabelsView {
    /// How many lanes there are: one where there is no lane axis.
    pub open spec fn lanes(self) -> nat {
        match self {
            LabelsView::Single => 1,
            LabelsView::Percentiles(labels) => labels.len(),
            LabelsView::Scenarios(n) => n,
        }
    }
}

/// A group's rows, as the key columns describe them.
#[derive(Debug)]
pub struct Rows {
    pub timestamps: Vec<i64>,
    /// Empty for a static partition.
    pub issue: Vec<i64>,
    /// Empty for a static partition and for `Deterministic`.
    pub lanes: Vec<LaneValue>,
}

/// [`Rows`], with their columns as sequences.
pub struct RowsView {
    pub timestamps: Seq<i64>,
    pub issue: Seq<i64>,
    pub lanes: Seq<LaneValue>,
}

impl View for Rows {
    type V = RowsView;

    open spec fn view(&self) -> RowsView {
        RowsView { timestamps: self.timestamps@, issue: self.issue@, lanes: self.lanes@ }
    }
}

impl RowsView {
    /// Whether every instant the rows name is on the calendar.
    pub open spec fn on_calendar(self) -> bool {
        &&& forall|i: int|
            0 <= i < self.timestamps.len() ==> is_instant(#[trigger] self.timestamps[i] as int)
        &&& forall|i: int| 0 <= i < self.issue.len() ==> is_instant(#[trigger] self.issue[i] as int)
    }

    /// The lane of a row, if the rows have lanes.
    pub open spec fn lane(self, row: int) -> Option<LaneValue> {
        if row < self.lanes.len() {
            Some(self.lanes[row])
        } else {
            None
        }
    }
}

// ---- Lanes ------------------------------------------------------------------------

pub open spec fn not_percentile_text(name: Seq<char>) -> Seq<char> {
    "series '"@ + name + "' is a Probabilistic but its lane column is not `percentile`"@
}

pub open spec fn not_scenario_text(name: Seq<char>) -> Seq<char> {
    "series '"@ + name + "' is a Scenarios but its lane column is not `scenario`"@
}

pub open spec fn nan_text(name: Seq<char>) -> Seq<char> {
    "series '"@ + name + "' has a percentile that is not a number"@
}

/// The first lane value among `n` that cannot be a percentile, and why.
pub open spec fn percentile_fault(lanes: Seq<LaneValue>, name: Seq<char>, n: int) -> Option<
    Seq<char>,
>
    decreases n,
{
    if n <= 0 {
        None
    } else {
        match percentile_fault(lanes, name, n - 1) {
            Some(fault) => Some(fault),
            None => match lanes[n - 1] {
                LaneValue::Percentile(p) => if is_nan(p) {
                    Some(nan_text(name))
                } else {
                    None
                },
                LaneValue::Scenario(_) => Some(not_percentile_text(name)),
            },
        }
    }
}

/// The percentiles of a lane column.
pub open spec fn percentiles_in(lanes: Seq<LaneValue>) -> Seq<u64> {
    lanes.map_values(
        |lane: LaneValue|
            match lane {
                LaneValue::Percentile(p) => p,
                LaneValue::Scenario(_) => 0u64,
            },
    )
}

/// The highest trajectory among the first `n` lane values, at least zero; `None` if one of
/// them is a percentile.
pub open spec fn highest_scenario(lanes: Seq<LaneValue>, n: int) -> Option<int>
    decreases n,
{
    if n <= 0 {
        Some(0)
    } else {
        match (highest_scenario(lanes, n - 1), lanes[n - 1]) {
            (Some(highest), LaneValue::Scenario(s)) => Some(
                if s > highest {
                    s as int
                } else {
                    highest
                },
            ),
            _ => None,
        }
    }
}

/// The lane axis a group's rows describe.
pub open spec fn labels_of(lanes: Seq<LaneValue>, kind: TimeSeriesType, name: Seq<char>) -> Result<
    LabelsView,
    Seq<char>,
> {
    match kind {
        TimeSeriesType::Probabilistic => match percentile_fault(lanes, name, lanes.len() as int) {
            Some(fault) => Err(fault),
            None => Ok(LabelsView::Percentiles(distinct_percentiles(percentiles_in(lanes)))),
        },
        TimeSeriesType::Scenarios => match highest_scenario(lanes, lanes.len() as int) {
            None => Err(not_scenario_text(name)),
            Some(highest) => Ok(LabelsView::Scenarios((highest + 1) as nat)),
        },
        _ => Ok(LabelsView::Single),
    }
}

/// The lane axis a group's rows describe: the percentiles ascending, which is how the store
/// keeps them, or one more trajectory than the highest named.
pub fn lane_labels(lanes: &Vec<LaneValue>, kind: TimeSeriesType, name: &str) -> (r: Result<
    LaneLabels,
    String,
>)
    ensures
        match (r, labels_of(lanes@, kind, name@)) {
            (Ok(labels), Ok(expected)) => labels@ == expected,
            (Err(e), Err(text)) => e@ == text,
            _ => false,
        },
{
    match kind {
        TimeSeriesType::Probabilistic => {
            let mut labels: Vec<u64> = Vec::new();
            let mut i: usize = 0;
            while i < lanes.len()
                invariant
                    i <= lanes.len(),
                    kind == TimeSeriesType::Probabilistic,
                    percentile_fault(lanes@, name@, i as int) is None,
                    labels@ == percentiles_in(lanes@.take(i as int)),
                decreases lanes.len() - i,
            {
                match lanes[i] {
                    LaneValue::Percentile(p) => {
                        if not_a_number(p) {
                            proof {
                                fault_persists(lanes@, name@, i + 1, lanes@.len() as int);
                            }
                            let mut e = "series '".to_string();
                            e.append(name);
                            e.append("' has a percentile that is not a number");
                            return Err(e);
                        }
                        labels.push(p);
                        proof {
                            assert(labels@ =~= percentiles_in(lanes@.take(i + 1)));
                        }
                    },
                    LaneValue::Scenario(_) => {
                        proof {
                            fault_persists(lanes@, name@, i + 1, lanes@.len() as int);
                        }
                        let mut e = "series '".to_string();
                        e.append(name);
                        e.append("' is a Probabilistic but its lane column is not `percentile`");
                        return Err(e);
                    },
                }
                i += 1;
            }
            proof {
                assert(lanes@.take(i as int) =~= lanes@);
            }
            Ok(LaneLabels::Percentiles(percentiles_sorted(&labels)))
        },
        TimeSeriesType::Scenarios => {
            let mut highest: i64 = 0;
            let mut i: usize = 0;
            while i < lanes.len()
                invariant
                    i <= lanes.len(),
                    kind == TimeSeriesType::Scenarios,
                    highest >= 0,
                    highest_scenario(lanes@, i as int) == Some(highest as int),
                decreases lanes.len() - i,
            {
                match lanes[i] {
                    LaneValue::Scenario(s) => {
                        if s > highest {
                            highest = s;
                        }
                    },
                    LaneValue::Percentile(_) => {
                        proof {
                            missing_scenario_persists(lanes@, i + 1, lanes@.len() as int);
                        }
                        let mut e = "series '".to_string();
                        e.append(name);
                        e.append("' is a Scenarios but its lane column is not `scenario`");
                        return Err(e);
                    },
                }
                i += 1;
            }
            Ok(LaneLabels::Scenarios(highest as u64 + 1))
        },
        _ => Ok(LaneLabels::Single),
    }
}

proof fn fault_persists(lanes: Seq<LaneValue>, name: Seq<char>, n: int, m: int)
    requires
        0 <= n <= m,
        percentile_fault(lanes, name, n) is Some,
    ensures
        percentile_fault(lanes, name, m) == percentile_fault(lanes, name, n),
    decreases m - n,
{
    if n < m {
        fault_persists(lanes, name, n, m - 1);
    }
}

proof fn missing_scenario_persists(lanes: Seq<LaneValue>, n: int, m: int)
    requires
        0 <= n <= m,
        highest_scenario(lanes, n) is None,
    ensures
        highest_scenario(lanes, m) is None,
    decreases m - n,
{
    if n < m {
        missing_scenario_persists(lanes, n, m - 1);
    }
}

pub open spec fn unknown_percentile_text() -> Seq<char> {
    "a row's percentile is not one of its forecast's"@
}

pub open spec fn outside_scenario_text(s: int, n: nat) -> Seq<char> {
    "scenario "@ + integer_text(s) + " is outside 0.."@ + decimal_text(n)
}

pub open spec fn wrong_lane_text() -> Seq<char> {
    "a row's lane column does not match its partition"@
}

/// Which slot on the lane axis a row's label names.
pub open spec fn lane_index(labels: LabelsView, lane: Option<LaneValue>) -> Result<int, Seq<char>> {
    match (labels, lane) {
        (LabelsView::Single, _) => Ok(0),
        (LabelsView::Percentiles(list), Some(LaneValue::Percentile(p))) => match percentile_place(
            list,
            p,
        ) {
            Some(i) => Ok(i),
            None => Err(unknown_percentile_text()),
        },
        (LabelsView::Scenarios(n), Some(LaneValue::Scenario(s))) => if 0 <= s < n {
            Ok(s as int)
        } else {
            Err(outside_scenario_text(s as int, n))
        },
        _ => Err(wrong_lane_text()),
    }
}

impl LaneLabels {
    /// How many lanes there are.
    pub fn count(&self) -> (r: u64)
        ensures
            r == self@.lanes(),
    {
        match self {
            LaneLabels::Single => 1,
            LaneLabels::Percentiles(labels) => labels.len() as u64,
            LaneLabels::Scenarios(n) => *n,
        }
    }

    /// Which slot on the lane axis a row's label names.
    pub fn index_of(&self, lane: Option<LaneValue>) -> (r: Result<u64, String>)
        ensures
            match (r, lane_index(self@, lane)) {
                (Ok(i), Ok(expected)) => i == expected && i < self@.lanes(),
                (Err(e), Err(text)) => e@ == text,
                _ => false,
            },
    {
        match (self, lane) {
            (LaneLabels::Single, _) => Ok(0),
            (LaneLabels::Percentiles(labels), Some(LaneValue::Percentile(p))) => {
                match place_of_percentile(labels, p) {
                    Some(i) => Ok(i as u64),
                    None => Err("a row's percentile is not one of its forecast's".to_string()),
                }
            },
            (LaneLabels::Scenarios(n), Some(LaneValue::Scenario(s))) => {
                if s >= 0 && (s as u64) < *n {
                    Ok(s as u64)
                } else {
                    let mut e = "scenario ".to_string();
                    e.append(integer(s).as_str());
                    e.append(" is outside 0..");
                    e.append(decimal(*n).as_str());
                    Err(e)
                }
            },
            _ => Err("a row's lane column does not match its partition".to_string()),
        }
    }
}

// ---- Steps ------------------------------------------------------------------------

/// The most steps a window may claim.
pub const MOST_STEPS: u64 = 1_000_000;

pub open spec fn horizon_overflow_text() -> Seq<char> {
    "the forecast horizon overflows the calendar"@
}

pub open spec fn too_many_steps_text(name: Seq<char>) -> Seq<char> {
    "series '"@ + name
        + "' claims a horizon of more than a million steps; its `resolution` and `horizon` columns are probably not the ones that wrote it"@
}

/// How many steps from the anchor lie before `end`, counted from the `k`-th on.
pub open spec fn steps_before(
    anchor: i64,
    resolution: Step,
    end: i64,
    name: Seq<char>,
    k: int,
) -> Result<int, Seq<char>>
    decreases MOST_STEPS + 1 - k,
{
    if k < 0 || k > MOST_STEPS {
        Err(too_many_steps_text(name))
    } else {
        match step_from(resolution, anchor, k as i64) {
            None => Err(horizon_overflow_text()),
            Some(at) => if at >= end {
                Ok(k)
            } else {
                steps_before(anchor, resolution, end, name, k + 1)
            },
        }
    }
}

/// How many `resolution` steps fit in `horizon`.
pub open spec fn horizon_steps(
    anchor: i64,
    resolution: Step,
    horizon: Step,
    name: Seq<char>,
) -> Result<int, Seq<char>> {
    match step_from(horizon, anchor, 1) {
        None => Err(horizon_overflow_text()),
        Some(end) => steps_before(anchor, resolution, end, name, 0),
    }
}

/// How many `resolution` steps fit in `horizon`, counted by walking the grid: a month is not
/// a fixed number of milliseconds, so no division would do.
pub fn steps_in(anchor: i64, resolution: Step, horizon: Step, name: &str) -> (r: Result<
    u64,
    String,
>)
    requires
        is_instant(anchor as int),
    ensures
        match (r, horizon_steps(anchor, resolution, horizon, name@)) {
            (Ok(n), Ok(expected)) => n == expected && n <= MOST_STEPS,
            (Err(e), Err(text)) => e@ == text,
            _ => false,
        },
{
    let end: i64 = match horizon.add_to(anchor, 1) {
        Some(end) => end,
        None => {
            return Err("the forecast horizon overflows the calendar".to_string());
        },
    };
    let mut k: u64 = 0;
    while k <= MOST_STEPS
        invariant
            k <= MOST_STEPS + 1,
            is_instant(anchor as int),
            steps_before(anchor, resolution, end, name@, 0) == steps_before(
                anchor,
                resolution,
                end,
                name@,
                k as int,
            ),
            horizon_steps(anchor, resolution, horizon, name@) == steps_before(
                anchor,
                resolution,
                end,
                name@,
                0,
            ),
        decreases MOST_STEPS + 1 - k,
    {
        match resolution.add_to(anchor, k as i64) {
            None => {
                return Err("the forecast horizon overflows the calendar".to_string());
            },
            Some(at) => {
                if at >= end {
                    return Ok(k);
                }
            },
        }
        k += 1;
    }
    let mut e = "series '".to_string();
    e.append(name);
    e.append(
        "' claims a horizon of more than a million steps; its `resolution` and `horizon` columns are probably not the ones that wrote it",
    );
    Err(e)
}

pub open spec fn step_overflow_text() -> Seq<char> {
    "a forecast step overflows the calendar"@
}

pub open spec fn off_grid_text(issue: i64, target: i64, steps: int, name: Seq<char>) -> Seq<char> {
    "series '"@ + name + "' has a target time of "@ + instant_text(target)
        + ", which is not on the "@ + decimal_text(steps as nat) + "-step grid starting at "@
        + instant_text(issue)
}

/// Which step of the window issued at `issue` the instant `target` is, from the `k`-th on.
pub open spec fn step_index(
    issue: i64,
    target: i64,
    resolution: Step,
    steps: int,
    name: Seq<char>,
    k: int,
) -> Result<int, Seq<char>>
    decreases steps - k,
{
    if k >= steps {
        Err(off_grid_text(issue, target, steps, name))
    } else {
        match step_from(resolution, issue, k as i64) {
            None => Err(step_overflow_text()),
            Some(at) => if at == target {
                Ok(k)
            } else {
                step_index(issue, target, resolution, steps, name, k + 1)
            },
        }
    }
}

/// Which step of the window issued at `issue` the instant `target` is.
pub fn step_of(issue: i64, target: i64, resolution: Step, steps: u64, name: &str) -> (r: Result<
    u64,
    String,
>)
    requires
        is_instant(issue as int),
        is_instant(target as int),
        steps <= MOST_STEPS,
    ensures
        match (r, step_index(issue, target, resolution, steps as int, name@, 0)) {
            (Ok(k), Ok(expected)) => k == expected && k < steps,
            (Err(e), Err(text)) => e@ == text,
            _ => false,
        },
{
    let mut k: u64 = 0;
    while k < steps
        invariant
            k <= steps <= MOST_STEPS,
            is_instant(issue as int),
            step_index(issue, target, resolution, steps as int, name@, 0) == step_index(
                issue,
                target,
                resolution,
                steps as int,
                name@,
                k as int,
            ),
        decreases steps - k,
    {
        match resolution.add_to(issue, k as i64) {
            None => {
                return Err("a forecast step overflows the calendar".to_string());
            },
            Some(at) => {
                if at == target {
                    return Ok(k);
                }
            },
        }
        k += 1;
    }
    let mut e = "series '".to_string();
    e.append(name);
    e.append("' has a target time of ");
    e.append(displayed(target).as_str());
    e.append(", which is not on the ");
    e.append(decimal(steps).as_str());
    e.append("-step grid starting at ");
    e.append(displayed(issue).as_str());
    Err(e)
}

// ---- Windows ----------------------------------------------------------------------

pub open spec fn window_overflow_text() -> Seq<char> {
    "a forecast window overflows the calendar"@
}

pub open spec fn off_window_text(
    issued: i64,
    window: int,
    initial: i64,
    interval: PeriodView,
    name: Seq<char>,
) -> Seq<char> {
    "series '"@ + name + "' has an issue time of "@ + instant_text(issued)
        + ", which is not window "@ + decimal_text(window as nat) + " of a "@ + interval.iso
        + " grid anchored at "@ + instant_text(initial)
}

/// The first of the first `n` issue times that is not where its window's is, and why.
pub open spec fn window_fault(
    issues: Seq<i64>,
    interval: PeriodView,
    name: Seq<char>,
    n: int,
) -> Option<Seq<char>>
    decreases n,
{
    if n <= 0 {
        None
    } else {
        match window_fault(issues, interval, name, n - 1) {
            Some(fault) => Some(fault),
            None => match step_from(interval.step, issues[0], (n - 1) as i64) {
                None => Some(window_overflow_text()),
                Some(at) => if at != issues[n - 1] {
                    Some(off_window_text(issues[n - 1], n - 1, issues[0], interval, name))
                } else {
                    None
                },
            },
        }
    }
}

proof fn window_fault_persists(
    issues: Seq<i64>,
    interval: PeriodView,
    name: Seq<char>,
    n: int,
    m: int,
)
    requires
        0 <= n <= m,
        window_fault(issues, interval, name, n) is Some,
    ensures
        window_fault(issues, interval, name, m) == window_fault(issues, interval, name, n),
    decreases m - n,
{
    if n < m {
        window_fault_persists(issues, interval, name, n, m - 1);
    }
}

/// Checks that ascending issue times are the windows of one grid.
pub fn check_windows(issues: &Vec<i64>, interval: &Period, name: &str) -> (r: Result<(), String>)
    requires
        forall|i: int| 0 <= i < issues@.len() ==> is_instant(#[trigger] issues@[i] as int),
        issues@.len() <= i64::MAX,
    ensures
        match (r, window_fault(issues@, interval@, name@, issues@.len() as int)) {
            (Ok(_), None) => true,
            (Err(e), Some(text)) => e@ == text,
            _ => false,
        },
{
    let mut w: usize = 0;
    while w < issues.len()
        invariant
            w <= issues.len() <= i64::MAX,
            forall|i: int| 0 <= i < issues@.len() ==> is_instant(#[trigger] issues@[i] as int),
            window_fault(issues@, interval@, name@, w as int) is None,
        decreases issues.len() - w,
    {
        let initial: i64 = issues[0];
        match interval.step.add_to(initial, w as i64) {
            None => {
                proof {
                    window_fault_persists(issues@, interval@, name@, w + 1, issues@.len() as int);
                }
                return Err("a forecast window overflows the calendar".to_string());
            },
            Some(at) => {
                if at != issues[w] {
                    proof {
                        window_fault_persists(
                            issues@,
                            interval@,
                            name@,
                            w + 1,
                            issues@.len() as int,
                        );
                    }
                    let mut e = "series '".to_string();
                    e.append(name);
                    e.append("' has an issue time of ");
                    e.append(displayed(issues[w]).as_str());
                    e.append(", which is not window ");
                    e.append(decimal(w as u64).as_str());
                    e.append(" of a ");
                    e.append(interval.iso.as_str());
                    e.append(" grid anchored at ");
                    e.append(displayed(initial).as_str());
                    return Err(e);
                }
            },
        }
        w += 1;
    }
    Ok(())
}

// ---- Placement --------------------------------------------------------------------

/// The grid a group's rows are placed on.
pub struct Layout {
    pub issues: Seq<i64>,
    pub resolution: Step,
    pub steps: int,
    pub labels: LabelsView,
    pub name: Seq<char>,
}

impl Layout {
    /// How many values the grid holds.
    pub open spec fn size(self) -> int {
        self.labels.lanes() * self.steps * self.issues.len()
    }
}

/// Where a value belongs: its lane, its step, and its window.
pub struct Place {
    pub lane: int,
    pub step: int,
    pub window: int,
}

/// The flat index of a lane, a step and a window in a cube's row-major order.
pub open spec fn slot_at(lane: int, step: int, window: int, steps: int, count: int) -> int {
    (lane * steps + step) * count + window
}

impl Place {
    /// The flat index of the place in the cube.
    pub open spec fn slot(self, layout: Layout) -> int {
        slot_at(self.lane, self.step, self.window, layout.steps, layout.issues.len() as int)
    }

    /// Whether the place is on the grid.
    pub open spec fn inside(self, layout: Layout) -> bool {
        &&& 0 <= self.lane < layout.labels.lanes()
        &&& 0 <= self.step < layout.steps
        &&& 0 <= self.window < layout.issues.len()
    }
}

/// Which window an issue time is.
pub open spec fn window_of(issues: Seq<i64>, at: i64) -> int {
    choose|w: int| 0 <= w < issues.len() && #[trigger] issues[w] == at
}

/// Where a row belongs, or why it belongs nowhere.
pub open spec fn row_place(rows: RowsView, layout: Layout, row: int) -> Result<Place, Seq<char>> {
    match step_index(
        rows.issue[row],
        rows.timestamps[row],
        layout.resolution,
        layout.steps,
        layout.name,
        0,
    ) {
        Err(text) => Err(text),
        Ok(step) => match lane_index(layout.labels, rows.lane(row)) {
            Err(text) => Err(text),
            Ok(lane) => Ok(
                Place { lane, step, window: window_of(layout.issues, rows.issue[row]) },
            ),
        },
    }
}

pub open spec fn two_rows_text(place: Place, name: Seq<char>) -> Seq<char> {
    "series '"@ + name + "' has two rows for window "@ + decimal_text(place.window as nat)
        + ", step "@ + decimal_text(place.step as nat) + ", lane "@ + decimal_text(
        place.lane as nat,
    )
}

/// What is wrong with a row: it belongs nowhere, or where an earlier row does.
pub open spec fn row_fault(rows: RowsView, layout: Layout, row: int) -> Option<Seq<char>> {
    match row_place(rows, layout, row) {
        Err(text) => Some(text),
        Ok(place) => if exists|j: int|
            0 <= j < row && #[trigger] row_place(rows, layout, j) == Ok::<Place, Seq<char>>(
                place,
            ) {
            Some(two_rows_text(place, layout.name))
        } else {
            None
        },
    }
}

/// What is wrong with the first bad row among `n`.
pub open spec fn placement_fault(rows: RowsView, layout: Layout, n: int) -> Option<Seq<char>>
    decreases n,
{
    if n <= 0 {
        None
    } else {
        match placement_fault(rows, layout, n - 1) {
            Some(fault) => Some(fault),
            None => row_fault(rows, layout, n - 1),
        }
    }
}

proof fn placement_fault_persists(rows: RowsView, layout: Layout, n: int, m: int)
    requires
        0 <= n <= m,
        placement_fault(rows, layout, n) is Some,
    ensures
        placement_fault(rows, layout, m) == placement_fault(rows, layout, n),
    decreases m - n,
{
    if n < m {
        placement_fault_persists(rows, layout, n, m - 1);
    }
}

/// Rows without a fault each have a place, and no two the same.
pub proof fn faultless_rows_have_places(rows: RowsView, layout: Layout, n: int)
    requires
        placement_fault(rows, layout, n) is None,
    ensures
        forall|j: int| 0 <= j < n ==> (#[trigger] row_place(rows, layout, j)) is Ok,
        forall|i: int, j: int|
            #![trigger row_place(rows, layout, i), row_place(rows, layout, j)]
            0 <= i < j < n ==> row_place(rows, layout, i) != row_place(rows, layout, j),
    decreases n,
{
    if n > 0 {
        faultless_rows_have_places(rows, layout, n - 1);
        assert(row_fault(rows, layout, n - 1) is None);
    }
}

/// A place on the grid has a slot of the cube.
pub proof fn slot_inside(lane: int, step: int, window: int, lanes: int, steps: int, count: int)
    requires
        0 <= lane < lanes,
        0 <= step < steps,
        0 <= window < count,
    ensures
        0 <= lane * steps + step < lanes * steps,
        0 <= (lane * steps + step) * count,
        0 <= slot_at(lane, step, window, steps, count) < lanes * steps * count,
{
    assert(0 <= lane * steps && lane * steps + steps <= lanes * steps) by (nonlinear_arith)
        requires
            0 <= lane < lanes,
            0 <= step < steps,
    ;
    let flat = lane * steps + step;
    assert(0 <= flat * count && flat * count + count <= lanes * steps * count) by (nonlinear_arith)
        requires
            0 <= flat < lanes * steps,
            0 < count,
    ;
}

/// Two places with one slot are one place.
pub proof fn slots_apart(a: Place, b: Place, steps: int, count: int)
    requires
        0 <= a.step < steps,
        0 <= b.step < steps,
        0 <= a.window < count,
        0 <= b.window < count,
        slot_at(a.lane, a.step, a.window, steps, count) == slot_at(
            b.lane,
            b.step,
            b.window,
            steps,
            count,
        ),
    ensures
        a == b,
{
    quotients_agree(a.lane * steps + a.step, a.window, b.lane * steps + b.step, b.window, count);
    quotients_agree(a.lane, a.step, b.lane, b.step, steps);
}

proof fn quotients_agree(q1: int, r1: int, q2: int, r2: int, d: int)
    requires
        0 <= r1 < d,
        0 <= r2 < d,
        q1 * d + r1 == q2 * d + r2,
    ensures
        q1 == q2,
        r1 == r2,
{
    if q1 < q2 {
        assert(q1 * d + d <= q2 * d) by (nonlinear_arith)
            requires
                q1 < q2,
                0 < d,
        ;
    } else if q2 < q1 {
        assert(q2 * d + d <= q1 * d) by (nonlinear_arith)
            requires
                q2 < q1,
                0 < d,
        ;
    }
}

/// Where the bytes of a cube come from: each row's value is in the slot of its place.
pub open spec fn holds_rows(
    bytes: Seq<u8>,
    rows: RowsView,
    layout: Layout,
    values: Seq<u8>,
    width: int,
    n: int,
) -> bool {
    forall|row: int|
        0 <= row < n ==> cell(
            bytes,
            (#[trigger] row_place(rows, layout, row))->Ok_0.slot(layout),
            width,
        ) == cell(values, row, width)
}

/// As many rows as the grid has slots, each on the grid and no two alike, fill it: there is
/// no hole to find.
pub proof fn no_slot_is_left_out(rows: RowsView, layout: Layout, n: int, slot: int)
    requires
        placement_fault(rows, layout, n) is None,
        n == layout.size(),
        forall|row: int|
            0 <= row < n ==> (#[trigger] row_place(rows, layout, row))->Ok_0.inside(layout),
        0 <= slot < n,
    ensures
        exists|row: int|
            0 <= row < n && (#[trigger] row_place(rows, layout, row))->Ok_0.slot(layout) == slot,
{
    faultless_rows_have_places(rows, layout, n);
    let slots = Seq::new(n as nat, |row: int| row_place(rows, layout, row)->Ok_0.slot(layout));
    assert forall|i: int, j: int| 0 <= i < slots.len() && 0 <= j < slots.len() && i != j implies
        slots[i] != slots[j] by {
        let a = row_place(rows, layout, i)->Ok_0;
        let b = row_place(rows, layout, j)->Ok_0;
        assert(a.inside(layout) && b.inside(layout));
        assert(row_place(rows, layout, i) != row_place(rows, layout, j));
        if slots[i] == slots[j] {
            slots_apart(a, b, layout.steps, layout.issues.len() as int);
        }
    }
    slots.unique_seq_to_set();
    vstd::set_lib::lemma_int_range(0, n);
    let range = vstd::set_lib::set_int_range(0, n);
    assert(slots.to_set().subset_of(range)) by {
        assert forall|s: int| slots.to_set().contains(s) implies range.contains(s) by {
            let i = choose|i: int| 0 <= i < slots.len() && slots[i] == s;
            let a = row_place(rows, layout, i)->Ok_0;
            assert(a.inside(layout));
            slot_inside(
                a.lane,
                a.step,
                a.window,
                layout.labels.lanes() as int,
                layout.steps,
                layout.issues.len() as int,
            );
        }
    }
    vstd::set_lib::lemma_subset_equality(slots.to_set(), range);
    assert(range.contains(slot));
    assert(slots.to_set().contains(slot));
    let i = choose|i: int| 0 <= i < slots.len() && slots[i] == slot;
    assert(row_place(rows, layout, i)->Ok_0.slot(layout) == slot);
}

/// Places every row by its coordinates, or says what is wrong with the first bad one.
#[verifier::rlimit(40)]
pub fn place_rows(
    rows: &Rows,
    issues: &Vec<i64>,
    resolution: Step,
    steps: u64,
    labels: &LaneLabels,
    values: &Vec<u8>,
    width: usize,
    name: &str,
) -> (r: Result<Vec<u8>, String>)
    requires
        rows@.on_calendar(),
        rows.issue@.len() == rows.timestamps@.len(),
        ascending(issues@),
        forall|x: i64| rows.issue@.contains(x) ==> issues@.contains(x),
        steps <= MOST_STEPS,
        labels@.lanes() * steps * issues@.len() == rows.timestamps@.len(),
        values@.len() == rows.timestamps@.len() * width,
    ensures
        ({
            let layout = Layout {
                issues: issues@,
                resolution,
                steps: steps as int,
                labels: labels@,
                name: name@,
            };
            let n = rows.timestamps@.len() as int;
            match (r, placement_fault(rows@, layout, n)) {
                (Ok(bytes), None) => {
                    &&& bytes@.len() == n * width
                    &&& holds_rows(bytes@, rows@, layout, values@, width as int, n)
                    &&& forall|row: int|
                        0 <= row < n ==> (#[trigger] row_place(rows@, layout, row))->Ok_0.inside(
                            layout,
                        )
                },
                (Err(e), Some(text)) => e@ == text,
                _ => false,
            }
        }),
{
    let n: usize = rows.timestamps.len();
    let total: usize = values.len();
    let ghost layout = Layout {
        issues: issues@,
        resolution,
        steps: steps as int,
        labels: labels@,
        name: name@,
    };
    let count: usize = issues.len();
    let mut bytes: Vec<u8> = vec![0u8; total];
    let mut filled: Vec<bool> = vec![false; n];
    let mut row: usize = 0;
    while row < n
        invariant
            row <= n,
            n == rows.timestamps@.len(),
            n == rows.issue@.len(),
            count == issues@.len(),
            total == n * width,
            total == values@.len(),
            total == bytes@.len(),
            filled@.len() == n,
            rows@.on_calendar(),
            ascending(issues@),
            forall|x: i64| rows.issue@.contains(x) ==> issues@.contains(x),
            steps <= MOST_STEPS,
            labels@.lanes() * steps * issues@.len() == n,
            layout == (Layout {
                issues: issues@,
                resolution,
                steps: steps as int,
                labels: labels@,
                name: name@,
            }),
            placement_fault(rows@, layout, row as int) is None,
            forall|j: int|
                0 <= j < row ==> (#[trigger] row_place(rows@, layout, j))->Ok_0.inside(layout)
                    && filled@[row_place(rows@, layout, j)->Ok_0.slot(layout)],
            forall|slot: int|
                0 <= slot < n && #[trigger] filled@[slot] ==> exists|j: int|
                    0 <= j < row && (#[trigger] row_place(rows@, layout, j))->Ok_0.slot(layout)
                        == slot,
            holds_rows(bytes@, rows@, layout, values@, width as int, row as int),
        decreases n - row,
    {
        let issued: i64 = rows.issue[row];
        let at: i64 = rows.timestamps[row];
        proof {
            assert(rows@.issue[row as int] == issued);
            assert(rows@.timestamps[row as int] == at);
            assert(rows.issue@.contains(issued));
            assert(n == layout.size());
        }
        let window: usize = match position_of(issues, issued) {
            Some(w) => w,
            None => {
                proof {
                    assert(false);
                }
                0
            },
        };
        proof {
            let chosen = window_of(issues@, issued);
            assert(issues@[window as int] == issued);
            assert(0 <= chosen < issues@.len() && issues@[chosen] == issued);
            assert(chosen == window) by {
                if chosen < window {
                    assert(issues@[chosen] < issues@[window as int]);
                } else if window < chosen {
                    assert(issues@[window as int] < issues@[chosen]);
                }
            }
        }
        let step: u64 = match step_of(issued, at, resolution, steps, name) {
            Ok(step) => step,
            Err(e) => {
                proof {
                    placement_fault_persists(rows@, layout, row + 1, n as int);
                }
                return Err(e);
            },
        };
        let label: Option<LaneValue> = if row < rows.lanes.len() {
            Some(rows.lanes[row])
        } else {
            None
        };
        proof {
            assert(label == rows@.lane(row as int));
        }
        let lane: u64 = match labels.index_of(label) {
            Ok(lane) => lane,
            Err(e) => {
                proof {
                    placement_fault_persists(rows@, layout, row + 1, n as int);
                }
                return Err(e);
            },
        };
        let ghost place = Place { lane: lane as int, step: step as int, window: window as int };
        proof {
            assert(row_place(rows@, layout, row as int) == Ok::<Place, Seq<char>>(place));
            assert(place.inside(layout));
            slot_inside(
                lane as int,
                step as int,
                window as int,
                labels@.lanes() as int,
                steps as int,
                count as int,
            );
            sizes_fit(labels@.lanes() as int, steps as int, count as int, n as int);
        }
        let flat: usize = lane as usize * steps as usize + step as usize;
        let slot: usize = flat * count + window;
        proof {
            assert(slot == place.slot(layout));
        }
        if filled[slot] {
            proof {
                let j = choose|j: int|
                    0 <= j < row && (#[trigger] row_place(rows@, layout, j))->Ok_0.slot(layout)
                        == slot;
                faultless_rows_have_places(rows@, layout, row as int);
                let other = row_place(rows@, layout, j)->Ok_0;
                slots_apart(other, place, steps as int, count as int);
                assert(row_place(rows@, layout, j) == Ok::<Place, Seq<char>>(place));
                assert(row_fault(rows@, layout, row as int) == Some(
                    two_rows_text(place, name@),
                ));
                placement_fault_persists(rows@, layout, row + 1, n as int);
            }
            let mut e = "series '".to_string();
            e.append(name);
            e.append("' has two rows for window ");
            e.append(decimal(window as u64).as_str());
            e.append(", step ");
            e.append(decimal(step).as_str());
            e.append(", lane ");
            e.append(decimal(lane).as_str());
            return Err(e);
        }
        let ghost bytes_before = bytes@;
        proof {
            cell_inside(slot as int, n as int, width as int);
            cell_inside(row as int, n as int, width as int);
        }
        put_cell(&mut bytes, slot, values, row, width);
        let ghost filled_before = filled@;
        filled.set(slot, true);
        proof {
            assert(row_fault(rows@, layout, row as int) is None) by {
                if exists|j: int|
                    0 <= j < row && #[trigger] row_place(rows@, layout, j) == Ok::<
                        Place,
                        Seq<char>,
                    >(place) {
                    let j = choose|j: int|
                        0 <= j < row && #[trigger] row_place(rows@, layout, j) == Ok::<
                            Place,
                            Seq<char>,
                        >(place);
                    assert(filled_before[row_place(rows@, layout, j)->Ok_0.slot(layout)]);
                }
            }
            assert forall|j: int| 0 <= j < row + 1 implies (#[trigger] row_place(
                rows@,
                layout,
                j,
            ))->Ok_0.inside(layout) && filled@[row_place(rows@, layout, j)->Ok_0.slot(layout)] by {
                if j < row {
                    let other = row_place(rows@, layout, j)->Ok_0;
                    slot_inside(
                        other.lane,
                        other.step,
                        other.window,
                        labels@.lanes() as int,
                        steps as int,
                        count as int,
                    );
                }
            }
            assert forall|s: int| 0 <= s < n && #[trigger] filled@[s] implies exists|j: int|
                0 <= j < row + 1 && (#[trigger] row_place(rows@, layout, j))->Ok_0.slot(layout)
                    == s by {
                if s != slot {
                    assert(filled_before[s]);
                    let j = choose|j: int|
                        0 <= j < row && (#[trigger] row_place(rows@, layout, j))->Ok_0.slot(layout)
                            == s;
                    assert(row_place(rows@, layout, j)->Ok_0.slot(layout) == s);
                } else {
                    assert(row_place(rows@, layout, row as int)->Ok_0.slot(layout) == s);
                }
            }
            assert forall|j: int| 0 <= j < row + 1 implies cell(
                bytes@,
                (#[trigger] row_place(rows@, layout, j))->Ok_0.slot(layout),
                width as int,
            ) == cell(values@, j, width as int) by {
                if j < row {
                    let other = row_place(rows@, layout, j)->Ok_0;
                    slot_inside(
                        other.lane,
                        other.step,
                        other.window,
                        labels@.lanes() as int,
                        steps as int,
                        count as int,
                    );
                    let s = other.slot(layout);
                    assert(filled_before[s]);
                    assert(s != slot);
                    cell_inside(s, n as int, width as int);
                    assert(cell(bytes@, s, width as int) == cell(bytes_before, s, width as int));
                }
            }
        }
        row += 1;
    }
    Ok(bytes)
}

/// The factors of a grid that fits are themselves small enough.
proof fn sizes_fit(lanes: int, steps: int, count: int, n: int)
    requires
        0 < lanes,
        0 < steps,
        0 < count,
        lanes * steps * count == n,
    ensures
        lanes <= n,
        steps <= n,
        count <= n,
        lanes * steps <= n,
{
    assert(lanes <= lanes * steps && steps <= lanes * steps) by (nonlinear_arith)
        requires
            0 < lanes,
            0 < steps,
    ;
    let flat = lanes * steps;
    assert(flat <= flat * count && count <= flat * count) by (nonlinear_arith)
        requires
            0 < flat,
            0 < count,
    ;
}

// ---- The forecast -----------------------------------------------------------------

/// A period as a column spells it, with what reading the text gives.
#[derive(Debug)]
pub struct Spelled {
    pub text: String,
    pub reading: Result<Period, String>,
}

/// A [`Spelled`], with its texts as characters.
pub struct SpelledView {
    pub text: Seq<char>,
    pub reading: Result<PeriodView, Seq<char>>,
}

impl View for Spelled {
    type V = SpelledView;

    open spec fn view(&self) -> SpelledView {
        SpelledView {
            text: self.text@,
            reading: match self.reading {
                Ok(period) => Ok(period@),
                Err(e) => Err(e@),
            },
        }
    }
}

pub open spec fn missing_grid_text(column: Seq<char>, name: Seq<char>) -> Seq<char> {
    "series '"@ + name + "' is a forecast and needs a `"@ + column
        + "`: the rows say where each value belongs, not what the grid it belongs to is"@
}

/// What is said of a forecast without one of its periods.
pub fn missing_grid(column: &str, name: &str) -> (r: String)
    ensures
        r@ == missing_grid_text(column@, name@),
{
    let mut e = "series '".to_string();
    e.append(name);
    e.append("' is a forecast and needs a `");
    e.append(column);
    e.append(
        "`: the rows say where each value belongs, not what the grid it belongs to is",
    );
    e
}

/// The period a column must spell.
pub open spec fn period_in(spelled: SpelledView, column: Seq<char>, name: Seq<char>) -> Result<
    PeriodView,
    Seq<char>,
> {
    if spelled.text.len() == 0 {
        Err(missing_grid_text(column, name))
    } else {
        match spelled.reading {
            Ok(period) => Ok(period),
            Err(e) => Err(column + ": "@ + e),
        }
    }
}

/// The period a column must spell.
pub fn required_period(spelled: Spelled, column: &str, name: &str) -> (r: Result<Period, String>)
    ensures
        match (r, period_in(spelled@, column@, name@)) {
            (Ok(period), Ok(expected)) => period@ == expected,
            (Err(e), Err(text)) => e@ == text,
            _ => false,
        },
{
    if spelled.text.as_str().is_empty() {
        return Err(missing_grid(column, name));
    }
    match spelled.reading {
        Ok(period) => Ok(period),
        Err(e) => {
            let mut out = column.to_string();
            out.append(": ");
            out.append(e.as_str());
            Err(out)
        },
    }
}

/// A forecast's three periods, as its row gives them.
pub struct GridColumns {
    pub resolution: Option<PeriodView>,
    pub interval: SpelledView,
    pub horizon: SpelledView,
}

pub open spec fn no_issue_text(name: Seq<char>) -> Seq<char> {
    "series '"@ + name + "' is a forecast but has no `issue_time` column"@
}

pub open spec fn no_rows_text(name: Seq<char>) -> Seq<char> {
    "series '"@ + name + "' is a forecast with no rows"@
}

pub open spec fn too_wide_text(name: Seq<char>) -> Seq<char> {
    "series '"@ + name + "' spans more values than this platform can address"@
}

pub open spec fn row_count_text(rows: nat, lanes: nat, steps: nat, count: nat, name: Seq<char>) -> Seq<
    char,
> {
    "series '"@ + name + "' has "@ + decimal_text(rows) + " rows, but its grid holds "@
        + decimal_text(lanes * steps * count) + " values ("@ + decimal_text(lanes) + " lanes x "@
        + decimal_text(steps) + " steps x "@ + decimal_text(count) + " windows)"@
}

/// The grid a forecast's rows are placed on, or why there is none.
pub open spec fn layout_of(
    kind: TimeSeriesType,
    columns: GridColumns,
    rows: RowsView,
    name: Seq<char>,
) -> Result<Layout, Seq<char>> {
    match (
        columns.resolution,
        period_in(columns.interval, "interval"@, name),
        period_in(columns.horizon, "horizon"@, name),
    ) {
        (None, _, _) => Err(missing_grid_text("resolution"@, name)),
        (_, Err(text), _) => Err(text),
        (_, _, Err(text)) => Err(text),
        (Some(resolution), Ok(interval), Ok(horizon)) => {
            let issues = distinct_instants(rows.issue);
            let count = issues.len();
            if rows.issue.len() != rows.timestamps.len() {
                Err(no_issue_text(name))
            } else if rows.issue.len() == 0 {
                Err(no_rows_text(name))
            } else {
                match (
                    window_fault(issues, interval, name, count as int),
                    horizon_steps(issues[0], resolution.step, horizon.step, name),
                    labels_of(rows.lanes, kind, name),
                ) {
                    (Some(text), _, _) => Err(text),
                    (_, Err(text), _) => Err(text),
                    (_, _, Err(text)) => Err(text),
                    (None, Ok(steps), Ok(labels)) => {
                        let lanes = labels.lanes();
                        if lanes * steps * count > usize::MAX {
                            Err(too_wide_text(name))
                        } else if rows.timestamps.len() != lanes * steps * count {
                            Err(
                                row_count_text(
                                    rows.timestamps.len(),
                                    lanes,
                                    steps as nat,
                                    count,
                                    name,
                                ),
                            )
                        } else {
                            Ok(Layout { issues, resolution: resolution.step, steps, labels, name })
                        }
                    },
                }
            }
        },
    }
}

/// What keeps a group's rows from being a forecast, if anything does.
pub open spec fn forecast_fault(
    kind: TimeSeriesType,
    columns: GridColumns,
    rows: RowsView,
    name: Seq<char>,
) -> Option<Seq<char>> {
    match layout_of(kind, columns, rows, name) {
        Err(text) => Some(text),
        Ok(layout) => placement_fault(rows, layout, rows.timestamps.len() as int),
    }
}

/// The leading axes of the cube a layout describes.
pub open spec fn leading_axes(layout: Layout) -> Seq<usize> {
    match layout.labels {
        LabelsView::Single => seq![layout.steps as usize, layout.issues.len() as usize],
        _ => seq![
            layout.labels.lanes() as usize,
            layout.steps as usize,
            layout.issues.len() as usize,
        ],
    }
}

/// The grid a forecast's rows describe.
pub open spec fn grid_in(columns: GridColumns, layout: Layout) -> GridView {
    GridView {
        initial_timestamp: layout.issues[0],
        resolution: columns.resolution->0,
        horizon: columns.horizon.reading->Ok_0,
        interval: columns.interval.reading->Ok_0,
        count: layout.issues.len(),
    }
}

/// The axis a forecast's rows describe.
pub open spec fn axis_in(columns: GridColumns, layout: Layout) -> AxisView {
    let grid = grid_in(columns, layout);
    match layout.labels {
        LabelsView::Single => AxisView::Deterministic { grid },
        LabelsView::Percentiles(percentiles) => AxisView::Probabilistic { grid, percentiles },
        LabelsView::Scenarios(scenario_count) => AxisView::Scenarios { grid, scenario_count },
    }
}

/// A forecast as its rows describe it: the axes of the grid they sit on, and in each slot of
/// the cube the value of the row that belongs there.
pub open spec fn is_forecast_of(
    data: DataView,
    kind: TimeSeriesType,
    columns: GridColumns,
    rows: RowsView,
    array: ArrayView,
    name: Seq<char>,
) -> bool {
    let layout = layout_of(kind, columns, rows, name)->Ok_0;
    let n = rows.timestamps.len() as int;
    let width = (product(element_dims(array.shape)) * array.dtype.bytes()) as int;
    &&& data.name == name
    &&& data.axis == axis_in(columns, layout)
    &&& data.array.dtype == array.dtype
    &&& data.array.shape == leading_axes(layout) + element_dims(array.shape)
    &&& data.array.bytes.len() == n * width
    &&& holds_rows(data.array.bytes, rows, layout, array.bytes, width, n)
    &&& data.array.fits()
    &&& data.descriptors == bare_descriptors(data.array)
}

pub proof fn cube_shape_holds(layout: Layout, dims: Seq<usize>, n: int)
    requires
        layout.size() == n,
        0 < n <= usize::MAX,
        layout.steps > 0,
    ensures
        product(leading_axes(layout) + dims) == n * product(dims),
        layout.labels.lanes() <= usize::MAX,
        layout.steps <= usize::MAX,
        layout.issues.len() <= usize::MAX,
{
    let lanes = layout.labels.lanes() as int;
    let steps = layout.steps;
    let count = layout.issues.len() as int;
    assert(0 < lanes && 0 < count) by (nonlinear_arith)
        requires
            lanes * steps * count > 0,
            0 <= lanes,
            0 < steps,
            0 <= count,
    ;
    sizes_fit(lanes, steps, count, n);
    let lead = leading_axes(layout);
    product_of_both(lead, dims);
    match layout.labels {
        LabelsView::Single => {
            let a = seq![steps as usize];
            assert(lead.drop_last() =~= a);
            product_of_one(steps as usize);
            assert(product(lead) == steps * count);
        },
        _ => {
            let b = seq![lanes as usize, steps as usize];
            let a = seq![lanes as usize];
            assert(lead.drop_last() =~= b);
            assert(b.drop_last() =~= a);
            product_of_one(lanes as usize);
            assert(product(b) == lanes * steps);
            assert(product(lead) == lanes * steps * count);
        },
    }
}

/// How many values a grid holds, if the platform's sizes reach it.
fn grid_size(lanes: u64, steps: u64, count: usize) -> (r: Option<usize>)
    ensures
        r == (if lanes * steps * count <= usize::MAX {
            Some((lanes * steps * count) as usize)
        } else {
            None
        }),
{
    proof {
        assert(lanes == 0 || steps == 0 || count == 0 ==> lanes * steps * count == 0)
            by (nonlinear_arith);
    }
    if lanes == 0 || steps == 0 || count == 0 {
        return Some(0);
    }
    proof {
        assert(lanes * steps <= lanes * steps * count) by (nonlinear_arith)
            requires
                count > 0,
                lanes * steps >= 0,
        ;
        assert(lanes * steps >= 0) by (nonlinear_arith);
        assert(lanes <= lanes * steps && steps <= lanes * steps) by (nonlinear_arith)
            requires
                lanes > 0,
                steps > 0,
        ;
    }
    if lanes > usize::MAX as u64 || steps > usize::MAX as u64 {
        return None;
    }
    match (lanes as usize).checked_mul(steps as usize) {
        None => None,
        Some(flat) => flat.checked_mul(count),
    }
}

/// Rebuilds a forecast from its values group.
///
/// The window count is how many distinct issue times there are, and the anchor the earliest
/// of them: both are facts about the rows. The steps come from the columns, because
/// overlapping windows make a count read off the rows ambiguous.
pub fn forecast(
    kind: TimeSeriesType,
    resolution: Option<Period>,
    interval: Spelled,
    horizon: Spelled,
    rows: &Rows,
    array: &TypedArray,
    name: String,
) -> (r: Result<TimeSeriesData, String>)
    requires
        kind.forecasts(),
        rows@.on_calendar(),
        rows.issue@.len() <= i64::MAX,
        array@.fits(),
        array.shape@.len() > 0,
        array.shape@[0] == rows.timestamps@.len(),
        0 < product(element_dims(array.shape@)) <= usize::MAX,
    ensures
        ({
            let columns = GridColumns {
                resolution: opt_period(resolution),
                interval: interval@,
                horizon: horizon@,
            };
            match (r, forecast_fault(kind, columns, rows@, name@)) {
                (Ok(data), None) => is_forecast_of(data@, kind, columns, rows@, array@, name@),
                (Err(e), Some(text)) => e@ == text,
                _ => false,
            }
        }),
{
    let ghost columns = GridColumns {
        resolution: opt_period(resolution),
        interval: interval@,
        horizon: horizon@,
    };
    let ghost title = name@;
    let resolution = match resolution {
        Some(period) => period,
        None => {
            return Err(missing_grid("resolution", name.as_str()));
        },
    };
    let interval = match required_period(interval, "interval", name.as_str()) {
        Ok(period) => period,
        Err(e) => {
            return Err(e);
        },
    };
    let horizon = match required_period(horizon, "horizon", name.as_str()) {
        Ok(period) => period,
        Err(e) => {
            return Err(e);
        },
    };
    let n: usize = rows.timestamps.len();
    if rows.issue.len() != n {
        let mut e = "series '".to_string();
        e.append(name.as_str());
        e.append("' is a forecast but has no `issue_time` column");
        return Err(e);
    }
    let issues = distinct_sorted(&rows.issue);
    if issues.len() == 0 {
        let mut e = "series '".to_string();
        e.append(name.as_str());
        e.append("' is a forecast with no rows");
        return Err(e);
    }
    proof {
        assert forall|i: int| 0 <= i < issues@.len() implies is_instant(#[trigger] issues@[i] as int)
            by {
            assert(issues@.contains(issues@[i]));
            assert(rows.issue@.contains(issues@[i]));
            let j = choose|j: int| 0 <= j < rows.issue@.len() && rows.issue@[j] == issues@[i];
            assert(is_instant(rows@.issue[j] as int));
        }
    }
    let initial: i64 = issues[0];
    match check_windows(&issues, &interval, name.as_str()) {
        Ok(_) => {},
        Err(e) => {
            return Err(e);
        },
    }
    let steps: u64 = match steps_in(initial, resolution.step, horizon.step, name.as_str()) {
        Ok(steps) => steps,
        Err(e) => {
            return Err(e);
        },
    };
    let labels = match lane_labels(&rows.lanes, kind, name.as_str()) {
        Ok(labels) => labels,
        Err(e) => {
            return Err(e);
        },
    };
    let lanes: u64 = labels.count();
    let count: usize = issues.len();
    let expected: usize = match grid_size(lanes, steps, count) {
        Some(expected) => expected,
        None => {
            let mut e = "series '".to_string();
            e.append(name.as_str());
            e.append("' spans more values than this platform can address");
            return Err(e);
        },
    };
    if n != expected {
        let mut e = "series '".to_string();
        e.append(name.as_str());
        e.append("' has ");
        e.append(decimal(n as u64).as_str());
        e.append(" rows, but its grid holds ");
        e.append(decimal(expected as u64).as_str());
        e.append(" values (");
        e.append(decimal(lanes).as_str());
        e.append(" lanes x ");
        e.append(decimal(steps).as_str());
        e.append(" steps x ");
        e.append(decimal(count as u64).as_str());
        e.append(" windows)");
        return Err(e);
    }
    let ghost layout = Layout {
        issues: issues@,
        resolution: resolution.step,
        steps: steps as int,
        labels: labels@,
        name: title,
    };
    proof {
        assert(layout_of(kind, columns, rows@, title) == Ok::<Layout, Seq<char>>(layout));
        assert(layout.size() == n);
    }
    let dims = array.element_shape();
    let per_step: usize = match element_count(&dims) {
        Some(per_step) => per_step,
        None => {
            proof {
                assert(false);
            }
            1
        },
    };
    let size: usize = array.dtype.size();
    let total: usize = array.bytes.len();
    proof {
        product_by_rows(array.shape@);
        assert(n > 0);
        assert((n * per_step) * size == n * (per_step * size)) by (nonlinear_arith);
        assert(per_step * size <= n * (per_step * size)) by (nonlinear_arith)
            requires
                n > 0,
                per_step * size >= 0,
        ;
        assert(per_step * size >= 0) by (nonlinear_arith);
    }
    let width: usize = per_step * size;
    let bytes = match place_rows(
        rows,
        &issues,
        resolution.step,
        steps,
        &labels,
        &array.bytes,
        width,
        name.as_str(),
    ) {
        Ok(bytes) => bytes,
        Err(e) => {
            return Err(e);
        },
    };
    proof {
        assert(steps > 0) by {
            if steps == 0 {
                assert(lanes * 0 * count == 0) by (nonlinear_arith);
            }
        }
        cube_shape_holds(layout, dims@, n as int);
    }
    let mut shape: Vec<usize> = Vec::new();
    match &labels {
        LaneLabels::Single => {},
        _ => {
            shape.push(lanes as usize);
        },
    }
    shape.push(steps as usize);
    shape.push(count);
    proof {
        assert(shape@ =~= leading_axes(layout));
    }
    let mut rest = dims;
    shape.append(&mut rest);
    let cube = TypedArray { dtype: array.dtype, shape, bytes };
    proof {
        assert(cube.shape@ =~= leading_axes(layout) + element_dims(array.shape@));
        assert(cube@.fits());
    }
    let grid = ForecastGrid {
        initial_timestamp: initial,
        resolution,
        horizon,
        interval,
        count,
    };
    let axis = match labels {
        LaneLabels::Single => TimeAxis::Deterministic { grid },
        LaneLabels::Percentiles(percentiles) => TimeAxis::Probabilistic { grid, percentiles },
        LaneLabels::Scenarios(_) => TimeAxis::Scenarios { grid, scenario_count: lanes as usize },
    };
    Ok(TimeSeriesData::new(axis, cube, name))
}

// ---- What a forecast is put together from -------------------------------------------------------

proof fn highest_is_highest(lanes: Seq<LaneValue>, n: int)
    requires
        0 <= n <= lanes.len(),
        highest_scenario(lanes, n) is Some,
    ensures
        highest_scenario(lanes, n)->0 >= 0,
        forall|i: int|
            0 <= i < n ==> (#[trigger] lanes[i] matches LaneValue::Scenario(s) && s
                <= highest_scenario(lanes, n)->0),
        highest_scenario(lanes, n)->0 == 0 || exists|i: int|
            0 <= i < n && #[trigger] lanes[i] == LaneValue::Scenario(
                highest_scenario(lanes, n)->0 as i64,
            ),
    decreases n,
{
    if n > 0 {
        highest_is_highest(lanes, n - 1);
        if highest_scenario(lanes, n)->0 == highest_scenario(lanes, n - 1)->0
            && highest_scenario(lanes, n)->0 != 0 {
            let i = choose|i: int|
                0 <= i < n - 1 && #[trigger] lanes[i] == LaneValue::Scenario(
                    highest_scenario(lanes, n - 1)->0 as i64,
                );
            assert(lanes[i] == LaneValue::Scenario(highest_scenario(lanes, n)->0 as i64));
        }
    }
}

proof fn percentiles_are_numbers(lanes: Seq<LaneValue>, name: Seq<char>, n: int)
    requires
        0 <= n <= lanes.len(),
        percentile_fault(lanes, name, n) is None,
    ensures
        forall|i: int|
            0 <= i < n ==> (#[trigger] lanes[i] matches LaneValue::Percentile(p) && !is_nan(p)),
    decreases n,
{
    if n > 0 {
        percentiles_are_numbers(lanes, name, n - 1);
    }
}

/// Whether a lane is a percentile, and a number, whose label is among some.
pub open spec fn is_label(labels: Seq<u64>, lane: LaneValue) -> bool {
    lane matches LaneValue::Percentile(p) && !is_nan(p) && exists|j: int|
        0 <= j < labels.len() && percentile_rank(#[trigger] labels[j]) == percentile_rank(p)
}

/// The labels of a forecast's lanes are its rows' own: every percentile that occurs, once and in
/// order, and as many trajectories as the highest that is numbered, counted from zero. Anything
/// else in the column is refused.
pub proof fn labels_are_those_of_the_rows(
    lanes: Vec<LaneValue>,
    kind: TimeSeriesType,
    name: &str,
    r: Result<LaneLabels, String>,
    i: int,
)
    requires
        call_ensures(lane_labels, (&lanes, kind, name), r),
        r is Ok,
        0 <= i < lanes@.len(),
    ensures
        r->Ok_0@ is Single <==> kind != TimeSeriesType::Probabilistic && kind
            != TimeSeriesType::Scenarios,
        r->Ok_0@ is Percentiles <==> kind == TimeSeriesType::Probabilistic,
        r->Ok_0@ matches LabelsView::Percentiles(labels) ==> is_label(labels, lanes@[i]),
        r->Ok_0@ matches LabelsView::Percentiles(labels) ==> forall|a: int, b: int|
            #![trigger labels[a], labels[b]]
            0 <= a < b < labels.len() ==> percentile_rank(labels[a]) < percentile_rank(labels[b]),
        r->Ok_0@ matches LabelsView::Scenarios(n) ==> (lanes@[i] matches LaneValue::Scenario(s) && s
            < n),
        r->Ok_0@ matches LabelsView::Scenarios(n) ==> n == 1 || exists|j: int|
            0 <= j < lanes@.len() && #[trigger] lanes@[j] == LaneValue::Scenario((n - 1) as i64),
{
    match kind {
        TimeSeriesType::Probabilistic => {
            percentiles_are_numbers(lanes@, name@, lanes@.len() as int);
            let ps = percentiles_in(lanes@);
            let key = |x: u64| percentile_rank(x);
            let labels = distinct_percentiles(ps);
            ascending_is_sorted(ps, key);
            assert(labels == ascending_by(ps, key));
            let p = lanes@[i]->Percentile_0;
            assert(ps[i] == p);
            assert(key(ps[i]) == percentile_rank(p));
            assert(has_key(ps, key, percentile_rank(p)));
            assert(has_key(labels, key, percentile_rank(p)));
            let j = choose|j: int|
                0 <= j < labels.len() && key(#[trigger] labels[j]) == percentile_rank(p);
            assert(percentile_rank(labels[j]) == percentile_rank(p));
            assert forall|a: int, b: int|
                #![trigger labels[a], labels[b]]
                0 <= a < b < labels.len() implies percentile_rank(labels[a]) < percentile_rank(
                labels[b],
            ) by {
                assert(key(labels[a]) < key(labels[b]));
            }
        },
        TimeSeriesType::Scenarios => {
            highest_is_highest(lanes@, lanes@.len() as int);
        },
        _ => {},
    }
}

/// The lane of a row is the one whose label the row carries.
pub proof fn lanes_carry_their_labels(
    labels: LaneLabels,
    lane: Option<LaneValue>,
    r: Result<u64, String>,
)
    requires
        call_ensures(LaneLabels::index_of, (&labels, lane), r),
        r is Ok,
    ensures
        match labels@ {
            LabelsView::Single => r->Ok_0 == 0,
            LabelsView::Percentiles(list) => r->Ok_0 < list.len() && (
            lane matches Some(LaneValue::Percentile(p)) && percentile_rank(list[r->Ok_0 as int])
                == percentile_rank(p)),
            LabelsView::Scenarios(n) => r->Ok_0 < n && lane == Some(
                LaneValue::Scenario(r->Ok_0 as i64),
            ),
        },
{
    if let LabelsView::Percentiles(list) = labels@ {
        if let Some(LaneValue::Percentile(p)) = lane {
            place_has_its_rank(list, p);
        }
    }
}

proof fn place_has_its_rank(labels: Seq<u64>, p: u64)
    ensures
        percentile_place(labels, p) matches Some(i) ==> 0 <= i < labels.len() && percentile_rank(
            labels[i],
        ) == percentile_rank(p),
    decreases labels.len(),
{
    if labels.len() > 0 {
        place_has_its_rank(labels.drop_last(), p);
        if let Some(i) = percentile_place(labels.drop_last(), p) {
            assert(labels.drop_last()[i] == labels[i]);
        }
    }
}

proof fn steps_stop_at_the_end(
    anchor: i64,
    resolution: Step,
    end: i64,
    name: Seq<char>,
    k: int,
    j: int,
)
    requires
        0 <= k,
        steps_before(anchor, resolution, end, name, k) is Ok,
    ensures
        ({
            let n = steps_before(anchor, resolution, end, name, k)->Ok_0;
            &&& k <= n <= MOST_STEPS
            &&& step_from(resolution, anchor, n as i64) matches Some(at) && at >= end
            &&& k <= j < n ==> (step_from(resolution, anchor, j as i64) matches Some(at) && at
                < end)
        }),
    decreases MOST_STEPS + 1 - k,
{
    if let Some(at) = step_from(resolution, anchor, k as i64) {
        if at < end {
            steps_stop_at_the_end(anchor, resolution, end, name, k + 1, j);
        }
    }
}

/// A horizon has as many steps as lead from its start up to its end: each of them lies before the
/// end, and the next does not.
pub proof fn horizons_hold_the_steps_before_their_end(
    anchor: i64,
    resolution: Step,
    horizon: Step,
    name: &str,
    r: Result<u64, String>,
    k: int,
)
    requires
        call_ensures(steps_in, (anchor, resolution, horizon, name), r),
        r is Ok,
        is_instant(anchor as int),
        0 <= k < r->Ok_0,
    ensures
        ({
            let end = step_from(horizon, anchor, 1)->0;
            &&& step_from(horizon, anchor, 1) is Some
            &&& step_from(resolution, anchor, k as i64) matches Some(at) && at < end
            &&& step_from(resolution, anchor, r->Ok_0 as i64) matches Some(at) && at >= end
        }),
{
    let end = step_from(horizon, anchor, 1)->0;
    steps_stop_at_the_end(anchor, resolution, end, name@, 0, k);
}

proof fn step_is_where_it_leads(
    issue: i64,
    target: i64,
    resolution: Step,
    steps: int,
    name: Seq<char>,
    k: int,
)
    requires
        step_index(issue, target, resolution, steps, name, k) is Ok,
    ensures
        ({
            let s = step_index(issue, target, resolution, steps, name, k)->Ok_0;
            k <= s < steps && step_from(resolution, issue, s as i64) == Some(target)
        }),
    decreases steps - k,
{
    if k < steps {
        if let Some(at) = step_from(resolution, issue, k as i64) {
            if at != target {
                step_is_where_it_leads(issue, target, resolution, steps, name, k + 1);
            }
        }
    }
}

/// The step of a target time is one that leads from the issue time to it.
pub proof fn steps_lead_to_their_target(
    issue: i64,
    target: i64,
    resolution: Step,
    steps: u64,
    name: &str,
    r: Result<u64, String>,
)
    requires
        call_ensures(step_of, (issue, target, resolution, steps, name), r),
        r is Ok,
        is_instant(issue as int),
        is_instant(target as int),
        steps <= MOST_STEPS,
    ensures
        r->Ok_0 < steps,
        step_from(resolution, issue, r->Ok_0 as i64) == Some(target),
{
    step_is_where_it_leads(issue, target, resolution, steps as int, name@, 0);
}

proof fn windows_sit_on_the_grid(
    issues: Seq<i64>,
    interval: PeriodView,
    name: Seq<char>,
    n: int,
    w: int,
)
    requires
        window_fault(issues, interval, name, n) is None,
        0 <= w < n <= issues.len(),
    ensures
        step_from(interval.step, issues[0], w as i64) == Some(issues[w]),
    decreases n,
{
    if w < n - 1 {
        windows_sit_on_the_grid(issues, interval, name, n - 1, w);
    }
}

proof fn gridded_windows_pass(issues: Seq<i64>, interval: PeriodView, name: Seq<char>, n: int)
    requires
        0 <= n <= issues.len(),
        forall|w: int|
            0 <= w < n ==> step_from(interval.step, issues[0], w as i64) == Some(
                #[trigger] issues[w],
            ),
    ensures
        window_fault(issues, interval, name, n) is None,
    decreases n,
{
    if n > 0 {
        gridded_windows_pass(issues, interval, name, n - 1);
        assert(step_from(interval.step, issues[0], (n - 1) as i64) == Some(issues[n - 1]));
    }
}

/// Windows pass exactly where each is as many intervals after the first as it has windows before
/// it.
pub proof fn windows_pass_on_the_grid_alone(
    issues: Vec<i64>,
    interval: Period,
    name: &str,
    r: Result<(), String>,
)
    requires
        call_ensures(check_windows, (&issues, &interval, name), r),
        forall|i: int| 0 <= i < issues@.len() ==> is_instant(#[trigger] issues@[i] as int),
        issues@.len() <= i64::MAX,
    ensures
        r is Ok <==> forall|w: int|
            0 <= w < issues@.len() ==> step_from(interval.step, issues@[0], w as i64) == Some(
                #[trigger] issues@[w],
            ),
{
    if r is Ok {
        assert forall|w: int| 0 <= w < issues@.len() implies step_from(
            interval.step,
            issues@[0],
            w as i64,
        ) == Some(#[trigger] issues@[w]) by {
            windows_sit_on_the_grid(issues@, interval@, name@, issues@.len() as int, w);
        }
    } else {
        if forall|w: int|
            0 <= w < issues@.len() ==> step_from(interval.step, issues@[0], w as i64) == Some(
                #[trigger] issues@[w],
            ) {
            gridded_windows_pass(issues@, interval@, name@, issues@.len() as int);
        }
    }
}

/// A period that a forecast needs is what the store reads in its column, and a column that is
/// empty or is not read is refused.
pub proof fn needed_periods_are_read(
    spelled: Spelled,
    column: &str,
    name: &str,
    r: Result<Period, String>,
)
    requires
        call_ensures(required_period, (spelled, column, name), r),
    ensures
        r is Ok <==> spelled.text@.len() > 0 && spelled.reading is Ok,
        r is Ok ==> spelled.reading->Ok_0@ == r->Ok_0@,
{
}

/// Whether a row stands at a place of a forecast's grid: its issue time is that window's, its
/// target that step's, and its lane the one of that label.
pub open spec fn stands_at(
    rows: RowsView,
    row: int,
    axis: AxisView,
    window: int,
    step: int,
    lane: int,
) -> bool {
    let grid = grid_of_axis(axis);
    &&& step_from(grid.interval.step, grid.initial_timestamp, window as i64) == Some(
        rows.issue[row],
    )
    &&& step_from(grid.resolution.step, rows.issue[row], step as i64) == Some(rows.timestamps[row])
    &&& match axis {
        AxisView::Probabilistic { percentiles, .. } => rows.lane(row) matches Some(
            LaneValue::Percentile(p),
        ) && percentile_rank(percentiles[lane]) == percentile_rank(p),
        AxisView::Scenarios { .. } => rows.lane(row) == Some(LaneValue::Scenario(lane as i64)),
        _ => lane == 0,
    }
}

/// Every row of a forecast ends up at its own coordinates: the element of the cube at the lane,
/// the step and the window that the row's columns name is the row's value. The grid is the one
/// the columns name, it starts at the earliest issue time, and it has a window for each.
pub proof fn rows_end_up_at_their_coordinates(
    kind: TimeSeriesType,
    resolution: Option<Period>,
    interval: Spelled,
    horizon: Spelled,
    rows: Rows,
    array: TypedArray,
    name: String,
    r: Result<TimeSeriesData, String>,
    row: int,
)
    requires
        call_ensures(forecast, (kind, resolution, interval, horizon, &rows, &array, name), r),
        r is Ok,
        kind.forecasts(),
        rows@.on_calendar(),
        rows.issue@.len() <= i64::MAX,
        0 <= row < rows.timestamps@.len(),
    ensures
        ({
            let data = r->Ok_0@;
            let grid = grid_of_axis(data.axis);
            &&& data.name == name@
            &&& resolution matches Some(p) && grid.resolution == p@
            &&& interval.reading matches Ok(p) && grid.interval == p@
            &&& horizon.reading matches Ok(p) && grid.horizon == p@
            &&& forall|i: int|
                0 <= i < rows.issue@.len() ==> grid.initial_timestamp <= #[trigger] rows.issue@[i]
            &&& rows.issue@.contains(grid.initial_timestamp)
            &&& kind == TimeSeriesType::Probabilistic <==> data.axis is Probabilistic
            &&& kind == TimeSeriesType::Scenarios <==> data.axis is Scenarios
            &&& data.array.dtype == array@.dtype
            &&& exists|window: int, step: int, lane: int| #[trigger]
                stands_at(rows@, row, data.axis, window, step, lane) && 0 <= window < grid.count && {
                    let steps = data.array.shape[if kind == TimeSeriesType::Probabilistic || kind
                        == TimeSeriesType::Scenarios {
                        1int
                    } else {
                        0int
                    }] as int;
                    let slot = (lane * steps + step) * grid.count + window;
                    let width = (product(element_dims(array@.shape)) * array@.dtype.bytes()) as int;
                    cell(data.array.bytes, slot, width) == cell(array@.bytes, row, width)
                }
        }),
{
    let columns = GridColumns {
        resolution: opt_period(resolution),
        interval: interval@,
        horizon: horizon@,
    };
    let data = r->Ok_0@;
    let layout = layout_of(kind, columns, rows@, name@)->Ok_0;
    let n = rows.timestamps@.len() as int;
    let grid = grid_of_axis(data.axis);
    instants_come_sorted(rows.issue@);
    assert(layout.issues == distinct_instants(rows.issue@));
    assert(layout.issues.contains(layout.issues[0]));
    assert forall|i: int| 0 <= i < rows.issue@.len() implies grid.initial_timestamp
        <= #[trigger] rows.issue@[i] by {
        assert(rows.issue@.contains(rows.issue@[i]));
        assert(layout.issues.contains(rows.issue@[i]));
        let w = choose|w: int| 0 <= w < layout.issues.len() && layout.issues[w] == rows.issue@[i];
        if w > 0 {
            assert(layout.issues[0] < layout.issues[w]);
        }
    }
    faultless_rows_have_places(rows@, layout, n);
    assert(row_place(rows@, layout, row) is Ok);
    let place = row_place(rows@, layout, row)->Ok_0;
    step_is_where_it_leads(
        rows.issue@[row],
        rows.timestamps@[row],
        layout.resolution,
        layout.steps,
        layout.name,
        0,
    );
    assert(rows.issue@.contains(rows.issue@[row]));
    assert(layout.issues.contains(rows.issue@[row]));
    let w = place.window;
    assert(0 <= w < layout.issues.len() && layout.issues[w] == rows.issue@[row]) by {
        let v = choose|v: int| 0 <= v < layout.issues.len() && layout.issues[v] == rows.issue@[row];
        assert(layout.issues[v] == rows.issue@[row]);
    }
    windows_sit_on_the_grid(
        layout.issues,
        columns.interval.reading->Ok_0,
        name@,
        layout.issues.len() as int,
        w,
    );
    if let LabelsView::Percentiles(list) = layout.labels {
        if let Some(LaneValue::Percentile(p)) = rows@.lane(row) {
            place_has_its_rank(list, p);
        }
    }
    assert(stands_at(rows@, row, data.axis, w, place.step, place.lane));
    assert(cell(
        data.array.bytes,
        place.slot(layout),
        (product(element_dims(array@.shape)) * array@.dtype.bytes()) as int,
    ) == cell(
        array@.bytes,
        row,
        (product(element_dims(array@.shape)) * array@.dtype.bytes()) as int,
    ));
    layout_sizes_fit(kind, columns, rows@, name@);
}

proof fn layout_sizes_fit(kind: TimeSeriesType, columns: GridColumns, rows: RowsView, name: Seq<char>)
    requires
        layout_of(kind, columns, rows, name) is Ok,
    ensures
        ({
            let layout = layout_of(kind, columns, rows, name)->Ok_0;
            &&& 0 <= layout.steps <= MOST_STEPS
            &&& kind == TimeSeriesType::Probabilistic <==> layout.labels is Percentiles
            &&& kind == TimeSeriesType::Scenarios <==> layout.labels is Scenarios
        }),
{
    let layout = layout_of(kind, columns, rows, name)->Ok_0;
    let horizon = columns.horizon.reading->Ok_0;
    let end = step_from(horizon.step, layout.issues[0], 1)->0;
    steps_stop_at_the_end(layout.issues[0], layout.resolution, end, name, 0, 0);
}

} // verus!
