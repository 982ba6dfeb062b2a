//! The rows one series contributes to a values file, in the order the file emits them.
use crate::array::{element_count, product, product_of_one};
use crate::cube::{slot_at, slot_inside, LaneValue};
use crate::instant::{is_instant, on_calendar, step_from, Step};
use crate::kinds::TimeSeriesType;
use crate::series::{
    grid_instants, grid_of_instants, grid_reaches, AxisView, DataView, ForecastGrid, GridView,
    TimeAxis, TimeSeriesData,
};
use crate::text::{decimal, decimal_text};
use vstd::prelude::*;

verus! {

/// One row of a values file before it is a column: where the value sits on the grids, and
/// which element of the stored array it is.
///
/// An index rather than a slice, because a forecast's rows are a permutation of the stored
/// cube: the file is window-major and the cube is step-major.
#[derive(Clone, Copy, Debug, PartialEq, Eq, Structural)]
pub struct ValueRow {
    /// `None` for a static series, which has no windows.
    pub issue: Option<i64>,
    pub target: i64,
    /// `None` for a static series and for `Deterministic`.
    pub lane: Option<LaneValue>,
    pub offset: usize,
}

/// A forecast's lane axis: how wide it is, and what its lanes are called.
pub enum LaneAxis {
    Single,
    Percentiles(Seq<u64>),
    Scenarios(nat),
}

impl LaneAxis {
    /// How many lanes there are: one where there is no lane axis.
    pub open spec fn lanes(self) -> nat {
        match self {
            LaneAxis::Single => 1,
            LaneAxis::Percentiles(percentiles) => percentiles.len(),
            LaneAxis::Scenarios(n) => n,
        }
    }

    /// What a lane is called in its column.
    pub open spec fn label(self, lane: int) -> Option<LaneValue> {
        match self {
            LaneAxis::Single => None,
            LaneAxis::Percentiles(percentiles) => Some(LaneValue::Percentile(percentiles[lane])),
            LaneAxis::Scenarios(_) => Some(LaneValue::Scenario(lane as i64)),
        }
    }
}

/// What the rows of a forecast are made from.
pub struct Emission {
    pub initial: i64,
    pub interval: Step,
    pub resolution: Step,
    pub steps: nat,
    pub count: nat,
    pub lanes: LaneAxis,
}

impl Emission {
    /// When a window is issued.
    pub open spec fn issue_time(self, window: int) -> Option<i64> {
        step_from(self.interval, self.initial, window as i64)
    }

    /// The instant a step of a window is for.
    pub open spec fn target_time(self, window: int, step: int) -> Option<i64> {
        step_from(self.resolution, self.issue_time(window)->0, step as i64)
    }

    /// The row of one window, step and lane.
    pub open spec fn row(self, window: int, step: int, lane: int) -> ValueRow {
        ValueRow {
            issue: Some(self.issue_time(window)->0),
            target: self.target_time(window, step)->0,
            lane: self.lanes.label(lane),
            offset: slot_at(lane, step, window, self.steps as int, self.count as int) as usize,
        }
    }

    /// The rows of one step of a window: its lanes together, which is how a fan chart reads.
    pub open spec fn step_rows(self, window: int, step: int) -> Seq<ValueRow> {
        Seq::new(self.lanes.lanes(), |lane: int| self.row(window, step, lane))
    }

    /// The rows of the first `n` steps of a window.
    pub open spec fn window_rows(self, window: int, n: int) -> Seq<ValueRow>
        decreases n,
    {
        if n <= 0 {
            seq![]
        } else {
            self.window_rows(window, n - 1) + self.step_rows(window, n - 1)
        }
    }

    /// The rows of the first `n` windows: window-major, so that one issue time's rows are
    /// contiguous.
    pub open spec fn rows(self, n: int) -> Seq<ValueRow>
        decreases n,
    {
        if n <= 0 {
            seq![]
        } else {
            self.rows(n - 1) + self.window_rows(n - 1, self.steps as int)
        }
    }

    /// The first of the first `n` steps of a window that leaves the calendar.
    pub open spec fn step_fault(self, window: int, n: int) -> Option<Seq<char>>
        decreases n,
    {
        if n <= 0 {
            None
        } else {
            match self.step_fault(window, n - 1) {
                Some(text) => Some(text),
                None => if self.target_time(window, n - 1) is None {
                    Some(step_overflow(n - 1))
                } else {
                    None
                },
            }
        }
    }

    /// The first of the first `n` windows that leaves the calendar, or has a step that does.
    pub open spec fn fault(self, n: int) -> Option<Seq<char>>
        decreases n,
    {
        if n <= 0 {
            None
        } else {
            match self.fault(n - 1) {
                Some(text) => Some(text),
                None => if self.issue_time(n - 1) is None {
                    Some(window_overflow(n - 1))
                } else {
                    self.step_fault(n - 1, self.steps as int)
                },
            }
        }
    }
}

pub open spec fn window_overflow(window: int) -> Seq<char> {
    "forecast window "@ + decimal_text(window as nat) + " overflows the calendar"@
}

pub open spec fn step_overflow(step: int) -> Seq<char> {
    "forecast step "@ + decimal_text(step as nat) + " overflows the calendar"@
}

proof fn step_fault_persists(e: Emission, window: int, n: int, m: int)
    requires
        0 <= n <= m,
        e.step_fault(window, n) is Some,
    ensures
        e.step_fault(window, m) == e.step_fault(window, n),
    decreases m - n,
{
    if n < m {
        step_fault_persists(e, window, n, m - 1);
    }
}

proof fn fault_persists(e: Emission, n: int, m: int)
    requires
        0 <= n <= m,
        e.fault(n) is Some,
    ensures
        e.fault(m) == e.fault(n),
    decreases m - n,
{
    if n < m {
        fault_persists(e, n, m - 1);
    }
}

/// What an axis' forecast rows are made from, given how many steps its cube has.
pub open spec fn emission_of(axis: AxisView, steps: nat) -> Emission {
    let lanes = match axis {
        AxisView::Probabilistic { percentiles, .. } => LaneAxis::Percentiles(percentiles),
        AxisView::Scenarios { scenario_count, .. } => LaneAxis::Scenarios(scenario_count),
        _ => LaneAxis::Single,
    };
    let grid = grid_of_axis(axis);
    Emission {
        initial: grid.initial_timestamp,
        interval: grid.interval.step,
        resolution: grid.resolution.step,
        steps,
        count: grid.count,
        lanes,
    }
}

/// The grid of a forecast's axis.
pub open spec fn grid_of_axis(axis: AxisView) -> GridView {
    match axis {
        AxisView::Deterministic { grid } => grid,
        AxisView::Probabilistic { grid, .. } => grid,
        AxisView::Scenarios { grid, .. } => grid,
        _ => arbitrary(),
    }
}

/// How many steps a forecast's cube has.
pub open spec fn cube_steps(data: DataView) -> nat {
    data.array.shape[data.axis.kind().axes() - 2] as nat
}

pub open spec fn static_overflow_text() -> Seq<char> {
    "the series' grid overflows the calendar"@
}

/// The rows a series contributes, or why it contributes none.
pub open spec fn rows_of(data: DataView) -> Result<Seq<ValueRow>, Seq<char>> {
    match data.axis {
        AxisView::SingleTimeSeries { initial_timestamp, resolution, length } => if grid_reaches(
            initial_timestamp,
            resolution,
            length as int,
        ) {
            Ok(static_rows(grid_instants(initial_timestamp, resolution, length as int)))
        } else {
            Err(static_overflow_text())
        },
        AxisView::NonSequentialTimeSeries { timestamps } => Ok(static_rows(timestamps)),
        AxisView::PersistentTimeSeries { timestamps } => Ok(static_rows(timestamps)),
        _ => {
            let e = emission_of(data.axis, cube_steps(data));
            match e.fault(e.count as int) {
                Some(text) => Err(text),
                None => Ok(e.rows(e.count as int)),
            }
        },
    }
}

/// The rows of a static series: the array in order.
pub open spec fn static_rows(timestamps: Seq<i64>) -> Seq<ValueRow> {
    Seq::new(
        timestamps.len(),
        |k: int| ValueRow { issue: None, target: timestamps[k], lane: None, offset: k as usize },
    )
}

/// Whether a series is one its rows can be read off: its instants are on the calendar, and a
/// forecast's array has the axes its type has, with a cube the platform can address.
pub open spec fn emittable(data: DataView) -> bool {
    match data.axis {
        AxisView::SingleTimeSeries { initial_timestamp, length, .. } => is_instant(
            initial_timestamp as int,
        ) && length <= i64::MAX,
        AxisView::NonSequentialTimeSeries { .. } => true,
        AxisView::PersistentTimeSeries { .. } => true,
        _ => {
            let e = emission_of(data.axis, cube_steps(data));
            &&& is_instant(e.initial as int)
            &&& data.array.shape.len() >= data.axis.kind().axes()
            &&& e.count <= i64::MAX
            &&& e.steps <= i64::MAX
            &&& e.lanes.lanes() <= i64::MAX
            &&& e.lanes.lanes() * e.steps * e.count <= usize::MAX
        },
    }
}

fn cube_emittable(grid: &ForecastGrid, lanes: usize, shape: &Vec<usize>, axes: usize) -> (r: bool)
    requires
        2 <= axes,
    ensures
        r == {
            &&& is_instant(grid.initial_timestamp as int)
            &&& shape@.len() >= axes
            &&& grid.count <= i64::MAX
            &&& shape@[axes - 2] <= i64::MAX
            &&& lanes <= i64::MAX
            &&& lanes * shape@[axes - 2] * grid.count <= usize::MAX
        },
{
    if !on_calendar(grid.initial_timestamp) || shape.len() < axes {
        return false;
    }
    let steps: usize = shape[axes - 2];
    let most: u64 = i64::MAX as u64;
    if grid.count as u64 > most || steps as u64 > most || lanes as u64 > most {
        return false;
    }
    let mut cube: Vec<usize> = Vec::new();
    cube.push(lanes);
    cube.push(steps);
    cube.push(grid.count);
    proof {
        product_of_one(lanes);
        assert(cube@.drop_last() =~= seq![lanes, steps]);
        assert(seq![lanes, steps].drop_last() =~= seq![lanes]);
        assert(product(seq![lanes, steps]) == lanes * steps);
        assert(product(cube@) == lanes * steps * grid.count);
    }
    element_count(&cube).is_some()
}

/// Whether a series is one its rows can be read off.
pub fn is_emittable(data: &TimeSeriesData) -> (r: bool)
    ensures
        r == emittable(data@),
{
    let axes: usize = data.time_series_type().leading_dims();
    match &data.axis {
        TimeAxis::SingleTimeSeries { initial_timestamp, length, .. } => {
            on_calendar(*initial_timestamp) && *length as u64 <= i64::MAX as u64
        },
        TimeAxis::NonSequentialTimeSeries { .. } => true,
        TimeAxis::PersistentTimeSeries { .. } => true,
        TimeAxis::Deterministic { grid } => cube_emittable(grid, 1, &data.array.shape, axes),
        TimeAxis::Probabilistic { grid, percentiles } => {
            cube_emittable(grid, percentiles.len(), &data.array.shape, axes)
        },
        TimeAxis::Scenarios { grid, scenario_count } => {
            cube_emittable(grid, *scenario_count, &data.array.shape, axes)
        },
    }
}

fn static_value_rows(timestamps: &Vec<i64>) -> (r: Vec<ValueRow>)
    ensures
        r@ == static_rows(timestamps@),
{
    let mut out: Vec<ValueRow> = Vec::new();
    let mut k: usize = 0;
    while k < timestamps.len()
        invariant
            k <= timestamps.len(),
            out@ == static_rows(timestamps@).take(k as int),
        decreases timestamps.len() - k,
    {
        out.push(ValueRow { issue: None, target: timestamps[k], lane: None, offset: k });
        proof {
            assert(static_rows(timestamps@).take(k + 1) =~= static_rows(timestamps@).take(
                k as int,
            ).push(static_rows(timestamps@)[k as int]));
        }
        k += 1;
    }
    proof {
        assert(static_rows(timestamps@).take(k as int) =~= static_rows(timestamps@));
    }
    out
}

/// A forecast's lane axis, for the writer.
#[derive(Debug)]
pub enum Lanes<'a> {
    Single,
    Percentiles(&'a Vec<u64>),
    Scenarios(usize),
}

impl<'a> Lanes<'a> {
    pub open spec fn axis(self) -> LaneAxis {
        match self {
            Lanes::Single => LaneAxis::Single,
            Lanes::Percentiles(percentiles) => LaneAxis::Percentiles(percentiles@),
            Lanes::Scenarios(n) => LaneAxis::Scenarios(n as nat),
        }
    }
}

/// The cube, the lane axis and the grid of a forecast.
#[derive(Debug)]
pub struct ForecastParts<'a> {
    pub lanes: Lanes<'a>,
    pub grid: &'a ForecastGrid,
}

pub open spec fn not_forecast_text(kind: TimeSeriesType) -> Seq<char> {
    kind.spelling() + " is not a dense forecast"@
}

/// A forecast's lane axis and grid.
pub fn forecast_parts(axis: &TimeAxis) -> (r: Result<ForecastParts<'_>, String>)
    ensures
        match r {
            Ok(parts) => axis@.kind().forecasts() && parts.grid@ == grid_of_axis(axis@)
                && forall|steps: nat|
                #[trigger] emission_of(axis@, steps).lanes == parts.lanes.axis(),
            Err(e) => !axis@.kind().forecasts() && e@ == not_forecast_text(axis@.kind()),
        },
{
    match axis {
        TimeAxis::Deterministic { grid } => Ok(ForecastParts { lanes: Lanes::Single, grid }),
        TimeAxis::Probabilistic { grid, percentiles } => Ok(
            ForecastParts { lanes: Lanes::Percentiles(percentiles), grid },
        ),
        TimeAxis::Scenarios { grid, scenario_count } => Ok(
            ForecastParts { lanes: Lanes::Scenarios(*scenario_count), grid },
        ),
        other => {
            let mut e = other.time_series_type().as_str().to_string();
            e.append(" is not a dense forecast");
            Err(e)
        },
    }
}

impl ForecastGrid {
    /// When a window is issued.
    pub fn issue_time(&self, window: usize) -> (r: Result<i64, String>)
        requires
            is_instant(self.initial_timestamp as int),
            window <= i64::MAX,
        ensures
            match (r, step_from(self.interval.step, self.initial_timestamp, window as i64)) {
                (Ok(at), Some(expected)) => at == expected && is_instant(at as int),
                (Err(e), None) => e@ == window_overflow(window as int),
                _ => false,
            },
    {
        match self.interval.step.add_to(self.initial_timestamp, window as i64) {
            Some(at) => Ok(at),
            None => {
                let mut e = "forecast window ".to_string();
                e.append(decimal(window as u64).as_str());
                e.append(" overflows the calendar");
                Err(e)
            },
        }
    }

    /// The instant a step of the window issued at `issue` is for.
    pub fn target_time(&self, issue: i64, step: usize) -> (r: Result<i64, String>)
        requires
            is_instant(issue as int),
            step <= i64::MAX,
        ensures
            match (r, step_from(self.resolution.step, issue, step as i64)) {
                (Ok(at), Some(expected)) => at == expected && is_instant(at as int),
                (Err(e), None) => e@ == step_overflow(step as int),
                _ => false,
            },
    {
        match self.resolution.step.add_to(issue, step as i64) {
            Some(at) => Ok(at),
            None => {
                let mut e = "forecast step ".to_string();
                e.append(decimal(step as u64).as_str());
                e.append(" overflows the calendar");
                Err(e)
            },
        }
    }
}

impl<'a> Lanes<'a> {
    /// How many lanes there are.
    pub fn count(&self) -> (r: usize)
        ensures
            r == self.axis().lanes(),
    {
        match self {
            Lanes::Single => 1,
            Lanes::Percentiles(percentiles) => percentiles.len(),
            Lanes::Scenarios(n) => *n,
        }
    }

    /// What a lane is called in its column.
    pub fn label(&self, lane: usize) -> (r: Option<LaneValue>)
        requires
            lane < self.axis().lanes(),
            lane <= i64::MAX,
        ensures
            r == self.axis().label(lane as int),
    {
        match self {
            Lanes::Single => None,
            Lanes::Percentiles(percentiles) => Some(LaneValue::Percentile(percentiles[lane])),
            Lanes::Scenarios(_) => Some(LaneValue::Scenario(lane as i64)),
        }
    }
}

fn push_step(
    out: &mut Vec<ValueRow>,
    lanes: &Lanes<'_>,
    issued: i64,
    at: i64,
    window: usize,
    step: usize,
    steps: usize,
    count: usize,
    Ghost(e): Ghost<Emission>,
)
    requires
        e.lanes == lanes.axis(),
        e.steps == steps,
        e.count == count,
        window < count,
        step < steps,
        e.lanes.lanes() <= i64::MAX,
        e.lanes.lanes() * e.steps * e.count <= usize::MAX,
        e.issue_time(window as int) == Some(issued),
        e.target_time(window as int, step as int) == Some(at),
    ensures
        final(out)@ == old(out)@ + e.step_rows(window as int, step as int),
{
    let n: usize = lanes.count();
    let mut lane: usize = 0;
    while lane < n
        invariant
            lane <= n,
            n == e.lanes.lanes(),
            e.lanes == lanes.axis(),
            e.steps == steps,
            e.count == count,
            window < count,
            step < steps,
            e.lanes.lanes() <= i64::MAX,
            e.lanes.lanes() * e.steps * e.count <= usize::MAX,
            e.issue_time(window as int) == Some(issued),
            e.target_time(window as int, step as int) == Some(at),
            out@ == old(out)@ + e.step_rows(window as int, step as int).take(lane as int),
        decreases n - lane,
    {
        proof {
            slot_inside(
                lane as int,
                step as int,
                window as int,
                n as int,
                steps as int,
                count as int,
            );
            assert(n * steps <= n * steps * count) by (nonlinear_arith)
                requires
                    count > 0,
                    n * steps >= 0,
            ;
            assert(n * steps >= 0) by (nonlinear_arith);
        }
        let flat: usize = lane * steps + step;
        let offset: usize = flat * count + window;
        out.push(
            ValueRow { issue: Some(issued), target: at, lane: lanes.label(lane), offset },
        );
        proof {
            let rows = e.step_rows(window as int, step as int);
            assert(rows.take(lane + 1) =~= rows.take(lane as int).push(rows[lane as int]));
            assert(out@ =~= old(out)@ + rows.take(lane + 1));
        }
        lane += 1;
    }
    proof {
        let rows = e.step_rows(window as int, step as int);
        assert(rows.take(lane as int) =~= rows);
    }
}

fn forecast_rows(parts: &ForecastParts<'_>, steps: usize, Ghost(e): Ghost<Emission>) -> (r: Result<
    Vec<ValueRow>,
    String,
>)
    requires
        e.lanes == parts.lanes.axis(),
        e.steps == steps,
        e.count == parts.grid.count,
        e.initial == parts.grid.initial_timestamp,
        e.interval == parts.grid.interval.step,
        e.resolution == parts.grid.resolution.step,
        is_instant(e.initial as int),
        e.count <= i64::MAX,
        e.steps <= i64::MAX,
        e.lanes.lanes() <= i64::MAX,
        e.lanes.lanes() * e.steps * e.count <= usize::MAX,
    ensures
        match (r, e.fault(e.count as int)) {
            (Ok(rows), None) => rows@ == e.rows(e.count as int),
            (Err(text), Some(expected)) => text@ == expected,
            _ => false,
        },
{
    let count: usize = parts.grid.count;
    let mut out: Vec<ValueRow> = Vec::new();
    let mut window: usize = 0;
    while window < count
        invariant
            window <= count,
            e.lanes == parts.lanes.axis(),
            e.steps == steps,
            e.count == count,
            count == parts.grid.count,
            e.initial == parts.grid.initial_timestamp,
            e.interval == parts.grid.interval.step,
            e.resolution == parts.grid.resolution.step,
            is_instant(e.initial as int),
            e.count <= i64::MAX,
            e.steps <= i64::MAX,
            e.lanes.lanes() <= i64::MAX,
            e.lanes.lanes() * e.steps * e.count <= usize::MAX,
            e.fault(window as int) is None,
            out@ == e.rows(window as int),
        decreases count - window,
    {
        let issued: i64 = match parts.grid.issue_time(window) {
            Ok(at) => at,
            Err(text) => {
                proof {
                    fault_persists(e, window + 1, count as int);
                }
                return Err(text);
            },
        };
        let ghost before = out@;
        let mut step: usize = 0;
        while step < steps
            invariant
                step <= steps,
                window < count,
                e.lanes == parts.lanes.axis(),
                e.steps == steps,
                e.count == count,
                e.resolution == parts.grid.resolution.step,
                e.issue_time(window as int) == Some(issued),
                is_instant(issued as int),
                e.steps <= i64::MAX,
                e.lanes.lanes() <= i64::MAX,
                e.lanes.lanes() * e.steps * e.count <= usize::MAX,
                e.fault(window as int) is None,
                e.step_fault(window as int, step as int) is None,
                out@ == before + e.window_rows(window as int, step as int),
            decreases steps - step,
        {
            let at: i64 = match parts.grid.target_time(issued, step) {
                Ok(at) => at,
                Err(text) => {
                    proof {
                        step_fault_persists(e, window as int, step + 1, steps as int);
                        fault_persists(e, window + 1, count as int);
                    }
                    return Err(text);
                },
            };
            push_step(
                &mut out,
                &parts.lanes,
                issued,
                at,
                window,
                step,
                steps,
                count,
                Ghost(e),
            );
            proof {
                assert(out@ =~= before + e.window_rows(window as int, step + 1));
            }
            step += 1;
        }
        window += 1;
    }
    Ok(out)
}

/// The rows a series contributes, in the order the file emits them.
///
/// Static rows are the array in order. A forecast's are window-major, and each step's lanes
/// together.
pub fn series_rows(data: &TimeSeriesData) -> (r: Result<Vec<ValueRow>, String>)
    requires
        emittable(data@),
    ensures
        match (r, rows_of(data@)) {
            (Ok(rows), Ok(expected)) => rows@ == expected,
            (Err(e), Err(text)) => e@ == text,
            _ => false,
        },
{
    match &data.axis {
        TimeAxis::SingleTimeSeries { initial_timestamp, resolution, length } => {
            match grid_of_instants(*initial_timestamp, resolution, *length) {
                Ok(timestamps) => Ok(static_value_rows(&timestamps)),
                Err(_) => Err("the series' grid overflows the calendar".to_string()),
            }
        },
        TimeAxis::NonSequentialTimeSeries { timestamps } => Ok(static_value_rows(timestamps)),
        TimeAxis::PersistentTimeSeries { timestamps } => Ok(static_value_rows(timestamps)),
        _ => {
            let leading: usize = data.time_series_type().leading_dims();
            let steps: usize = data.array.shape[leading - 2];
            match forecast_parts(&data.axis) {
                Ok(parts) => {
                    let ghost e = emission_of(data@.axis, cube_steps(data@));
                    forecast_rows(&parts, steps, Ghost(e))
                },
                Err(e) => {
                    proof {
                        assert(false);
                    }
                    Err(e)
                },
            }
        },
    }
}

/// How many rows a series contributes.
pub fn row_count(data: &TimeSeriesData) -> (r: Result<usize, String>)
    requires
        emittable(data@),
    ensures
        match (r, rows_of(data@)) {
            (Ok(n), Ok(expected)) => n == expected.len(),
            (Err(e), Err(text)) => e@ == text,
            _ => false,
        },
{
    match series_rows(data) {
        Ok(rows) => Ok(rows.len()),
        Err(e) => Err(e),
    }
}

/// A static series has a row for each of its instants, in their order, and the row's element is
/// the one that stands there.
pub proof fn static_rows_follow_the_instants(data: TimeSeriesData, r: Result<Vec<ValueRow>, String>, k: int)
    requires
        call_ensures(series_rows, (&data,), r),
        r is Ok,
        emittable(data@),
        !data@.axis.kind().forecasts(),
        0 <= k < r->Ok_0@.len(),
    ensures
        r->Ok_0@[k].issue is None && r->Ok_0@[k].lane is None,
        k <= usize::MAX ==> r->Ok_0@[k].offset == k,
        match data@.axis {
            AxisView::SingleTimeSeries { initial_timestamp, resolution, length } => r->Ok_0@.len()
                == length && step_from(resolution.step, initial_timestamp, k as i64) == Some(
                r->Ok_0@[k].target,
            ),
            AxisView::NonSequentialTimeSeries { timestamps } => r->Ok_0@.len() == timestamps.len()
                && r->Ok_0@[k].target == timestamps[k],
            AxisView::PersistentTimeSeries { timestamps } => r->Ok_0@.len() == timestamps.len()
                && r->Ok_0@[k].target == timestamps[k],
            _ => false,
        },
{
    if let AxisView::SingleTimeSeries { initial_timestamp, resolution, length } = data@.axis {
        assert(crate::series::grid_at(initial_timestamp, resolution, k) is Some);
    }
}

/// A forecast has a row for each window, step and lane, the lanes of a step together and the
/// steps of a window together: issued as many intervals after the first as there are windows
/// before it, for the instant as many resolutions later as there are steps before it, labelled
/// with its lane, and with the element the cube has there.
pub proof fn forecast_rows_follow_the_grid(
    data: TimeSeriesData,
    r: Result<Vec<ValueRow>, String>,
    window: int,
    step: int,
    lane: int,
)
    requires
        call_ensures(series_rows, (&data,), r),
        r is Ok,
        emittable(data@),
        data@.axis.kind().forecasts(),
        0 <= window < grid_of_axis(data@.axis).count,
        0 <= step < data@.array.shape[data@.axis.kind().axes() - 2],
        0 <= lane < crate::single_export::lanes_of(data@.axis),
    ensures
        ({
            let grid = grid_of_axis(data@.axis);
            let steps = data@.array.shape[data@.axis.kind().axes() - 2] as int;
            let lanes = crate::single_export::lanes_of(data@.axis);
            let row = r->Ok_0@[(window * steps + step) * lanes + lane];
            let issue = step_from(grid.interval.step, grid.initial_timestamp, window as i64)->0;
            &&& r->Ok_0@.len() == grid.count * steps * lanes
            &&& row.issue == Some(issue)
            &&& row.target == step_from(grid.resolution.step, issue, step as i64)->0
            &&& row.offset == (lane * steps + step) * grid.count + window
            &&& row.lane == match data@.axis {
                AxisView::Probabilistic { percentiles, .. } => Some(
                    LaneValue::Percentile(percentiles[lane]),
                ),
                AxisView::Scenarios { .. } => Some(LaneValue::Scenario(lane as i64)),
                _ => None,
            }
        }),
{
    let steps = cube_steps(data@);
    let e = emission_of(data@.axis, steps);
    crate::roundtrip::row_found(e, e.count as int, window, step, lane);
    crate::roundtrip::column_facts(e);
    slot_inside(lane, step, window, e.lanes.lanes() as int, steps as int, e.count as int);
}

/// How many rows a series has is how many rows it gives.
pub proof fn rows_are_counted(
    data: TimeSeriesData,
    rows: Result<Vec<ValueRow>, String>,
    n: Result<usize, String>,
)
    requires
        call_ensures(series_rows, (&data,), rows),
        call_ensures(row_count, (&data,), n),
        emittable(data@),
    ensures
        rows is Ok <==> n is Ok,
        n matches Ok(n) ==> n == rows->Ok_0@.len(),
{
}

proof fn no_step_fault(e: Emission, window: int, n: int)
    ensures
        e.step_fault(window, n) is None <==> forall|step: int|
            0 <= step < n ==> (#[trigger] e.target_time(window, step)) is Some,
    decreases n,
{
    if n > 0 {
        no_step_fault(e, window, n - 1);
        if e.step_fault(window, n) is None {
            assert forall|step: int| 0 <= step < n implies (#[trigger] e.target_time(
                window,
                step,
            )) is Some by {
                if step < n - 1 {
                    assert(e.step_fault(window, n - 1) is None);
                }
            }
        }
    }
}

proof fn no_window_fault(e: Emission, n: int)
    ensures
        e.fault(n) is None <==> forall|window: int|
            0 <= window < n ==> (#[trigger] e.issue_time(window)) is Some && e.step_fault(
                window,
                e.steps as int,
            ) is None,
    decreases n,
{
    if n > 0 {
        no_window_fault(e, n - 1);
        if e.fault(n) is None {
            assert forall|window: int| 0 <= window < n implies (#[trigger] e.issue_time(
                window,
            )) is Some && e.step_fault(window, e.steps as int) is None by {
                if window < n - 1 {
                    assert(e.fault(n - 1) is None);
                }
            }
        } else {
            assert(e.fault(n - 1) is Some || e.issue_time(n - 1) is None || e.step_fault(
                n - 1,
                e.steps as int,
            ) is Some);
        }
    }
}

/// A forecast has rows exactly where the calendar reaches all of them: every window is issued, and
/// every step of every window has its instant.
pub proof fn forecasts_have_rows_where_the_calendar_reaches(
    data: TimeSeriesData,
    r: Result<Vec<ValueRow>, String>,
)
    requires
        call_ensures(series_rows, (&data,), r),
        emittable(data@),
        data@.axis.kind().forecasts(),
    ensures
        ({
            let grid = grid_of_axis(data@.axis);
            let steps = data@.array.shape[data@.axis.kind().axes() - 2] as int;
            r is Ok <==> forall|window: int|
                0 <= window < grid.count ==> (#[trigger] step_from(
                    grid.interval.step,
                    grid.initial_timestamp,
                    window as i64,
                )) is Some && forall|step: int|
                    0 <= step < steps ==> (#[trigger] step_from(
                        grid.resolution.step,
                        step_from(grid.interval.step, grid.initial_timestamp, window as i64)->0,
                        step as i64,
                    )) is Some
        }),
{
    let e = emission_of(data@.axis, cube_steps(data@));
    let grid = grid_of_axis(data@.axis);
    let steps = data@.array.shape[data@.axis.kind().axes() - 2] as int;
    no_window_fault(e, e.count as int);
    if r is Ok {
        assert forall|window: int| 0 <= window < grid.count implies (#[trigger] step_from(
            grid.interval.step,
            grid.initial_timestamp,
            window as i64,
        )) is Some && forall|step: int|
            0 <= step < steps ==> (#[trigger] step_from(
                grid.resolution.step,
                step_from(grid.interval.step, grid.initial_timestamp, window as i64)->0,
                step as i64,
            )) is Some by {
            assert(e.issue_time(window) is Some);
            no_step_fault(e, window, steps);
            assert forall|step: int| 0 <= step < steps implies (#[trigger] step_from(
                grid.resolution.step,
                step_from(grid.interval.step, grid.initial_timestamp, window as i64)->0,
                step as i64,
            )) is Some by {
                assert(e.target_time(window, step) is Some);
            }
        }
    } else {
        let window = choose|window: int|
            0 <= window < e.count && !((#[trigger] e.issue_time(window)) is Some && e.step_fault(
                window,
                e.steps as int,
            ) is None);
        no_step_fault(e, window, steps);
        if e.issue_time(window) is Some {
            let step = choose|step: int|
                0 <= step < steps && (#[trigger] e.target_time(window, step)) is None;
            assert(step_from(
                grid.resolution.step,
                step_from(grid.interval.step, grid.initial_timestamp, window as i64)->0,
                step as i64,
            ) is None);
        }
        assert(step_from(grid.interval.step, grid.initial_timestamp, window as i64)
            == e.issue_time(window));
    }
}

/// A regular series has rows exactly where the calendar reaches every step of it; a series of
/// instants always has.
pub proof fn static_series_have_rows_where_the_calendar_reaches(
    data: TimeSeriesData,
    r: Result<Vec<ValueRow>, String>,
)
    requires
        call_ensures(series_rows, (&data,), r),
        emittable(data@),
    ensures
        data@.axis matches AxisView::SingleTimeSeries { initial_timestamp, resolution, length } ==> (
        r is Ok <==> forall|k: int|
            0 <= k < length ==> (#[trigger] step_from(
                resolution.step,
                initial_timestamp,
                k as i64,
            )) is Some),
        data@.axis is NonSequentialTimeSeries || data@.axis is PersistentTimeSeries ==> r is Ok,
{
    if let AxisView::SingleTimeSeries { initial_timestamp, resolution, length } = data@.axis {
        if r is Ok {
            assert forall|k: int| 0 <= k < length implies (#[trigger] step_from(
                resolution.step,
                initial_timestamp,
                k as i64,
            )) is Some by {
                assert(crate::series::grid_at(initial_timestamp, resolution, k) is Some);
            }
        } else {
            let k = choose|k: int|
                0 <= k < length && (#[trigger] crate::series::grid_at(
                    initial_timestamp,
                    resolution,
                    k,
                )) is None;
            assert(step_from(resolution.step, initial_timestamp, k as i64) is None);
        }
    }
}

} // verus!
