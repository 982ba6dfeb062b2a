//! A series' values: where they sit in time, the array that holds them, and what describes
//! them.
use crate::array::{ArrayView, TypedArray};
use crate::instant::{is_instant, step_from, Period, PeriodView};
use crate::kinds::{
    reference_view, ElementType, ElementTypeView, TimeReference, TimeReferenceView, TimeSeriesType,
    UnitSystem,
};
use vstd::prelude::*;

verus! {

/// The contents of an optional string.
pub open spec fn opt_text(s: Option<String>) -> Option<Seq<char>> {
    match s {
        None => None,
        Some(t) => Some(t@),
    }
}

/// The two grids a forecast value sits on: windows step by `interval`, and the steps inside
/// one window step by `resolution`.
#[derive(Debug)]
pub struct ForecastGrid {
    pub initial_timestamp: i64,
    pub resolution: Period,
    pub horizon: Period,
    pub interval: Period,
    /// How many windows there are.
    pub count: usize,
}

/// A [`ForecastGrid`], with its periods as views.
pub struct GridView {
    pub initial_timestamp: i64,
    pub resolution: PeriodView,
    pub horizon: PeriodView,
    pub interval: PeriodView,
    pub count: nat,
}

impl View for ForecastGrid {
    type V = GridView;

    open spec fn view(&self) -> GridView {
        GridView {
            initial_timestamp: self.initial_timestamp,
            resolution: self.resolution@,
            horizon: self.horizon@,
            interval: self.interval@,
            count: self.count as nat,
        }
    }
}

/// What decides which type a series is, and where its values sit in time.
#[derive(Debug)]
pub enum TimeAxis {
    /// A regular grid of `length` instants.
    SingleTimeSeries { initial_timestamp: i64, resolution: Period, length: usize },
    /// Instants of their own.
    NonSequentialTimeSeries { timestamps: Vec<i64> },
    /// The breakpoints of a step function.
    PersistentTimeSeries { timestamps: Vec<i64> },
    /// One value per window and step.
    Deterministic { grid: ForecastGrid },
    /// One value per window, step and percentile, the percentiles as IEEE 754 bits.
    Probabilistic { grid: ForecastGrid, percentiles: Vec<u64> },
    /// One value per window, step and trajectory.
    Scenarios { grid: ForecastGrid, scenario_count: usize },
}

/// A [`TimeAxis`], with its lists as sequences.
pub enum AxisView {
    SingleTimeSeries { initial_timestamp: i64, resolution: PeriodView, length: nat },
    NonSequentialTimeSeries { timestamps: Seq<i64> },
    PersistentTimeSeries { timestamps: Seq<i64> },
    Deterministic { grid: GridView },
    Probabilistic { grid: GridView, percentiles: Seq<u64> },
    Scenarios { grid: GridView, scenario_count: nat },
}

impl View for TimeAxis {
    type V = AxisView;

    open spec fn view(&self) -> AxisView {
        match *self {
            TimeAxis::SingleTimeSeries { initial_timestamp, resolution, length } =>
                AxisView::SingleTimeSeries {
                    initial_timestamp,
                    resolution: resolution@,
                    length: length as nat,
                },
            TimeAxis::NonSequentialTimeSeries { timestamps } =>
                AxisView::NonSequentialTimeSeries { timestamps: timestamps@ },
            TimeAxis::PersistentTimeSeries { timestamps } => AxisView::PersistentTimeSeries {
                timestamps: timestamps@,
            },
            TimeAxis::Deterministic { grid } => AxisView::Deterministic { grid: grid@ },
            TimeAxis::Probabilistic { grid, percentiles } => AxisView::Probabilistic {
                grid: grid@,
                percentiles: percentiles@,
            },
            TimeAxis::Scenarios { grid, scenario_count } => AxisView::Scenarios {
                grid: grid@,
                scenario_count: scenario_count as nat,
            },
        }
    }
}

impl AxisView {
    /// The type the axis belongs to.
    pub open spec fn kind(self) -> TimeSeriesType {
        match self {
            AxisView::SingleTimeSeries { .. } => TimeSeriesType::SingleTimeSeries,
            AxisView::NonSequentialTimeSeries { .. } => TimeSeriesType::NonSequentialTimeSeries,
            AxisView::PersistentTimeSeries { .. } => TimeSeriesType::PersistentTimeSeries,
            AxisView::Deterministic { .. } => TimeSeriesType::Deterministic,
            AxisView::Probabilistic { .. } => TimeSeriesType::Probabilistic,
            AxisView::Scenarios { .. } => TimeSeriesType::Scenarios,
        }
    }
}

impl TimeAxis {
    /// The type the axis belongs to.
    pub fn time_series_type(&self) -> (r: TimeSeriesType)
        ensures
            r == self@.kind(),
    {
        match self {
            TimeAxis::SingleTimeSeries { .. } => TimeSeriesType::SingleTimeSeries,
            TimeAxis::NonSequentialTimeSeries { .. } => TimeSeriesType::NonSequentialTimeSeries,
            TimeAxis::PersistentTimeSeries { .. } => TimeSeriesType::PersistentTimeSeries,
            TimeAxis::Deterministic { .. } => TimeSeriesType::Deterministic,
            TimeAxis::Probabilistic { .. } => TimeSeriesType::Probabilistic,
            TimeAxis::Scenarios { .. } => TimeSeriesType::Scenarios,
        }
    }
}

/// What describes a series' values without addressing them.
#[derive(Debug)]
pub struct Descriptors {
    pub element_type: ElementType,
    pub units: Option<String>,
    pub quantity_kind: Option<String>,
    pub unit_system: Option<UnitSystem>,
    pub time_reference: Option<TimeReference>,
    pub component_field: Option<String>,
    pub application_data: Option<String>,
}

/// [`Descriptors`], with their texts as characters.
pub struct DescriptorsView {
    pub element_type: ElementTypeView,
    pub units: Option<Seq<char>>,
    pub quantity_kind: Option<Seq<char>>,
    pub unit_system: Option<UnitSystem>,
    pub time_reference: Option<TimeReferenceView>,
    pub component_field: Option<Seq<char>>,
    pub application_data: Option<Seq<char>>,
}

impl View for Descriptors {
    type V = DescriptorsView;

    open spec fn view(&self) -> DescriptorsView {
        DescriptorsView {
            element_type: self.element_type@,
            units: opt_text(self.units),
            quantity_kind: opt_text(self.quantity_kind),
            unit_system: self.unit_system,
            time_reference: reference_view(self.time_reference),
            component_field: opt_text(self.component_field),
            application_data: opt_text(self.application_data),
        }
    }
}

/// One series: its name, its axis, its array, and its descriptors.
#[derive(Debug)]
pub struct TimeSeriesData {
    pub name: String,
    pub axis: TimeAxis,
    pub array: TypedArray,
    pub descriptors: Descriptors,
}

/// A [`TimeSeriesData`], with its parts as views.
pub struct DataView {
    pub name: Seq<char>,
    pub axis: AxisView,
    pub array: ArrayView,
    pub descriptors: DescriptorsView,
}

impl View for TimeSeriesData {
    type V = DataView;

    open spec fn view(&self) -> DataView {
        DataView {
            name: self.name@,
            axis: self.axis@,
            array: self.array@,
            descriptors: self.descriptors@,
        }
    }
}

/// What describes a series about which nothing has been said: its dtype alone.
pub open spec fn bare_descriptors(array: ArrayView) -> DescriptorsView {
    DescriptorsView {
        element_type: ElementTypeView::Scalar(array.dtype),
        units: None,
        quantity_kind: None,
        unit_system: None,
        time_reference: None,
        component_field: None,
        application_data: None,
    }
}

impl TimeSeriesData {
    /// A series described by nothing but its dtype.
    pub fn new(axis: TimeAxis, array: TypedArray, name: String) -> (r: TimeSeriesData)
        ensures
            r@ == (DataView {
                name: name@,
                axis: axis@,
                array: array@,
                descriptors: bare_descriptors(array@),
            }),
    {
        let element_type = ElementType::Scalar(array.dtype);
        TimeSeriesData {
            name,
            axis,
            array,
            descriptors: Descriptors {
                element_type,
                units: None,
                quantity_kind: None,
                unit_system: None,
                time_reference: None,
                component_field: None,
                application_data: None,
            },
        }
    }

    /// The same series, described otherwise.
    pub fn with_descriptors(self, descriptors: Descriptors) -> (r: TimeSeriesData)
        ensures
            r@ == (DataView { descriptors: descriptors@, ..self@ }),
    {
        TimeSeriesData { descriptors, ..self }
    }

    /// The type of the series.
    pub fn time_series_type(&self) -> (r: TimeSeriesType)
        ensures
            r == self@.axis.kind(),
    {
        self.axis.time_series_type()
    }
}

// ---- Grids ----------------------------------------------------------------------

/// The `k`-th instant of a regular grid, counted from its anchor.
pub open spec fn grid_at(initial: i64, resolution: PeriodView, k: int) -> Option<i64> {
    step_from(resolution.step, initial, k as i64)
}

/// Whether the first `n` instants of a grid are all on the calendar.
pub open spec fn grid_reaches(initial: i64, resolution: PeriodView, n: int) -> bool {
    forall|k: int| 0 <= k < n ==> (#[trigger] grid_at(initial, resolution, k)) is Some
}

/// The first `n` instants of a grid.
pub open spec fn grid_instants(initial: i64, resolution: PeriodView, n: int) -> Seq<i64> {
    Seq::new(n as nat, |k: int| grid_at(initial, resolution, k)->0)
}

/// The first `n` instants of a grid, or the first step that leaves the calendar.
pub fn grid_of_instants(initial: i64, resolution: &Period, n: usize) -> (r: Result<Vec<i64>, usize>)
    requires
        is_instant(initial as int),
        n <= i64::MAX,
    ensures
        match r {
            Ok(v) => grid_reaches(initial, resolution@, n as int) && v@ == grid_instants(
                initial,
                resolution@,
                n as int,
            ) && (forall|k: int| 0 <= k < v@.len() ==> is_instant(#[trigger] v@[k] as int)),
            Err(k) => k < n && grid_reaches(initial, resolution@, k as int) && grid_at(
                initial,
                resolution@,
                k as int,
            ) is None,
        },
{
    let mut out: Vec<i64> = Vec::new();
    let mut k: usize = 0;
    while k < n
        invariant
            k <= n <= i64::MAX,
            is_instant(initial as int),
            grid_reaches(initial, resolution@, k as int),
            out@ == grid_instants(initial, resolution@, k as int),
            forall|i: int| 0 <= i < out@.len() ==> is_instant(#[trigger] out@[i] as int),
        decreases n - k,
    {
        match resolution.step.add_to(initial, k as i64) {
            Some(at) => {
                proof {
                    assert(grid_at(initial, resolution@, k as int) == Some(at));
                }
                out.push(at);
                proof {
                    assert(out@ =~= grid_instants(initial, resolution@, k + 1));
                }
            },
            None => {
                return Err(k);
            },
        }
        k += 1;
    }
    Ok(out)
}

// ---- What a series and its grid are ---------------------------------------------------------

/// A grid of `n` instants begins at its first and goes on one step at a time: each is where that
/// many steps from the first lead. Without them all there is no grid, and the first step that
/// leads nowhere is named.
pub proof fn grids_go_step_by_step(
    initial: i64,
    resolution: Period,
    n: usize,
    k: int,
    r: Result<Vec<i64>, usize>,
    at: Option<i64>,
)
    requires
        is_instant(initial as int),
        n <= i64::MAX,
        0 <= k < n,
        call_ensures(grid_of_instants, (initial, &resolution, n), r),
        call_ensures(crate::instant::Step::add_to, (resolution.step, initial, k as i64), at),
    ensures
        r is Ok ==> r->Ok_0@.len() == n && r->Ok_0@[0] == initial && at == Some(r->Ok_0@[k]),
        r is Err && k == r->Err_0 ==> at is None,
        r is Err && k < r->Err_0 ==> at is Some,
        r is Err ==> r->Err_0 < n,
        r is Ok && crate::instant::leads_ahead(resolution.step) ==> forall|i: int, j: int|
            0 <= i < j < n ==> #[trigger] r->Ok_0@[i] < #[trigger] r->Ok_0@[j],
{
    crate::instant::no_steps_lead_nowhere(resolution.step, initial);
    assert(grid_at(initial, resolution@, k) == at);
    if r is Ok {
        let v = r->Ok_0@;
        assert(grid_at(initial, resolution@, 0) is Some);
        if crate::instant::leads_ahead(resolution.step) {
            assert forall|i: int, j: int| 0 <= i < j < n implies #[trigger] v[i]
                < #[trigger] v[j] by {
                assert(grid_at(initial, resolution@, i) is Some);
                assert(grid_at(initial, resolution@, j) is Some);
                crate::instant::steps_lead_on(resolution.step, initial, i as i64, j as i64);
            }
        }
    }
}

/// A new series is made of what it was given and says nothing more: its elements are the numbers
/// of its array. Giving it descriptors changes nothing else.
pub proof fn new_series_say_nothing_more(
    axis: TimeAxis,
    array: TypedArray,
    name: String,
    descriptors: Descriptors,
    r: TimeSeriesData,
    described: TimeSeriesData,
    kind: TimeSeriesType,
)
    requires
        call_ensures(TimeSeriesData::new, (axis, array, name), r),
        call_ensures(TimeSeriesData::with_descriptors, (r, descriptors), described),
        call_ensures(TimeSeriesData::time_series_type, (&described,), kind),
    ensures
        r@.name == name@,
        r@.axis == axis@,
        r@.array == array@,
        r@.descriptors.element_type == ElementTypeView::Scalar(array.dtype),
        r@.descriptors.units is None,
        r@.descriptors.quantity_kind is None,
        r@.descriptors.unit_system is None,
        r@.descriptors.time_reference is None,
        r@.descriptors.component_field is None,
        r@.descriptors.application_data is None,
        described@.name == name@,
        described@.axis == axis@,
        described@.array == array@,
        described@.descriptors == descriptors@,
        axis is SingleTimeSeries <==> kind is SingleTimeSeries,
        axis is NonSequentialTimeSeries <==> kind is NonSequentialTimeSeries,
        axis is PersistentTimeSeries <==> kind is PersistentTimeSeries,
        axis is Deterministic <==> kind is Deterministic,
        axis is Probabilistic <==> kind is Probabilistic,
        axis is Scenarios <==> kind is Scenarios,
{
}

} // verus!
