//! The series file: one catalog row per series, naming the array it reads.
use crate::catalog::{per_step_shape, MetadataView, TimeSeriesMetadata};
use crate::columns::{holds_table, Cell, ColumnData};
use crate::features::{encode_features, features_text};
use crate::instant::{Period, PeriodView};
use crate::kinds::TimeSeriesType;
use crate::rows::{emittable, grid_of_axis};
use crate::schema;
use crate::schema::{encode_element_shape, sizes_json_text};
use crate::series::{AxisView, TimeSeriesData};
use crate::table::{
    grid_of, gridded, literal_of, names, reference_literal, series_columns, zone_of, ArrayKey,
    ArrayKeyView, PartitionSchema,
};
use crate::text::texts;
use vstd::prelude::*;

verus! {

/// The text columns of a series file, in the order of its schema.
pub open spec fn text_names(kind: TimeSeriesType) -> Seq<Seq<char>> {
    seq![
        schema::OWNER_TYPE@,
        schema::OWNER_CATEGORY@,
        schema::TIME_SERIES_TYPE@,
        schema::NAME@,
    ] + (if gridded(kind) {
        seq![schema::RESOLUTION@]
    } else {
        seq![]
    }) + (if kind.forecasts() {
        seq![schema::INTERVAL@, schema::HORIZON@]
    } else {
        seq![]
    }) + seq![
        schema::FEATURES@,
        schema::ELEMENT_TYPE@,
        schema::ELEMENT_SHAPE@,
        schema::TIME_REFERENCE@,
        schema::UNITS@,
        schema::QUANTITY_KIND@,
        schema::UNIT_SYSTEM@,
        schema::COMPONENT_FIELD@,
        schema::APPLICATION_DATA@,
    ]
}

/// The text columns of a series file, in the order of its schema.
pub fn series_text_columns(kind: TimeSeriesType) -> (r: Vec<&'static str>)
    ensures
        names(r@) == text_names(kind),
{
    let mut list: Vec<&'static str> = Vec::new();
    list.push(schema::OWNER_TYPE);
    list.push(schema::OWNER_CATEGORY);
    list.push(schema::TIME_SERIES_TYPE);
    list.push(schema::NAME);
    if kind == TimeSeriesType::SingleTimeSeries || kind.is_forecast() {
        list.push(schema::RESOLUTION);
    }
    if kind.is_forecast() {
        list.push(schema::INTERVAL);
        list.push(schema::HORIZON);
    }
    list.push(schema::FEATURES);
    list.push(schema::ELEMENT_TYPE);
    list.push(schema::ELEMENT_SHAPE);
    list.push(schema::TIME_REFERENCE);
    list.push(schema::UNITS);
    list.push(schema::QUANTITY_KIND);
    list.push(schema::UNIT_SYSTEM);
    list.push(schema::COMPONENT_FIELD);
    list.push(schema::APPLICATION_DATA);
    proof {
        assert(names(list@) =~= text_names(kind));
    }
    list
}

/// A period's spelling, or the empty text for none.
pub open spec fn period_cell(period: Option<PeriodView>) -> Seq<char> {
    match period {
        Some(p) => p.iso,
        None => seq![],
    }
}

/// A text, or the empty one for none.
pub open spec fn text_cell(text: Option<Seq<char>>) -> Seq<char> {
    match text {
        Some(t) => t,
        None => seq![],
    }
}

/// The texts of a catalog row, in the order of [`text_names`]. What is absent is the empty
/// text, which keeps every column required.
pub open spec fn descriptor_texts(kind: TimeSeriesType, row: MetadataView) -> Seq<Seq<char>> {
    seq![row.owner_type, row.owner_category.spelling(), row.kind.spelling(), row.name] + (
    if gridded(kind) {
        seq![period_cell(row.resolution)]
    } else {
        seq![]
    }) + (if kind.forecasts() {
        seq![period_cell(row.interval), period_cell(row.horizon)]
    } else {
        seq![]
    }) + seq![
        features_text(row.features),
        row.element_type.spelling(),
        sizes_json_text(row.per_step()),
        literal_of(row.time_reference),
        text_cell(row.units),
        text_cell(row.quantity_kind),
        match row.unit_system {
            Some(u) => u.spelling(),
            None => seq![],
        },
        text_cell(row.component_field),
        text_cell(row.application_data),
    ]
}

fn period_text(period: &Option<Period>) -> (r: String)
    ensures
        r@ == period_cell(crate::instant::opt_period(*period)),
{
    match period {
        Some(p) => p.to_iso8601(),
        None => String::new(),
    }
}

fn text_or_empty(text: &Option<String>) -> (r: String)
    ensures
        r@ == text_cell(crate::series::opt_text(*text)),
{
    match text {
        Some(t) => t.clone(),
        None => String::new(),
    }
}

/// One text of a catalog row, with the column it goes into.
#[derive(Debug)]
pub struct Descriptor {
    pub column: &'static str,
    pub text: String,
}

/// The columns of descriptors.
pub open spec fn descriptor_names(list: Seq<Descriptor>) -> Seq<Seq<char>> {
    list.map_values(|d: Descriptor| d.column@)
}

/// The texts of descriptors.
pub open spec fn descriptor_values(list: Seq<Descriptor>) -> Seq<Seq<char>> {
    list.map_values(|d: Descriptor| d.text@)
}

/// The texts of a catalog row, one for each column that [`series_text_columns`] lists.
///
/// An absent free-form descriptor is the empty text, so a stored empty text reads back as
/// absent.
pub fn descriptor_row(kind: TimeSeriesType, row: &TimeSeriesMetadata) -> (r: Vec<Descriptor>)
    ensures
        descriptor_names(r@) == text_names(kind),
        descriptor_values(r@) == descriptor_texts(kind, row@),
{
    let mut out: Vec<Descriptor> = Vec::new();
    out.push(Descriptor { column: schema::OWNER_TYPE, text: row.owner_type.clone() });
    out.push(
        Descriptor {
            column: schema::OWNER_CATEGORY,
            text: row.owner_category.as_str().to_string(),
        },
    );
    out.push(
        Descriptor {
            column: schema::TIME_SERIES_TYPE,
            text: row.time_series_type.as_str().to_string(),
        },
    );
    out.push(Descriptor { column: schema::NAME, text: row.name.clone() });
    if kind == TimeSeriesType::SingleTimeSeries || kind.is_forecast() {
        out.push(Descriptor { column: schema::RESOLUTION, text: period_text(&row.resolution) });
    }
    if kind.is_forecast() {
        out.push(Descriptor { column: schema::INTERVAL, text: period_text(&row.interval) });
        out.push(Descriptor { column: schema::HORIZON, text: period_text(&row.horizon) });
    }
    out.push(Descriptor { column: schema::FEATURES, text: encode_features(&row.features) });
    out.push(Descriptor { column: schema::ELEMENT_TYPE, text: row.element_type.spelled() });
    out.push(
        Descriptor {
            column: schema::ELEMENT_SHAPE,
            text: encode_element_shape(&per_step_shape(row)),
        },
    );
    out.push(
        Descriptor {
            column: schema::TIME_REFERENCE,
            text: reference_literal(&row.time_reference),
        },
    );
    out.push(Descriptor { column: schema::UNITS, text: text_or_empty(&row.units) });
    out.push(Descriptor { column: schema::QUANTITY_KIND, text: text_or_empty(&row.quantity_kind) });
    out.push(
        Descriptor {
            column: schema::UNIT_SYSTEM,
            text: match row.unit_system {
                Some(u) => u.as_str().to_string(),
                None => String::new(),
            },
        },
    );
    out.push(
        Descriptor { column: schema::COMPONENT_FIELD, text: text_or_empty(&row.component_field) },
    );
    out.push(
        Descriptor { column: schema::APPLICATION_DATA, text: text_or_empty(&row.application_data) },
    );
    proof {
        assert(descriptor_names(out@) =~= text_names(kind));
        assert(descriptor_values(out@) =~= descriptor_texts(kind, row@));
    }
    out
}

// ---- The builder --------------------------------------------------------------------------

/// One row of a series file.
pub struct SeriesLine {
    pub key: ArrayKeyView,
    pub row: MetadataView,
    pub initial: Option<i64>,
    pub count: Option<nat>,
}

/// The row of a series: its grid is the one its values have.
pub open spec fn series_line(key: ArrayKeyView, row: MetadataView, axis: AxisView) -> SeriesLine {
    SeriesLine {
        key,
        row,
        initial: match axis {
            AxisView::SingleTimeSeries { initial_timestamp, .. } => Some(initial_timestamp),
            AxisView::NonSequentialTimeSeries { .. } => None,
            AxisView::PersistentTimeSeries { .. } => None,
            _ => Some(grid_of_axis(axis).initial_timestamp),
        },
        count: match axis {
            AxisView::SingleTimeSeries { length, .. } => Some(length),
            AxisView::NonSequentialTimeSeries { .. } => None,
            AxisView::PersistentTimeSeries { .. } => None,
            _ => Some(grid_of_axis(axis).count),
        },
    }
}

impl SeriesLine {
    /// How many instants or windows the series has.
    pub open spec fn counted(self) -> i64 {
        match self.count {
            Some(n) => n as i64,
            None => 0,
        }
    }

    /// The row's cells, in the order of the columns.
    pub open spec fn cells(self, kind: TimeSeriesType) -> Seq<Cell> {
        seq![
            Cell::Text(self.key.data_hash),
            Cell::Text(self.key.time_axis),
            Cell::Integer(
                match self.row.id {
                    Some(id) => id,
                    None => 0,
                },
            ),
            Cell::Integer(self.row.owner_id),
            Cell::Text(self.row.owner_type),
            Cell::Text(self.row.owner_category.spelling()),
            Cell::Text(self.row.kind.spelling()),
            Cell::Text(self.row.name),
        ] + (if gridded(kind) {
            seq![Cell::Instant(self.initial->0), Cell::Text(period_cell(self.row.resolution))]
        } else {
            seq![]
        }) + (if kind == TimeSeriesType::SingleTimeSeries {
            seq![Cell::Integer(self.counted())]
        } else {
            seq![]
        }) + (if kind.forecasts() {
            seq![
                Cell::Text(period_cell(self.row.interval)),
                Cell::Text(period_cell(self.row.horizon)),
                Cell::Integer(self.counted()),
            ]
        } else {
            seq![]
        }) + seq![
            Cell::Text(features_text(self.row.features)),
            Cell::Text(self.row.element_type.spelling()),
            Cell::Text(sizes_json_text(self.row.per_step())),
            Cell::Text(literal_of(self.row.time_reference)),
            Cell::Text(text_cell(self.row.units)),
            Cell::Text(text_cell(self.row.quantity_kind)),
            Cell::Text(
                match self.row.unit_system {
                    Some(u) => u.spelling(),
                    None => seq![],
                },
            ),
            Cell::Text(text_cell(self.row.component_field)),
            Cell::Text(text_cell(self.row.application_data)),
        ]
    }
}

/// The cells of rows.
pub open spec fn series_cells(lines: Seq<SeriesLine>, kind: TimeSeriesType) -> Seq<Seq<Cell>> {
    lines.map_values(|l: SeriesLine| l.cells(kind))
}

/// The series file's columns, accumulated.
pub struct SeriesFileBuilder<'a> {
    table: &'a PartitionSchema,
    data_hash: Vec<String>,
    time_axis: Vec<String>,
    id: Vec<i64>,
    owner_id: Vec<i64>,
    initial_timestamp: Vec<i64>,
    length: Vec<i64>,
    count: Vec<i64>,
    /// The texts of each row, in the order of the text columns.
    text: Vec<Vec<String>>,
    rows: Ghost<Seq<SeriesLine>>,
}

pub open spec fn no_anchor_text(name: Seq<char>, kind: TimeSeriesType) -> Seq<char> {
    "series '"@ + name + "' is a "@ + kind.spelling() + " but carries no initial_timestamp"@
}

impl<'a> SeriesFileBuilder<'a> {
    /// The partition the rows belong to.
    pub closed spec fn of(self) -> PartitionSchema {
        *self.table
    }

    /// The rows held.
    pub closed spec fn lines(self) -> Seq<SeriesLine> {
        self.rows@
    }

    spec fn row_held(self, k: int) -> bool {
        let line = self.rows@[k];
        let kind = self.table.key@.kind;
        &&& self.data_hash@[k]@ == line.key.data_hash
        &&& self.time_axis@[k]@ == line.key.time_axis
        &&& self.id@[k] == match line.row.id {
            Some(id) => id,
            None => 0,
        }
        &&& self.owner_id@[k] == line.row.owner_id
        &&& gridded(kind) ==> Some(self.initial_timestamp@[k]) == line.initial
        &&& kind == TimeSeriesType::SingleTimeSeries ==> self.length@[k] == line.counted()
        &&& kind.forecasts() ==> self.count@[k] == line.counted()
        &&& texts(self.text@[k]@) == descriptor_texts(kind, line.row)
    }

    /// Whether the columns hold the rows.
    pub closed spec fn wf(self) -> bool {
        let n = self.rows@.len();
        let kind = self.table.key@.kind;
        &&& self.data_hash@.len() == n
        &&& self.time_axis@.len() == n
        &&& self.id@.len() == n
        &&& self.owner_id@.len() == n
        &&& self.text@.len() == n
        &&& gridded(kind) ==> self.initial_timestamp@.len() == n
        &&& kind == TimeSeriesType::SingleTimeSeries ==> self.length@.len() == n
        &&& kind.forecasts() ==> self.count@.len() == n
        &&& forall|k: int| 0 <= k < n ==> #[trigger] self.row_held(k)
    }

    /// A builder without rows.
    pub fn new(table: &'a PartitionSchema) -> (r: SeriesFileBuilder<'a>)
        ensures
            r.wf(),
            r.of() == *table,
            r.lines() == Seq::<SeriesLine>::empty(),
    {
        SeriesFileBuilder {
            table,
            data_hash: Vec::new(),
            time_axis: Vec::new(),
            id: Vec::new(),
            owner_id: Vec::new(),
            initial_timestamp: Vec::new(),
            length: Vec::new(),
            count: Vec::new(),
            text: Vec::new(),
            rows: Ghost(Seq::empty()),
        }
    }

    /// Whether no row is held.
    pub fn is_empty(&self) -> (r: bool)
        requires
            self.wf(),
        ensures
            r == (self.lines().len() == 0),
    {
        self.data_hash.len() == 0
    }

    /// Appends the row of one series. The grid columns come from the values and not from the
    /// catalog row, since a slice has an anchor and a length of its own.
    pub fn push(&mut self, key: &ArrayKey, row: &TimeSeriesMetadata, data: &TimeSeriesData) -> (r:
        Result<(), String>)
        requires
            old(self).wf(),
            emittable(data@),
        ensures
            final(self).wf(),
            final(self).of() == old(self).of(),
            ({
                let kind = old(self).of().key@.kind;
                let line = series_line(key@, row@, data@.axis);
                match r {
                    Ok(_) => {
                        &&& gridded(kind) ==> line.initial is Some
                        &&& final(self).lines() == old(self).lines().push(line)
                    },
                    Err(e) => {
                        &&& gridded(kind) && line.initial is None
                        &&& e@ == no_anchor_text(row@.name, kind)
                        &&& *final(self) == *old(self)
                    },
                }
            }),
    {
        let ghost before = *self;
        let ghost line = series_line(key@, row@, data@.axis);
        let kind = self.table.key.time_series_type;
        let grid = grid_of(&data.axis);
        let counted: i64 = match grid.count {
            Some(n) => n as i64,
            None => 0,
        };
        let has_grid = kind == TimeSeriesType::SingleTimeSeries || kind.is_forecast();
        if has_grid {
            match grid.initial_timestamp {
                Some(at) => {
                    self.initial_timestamp.push(at);
                },
                None => {
                    let mut e = "series '".to_string();
                    e.append(row.name.as_str());
                    e.append("' is a ");
                    e.append(kind.as_str());
                    e.append(" but carries no initial_timestamp");
                    return Err(e);
                },
            }
        }
        if kind == TimeSeriesType::SingleTimeSeries {
            self.length.push(counted);
        }
        if kind.is_forecast() {
            self.count.push(counted);
        }
        self.data_hash.push(key.data_hash.clone());
        self.time_axis.push(key.time_axis.clone());
        self.id.push(
            match row.id {
                Some(id) => id,
                None => 0,
            },
        );
        self.owner_id.push(row.owner_id);
        let descriptors = descriptor_row(kind, row);
        let mut values: Vec<String> = Vec::new();
        let mut i: usize = 0;
        while i < descriptors.len()
            invariant
                i <= descriptors.len(),
                values@.len() == i,
                forall|j: int| 0 <= j < i ==> (#[trigger] values@[j])@ == descriptors@[j].text@,
            decreases descriptors.len() - i,
        {
            values.push(descriptors[i].text.clone());
            i += 1;
        }
        proof {
            assert(texts(values@) =~= descriptor_values(descriptors@));
        }
        self.text.push(values);
        self.rows = Ghost(before.rows@.push(line));
        proof {
            assert forall|k: int| 0 <= k < self.rows@.len() implies #[trigger] self.row_held(k) by {
                if k < before.rows@.len() {
                    assert(before.row_held(k));
                }
            }
        }
        Ok(())
    }

    /// The `i`-th text column.
    fn take_text(&self, i: usize) -> (r: Vec<String>)
        requires
            self.wf(),
            i < text_names(self.table.key@.kind).len(),
        ensures
            r@.len() == self.rows@.len(),
            forall|k: int|
                0 <= k < r@.len() ==> (#[trigger] r@[k])@ == descriptor_texts(
                    self.table.key@.kind,
                    self.rows@[k].row,
                )[i as int],
    {
        let mut out: Vec<String> = Vec::new();
        let mut k: usize = 0;
        while k < self.text.len()
            invariant
                self.wf(),
                i < text_names(self.table.key@.kind).len(),
                k <= self.text.len(),
                out@.len() == k,
                forall|j: int|
                    0 <= j < k ==> (#[trigger] out@[j])@ == descriptor_texts(
                        self.table.key@.kind,
                        self.rows@[j].row,
                    )[i as int],
            decreases self.text.len() - k,
        {
            proof {
                assert(self.row_held(k as int));
                assert(texts(self.text@[k as int]@).len() == self.text@[k as int]@.len());
                assert(texts(self.text@[k as int]@)[i as int] == self.text@[k as int]@[i as int]@);
            }
            out.push(self.text[k][i].clone());
            k += 1;
        }
        out
    }

    /// The rows in the columns of the series file.
    pub fn finish(&self) -> (r: Vec<ColumnData>)
        requires
            self.wf(),
        ensures
            holds_table(
                r@,
                series_columns(self.of().key@.kind, zone_of(self.of().key@.reference)),
                series_cells(self.lines(), self.of().key@.kind),
            ),
    {
        let kind = self.table.key.time_series_type;
        let mut columns: Vec<ColumnData> = Vec::new();
        columns.push(ColumnData::Text(copy_texts(&self.data_hash)));
        columns.push(ColumnData::Text(copy_texts(&self.time_axis)));
        columns.push(ColumnData::Integers(self.id.clone()));
        columns.push(ColumnData::Integers(self.owner_id.clone()));
        columns.push(ColumnData::Text(self.take_text(0)));
        columns.push(ColumnData::Text(self.take_text(1)));
        columns.push(ColumnData::Text(self.take_text(2)));
        columns.push(ColumnData::Text(self.take_text(3)));
        let mut next: usize = 4;
        if kind == TimeSeriesType::SingleTimeSeries || kind.is_forecast() {
            columns.push(ColumnData::Instants(self.initial_timestamp.clone()));
            columns.push(ColumnData::Text(self.take_text(4)));
            next = 5;
        }
        if kind == TimeSeriesType::SingleTimeSeries {
            columns.push(ColumnData::Integers(self.length.clone()));
        }
        if kind.is_forecast() {
            columns.push(ColumnData::Text(self.take_text(5)));
            columns.push(ColumnData::Text(self.take_text(6)));
            columns.push(ColumnData::Integers(self.count.clone()));
            next = 7;
        }
        columns.push(ColumnData::Text(self.take_text(next)));
        columns.push(ColumnData::Text(self.take_text(next + 1)));
        columns.push(ColumnData::Text(self.take_text(next + 2)));
        columns.push(ColumnData::Text(self.take_text(next + 3)));
        columns.push(ColumnData::Text(self.take_text(next + 4)));
        columns.push(ColumnData::Text(self.take_text(next + 5)));
        columns.push(ColumnData::Text(self.take_text(next + 6)));
        columns.push(ColumnData::Text(self.take_text(next + 7)));
        columns.push(ColumnData::Text(self.take_text(next + 8)));
        proof {
            let rows = series_cells(self.lines(), kind);
            assert forall|c: int, k: int| 0 <= c < columns@.len() && 0 <= k < rows.len() implies
                #[trigger] columns@[c].at(k) == rows[k][c] by {
                assert(self.row_held(k));
                assert(rows[k] == self.rows@[k].cells(kind));
            }
        }
        columns
    }
}

pub(crate) fn copy_texts(list: &Vec<String>) -> (r: Vec<String>)
    ensures
        texts(r@) == texts(list@),
        r@.len() == list@.len(),
        forall|k: int| 0 <= k < r@.len() ==> (#[trigger] r@[k])@ == list@[k]@,
{
    let mut out: Vec<String> = Vec::new();
    let mut k: usize = 0;
    while k < list.len()
        invariant
            k <= list.len(),
            out@.len() == k,
            forall|j: int| 0 <= j < k ==> (#[trigger] out@[j])@ == list@[j]@,
        decreases list.len() - k,
    {
        out.push(list[k].clone());
        k += 1;
    }
    proof {
        assert(texts(out@) =~= texts(list@));
    }
    out
}

// ---- What a row says ------------------------------------------------------------------------

/// Whether a text stands under a column's name.
pub open spec fn says_under(list: Seq<Descriptor>, name: Seq<char>, text: Seq<char>) -> bool {
    exists|i: int| 0 <= i < list.len() && (#[trigger] list[i]).column@ == name && list[i].text@
        == text
}

/// Each descriptor of a series stands under the column of its own name: its owner, its type and
/// its name always, its periods where its type has them, and nothing where a value is unset.
pub proof fn descriptors_stand_under_their_names(
    kind: TimeSeriesType,
    row: TimeSeriesMetadata,
    r: Vec<Descriptor>,
)
    requires
        call_ensures(descriptor_row, (kind, &row), r),
    ensures
        says_under(r@, schema::OWNER_TYPE@, row@.owner_type),
        says_under(r@, schema::OWNER_CATEGORY@, row@.owner_category.spelling()),
        says_under(r@, schema::TIME_SERIES_TYPE@, row@.kind.spelling()),
        says_under(r@, schema::NAME@, row@.name),
        kind == TimeSeriesType::SingleTimeSeries || kind.forecasts() ==> says_under(
            r@,
            schema::RESOLUTION@,
            if row@.resolution is Some {
                row@.resolution->0.iso
            } else {
                seq![]
            },
        ),
        kind.forecasts() ==> says_under(
            r@,
            schema::INTERVAL@,
            if row@.interval is Some {
                row@.interval->0.iso
            } else {
                seq![]
            },
        ),
        kind.forecasts() ==> says_under(
            r@,
            schema::HORIZON@,
            if row@.horizon is Some {
                row@.horizon->0.iso
            } else {
                seq![]
            },
        ),
        says_under(r@, schema::ELEMENT_TYPE@, row@.element_type.spelling()),
        says_under(r@, schema::TIME_REFERENCE@, literal_of(row@.time_reference)),
        says_under(r@, schema::UNITS@, row@.units.unwrap_or(seq![])),
        says_under(r@, schema::QUANTITY_KIND@, row@.quantity_kind.unwrap_or(seq![])),
        row@.unit_system is None ==> says_under(r@, schema::UNIT_SYSTEM@, seq![]),
        row@.unit_system matches Some(u) ==> says_under(r@, schema::UNIT_SYSTEM@, u.spelling()),
        says_under(r@, schema::COMPONENT_FIELD@, row@.component_field.unwrap_or(seq![])),
        says_under(r@, schema::APPLICATION_DATA@, row@.application_data.unwrap_or(seq![])),
{
    let names = descriptor_names(r@);
    let values = descriptor_values(r@);
    let n = r@.len() as int;
    assert(names.len() == n);
    assert(values.len() == n);
    assert forall|i: int| 0 <= i < n implies names[i] == (#[trigger] r@[i]).column@ && values[i]
        == r@[i].text@ by {}
    assert(r@[0].column@ == schema::OWNER_TYPE@);
    assert(r@[1].column@ == schema::OWNER_CATEGORY@);
    assert(r@[2].column@ == schema::TIME_SERIES_TYPE@);
    assert(r@[3].column@ == schema::NAME@);
    if gridded(kind) {
        assert(r@[4].column@ == schema::RESOLUTION@);
    }
    if kind.forecasts() {
        assert(r@[5].column@ == schema::INTERVAL@);
        assert(r@[6].column@ == schema::HORIZON@);
    }
    assert(r@[n - 8].column@ == schema::ELEMENT_TYPE@);
    assert(r@[n - 6].column@ == schema::TIME_REFERENCE@);
    assert(r@[n - 5].column@ == schema::UNITS@);
    assert(r@[n - 4].column@ == schema::QUANTITY_KIND@);
    assert(r@[n - 3].column@ == schema::UNIT_SYSTEM@);
    assert(r@[n - 2].column@ == schema::COMPONENT_FIELD@);
    assert(r@[n - 1].column@ == schema::APPLICATION_DATA@);
}

} // verus!
