//! A row of the catalog, and the partition it belongs to.
use crate::array::{after, tail_of};
use crate::features::{FeatureView, Features};
use crate::instant::{opt_period, Period, PeriodView};
use crate::json::{trees, JsonTree};
use crate::kinds::{
    reference_view, ElementType, ElementTypeView, OwnerCategory, TimeReference, TimeReferenceView,
    TimeSeriesType, UnitSystem,
};
use crate::partition::{KindView, PartitionKey, PartitionView, ValueKind};
use crate::series::opt_text;
use vstd::prelude::*;

verus! {

/// One association row of the catalog.
///
/// Percentiles are held as the JSON documents they spell.
#[derive(Debug)]
pub struct TimeSeriesMetadata {
    /// `None` only on a row a caller built itself.
    pub id: Option<i64>,
    pub owner_id: i64,
    pub owner_type: String,
    pub owner_category: OwnerCategory,
    pub time_series_type: TimeSeriesType,
    pub name: String,
    pub data_hash: [u8; 32],
    pub initial_timestamp: Option<i64>,
    pub resolution: Option<Period>,
    pub horizon: Option<Period>,
    pub interval: Option<Period>,
    pub count: Option<usize>,
    pub length: Option<usize>,
    pub percentiles: Option<Vec<serde_json::Value>>,
    pub element_type: ElementType,
    /// Everything after the leading axis of the stored array.
    pub element_shape: Vec<usize>,
    pub features: Features,
    pub units: Option<String>,
    pub quantity_kind: Option<String>,
    pub unit_system: Option<UnitSystem>,
    pub time_reference: Option<TimeReference>,
    pub component_field: Option<String>,
    pub application_data: Option<String>,
}

/// A [`TimeSeriesMetadata`], with its parts as views.
pub struct MetadataView {
    pub id: Option<i64>,
    pub owner_id: i64,
    pub owner_type: Seq<char>,
    pub owner_category: OwnerCategory,
    pub kind: TimeSeriesType,
    pub name: Seq<char>,
    pub data_hash: Seq<u8>,
    pub initial_timestamp: Option<i64>,
    pub resolution: Option<PeriodView>,
    pub horizon: Option<PeriodView>,
    pub interval: Option<PeriodView>,
    pub count: Option<usize>,
    pub length: Option<usize>,
    pub percentiles: Option<Seq<JsonTree>>,
    pub element_type: ElementTypeView,
    pub element_shape: Seq<usize>,
    pub features: Map<Seq<char>, FeatureView>,
    pub units: Option<Seq<char>>,
    pub quantity_kind: Option<Seq<char>>,
    pub unit_system: Option<UnitSystem>,
    pub time_reference: Option<TimeReferenceView>,
    pub component_field: Option<Seq<char>>,
    pub application_data: Option<Seq<char>>,
}

impl View for TimeSeriesMetadata {
    type V = MetadataView;

    open spec fn view(&self) -> MetadataView {
        MetadataView {
            id: self.id,
            owner_id: self.owner_id,
            owner_type: self.owner_type@,
            owner_category: self.owner_category,
            kind: self.time_series_type,
            name: self.name@,
            data_hash: self.data_hash@,
            initial_timestamp: self.initial_timestamp,
            resolution: opt_period(self.resolution),
            horizon: opt_period(self.horizon),
            interval: opt_period(self.interval),
            count: self.count,
            length: self.length,
            percentiles: match self.percentiles {
                None => None,
                Some(percentiles) => Some(trees(percentiles@)),
            },
            element_type: self.element_type@,
            element_shape: self.element_shape@,
            features: self.features@,
            units: opt_text(self.units),
            quantity_kind: opt_text(self.quantity_kind),
            unit_system: self.unit_system,
            time_reference: reference_view(self.time_reference),
            component_field: opt_text(self.component_field),
            application_data: opt_text(self.application_data),
        }
    }
}

impl MetadataView {
    /// The shape of one step: what follows all the leading axes of the stored array, where the
    /// catalog's own shape only leaves out the first.
    pub open spec fn per_step(self) -> Seq<usize> {
        after(self.element_shape, self.kind.axes() - 1)
    }

    /// The partition a row belongs to.
    pub open spec fn partition(self) -> PartitionView {
        PartitionView {
            kind: self.kind,
            value: KindView::of(self.element_type, self.per_step()),
            reference: self.time_reference,
        }
    }
}

/// The per-step element shape of a row. For a forecast it is not the catalog's
/// `element_shape`, which still holds the window count.
pub fn per_step_shape(row: &TimeSeriesMetadata) -> (r: Vec<usize>)
    ensures
        r@ == row@.per_step(),
{
    let skip: usize = row.time_series_type.leading_dims() - 1;
    tail_of(&row.element_shape, skip)
}

/// The partition a catalog row belongs to.
pub fn partition_of(row: &TimeSeriesMetadata) -> (r: PartitionKey)
    ensures
        r@ == row@.partition(),
{
    PartitionKey {
        time_series_type: row.time_series_type,
        value_kind: ValueKind::of(&row.element_type, &per_step_shape(row)),
        time_reference: match &row.time_reference {
            None => None,
            Some(reference) => Some(reference.copied()),
        },
    }
}

// ---- Hashes -------------------------------------------------------------------------

/// The hexadecimal digit of a number below sixteen, in lower case.
pub open spec fn hex_digit(n: int) -> char {
    if n < 10 {
        ((48 + n) as u8) as char
    } else {
        ((87 + n) as u8) as char
    }
}

/// Bytes in lower-case hexadecimal, two digits each.
pub open spec fn hex_text(bytes: Seq<u8>) -> Seq<char>
    decreases bytes.len(),
{
    if bytes.len() == 0 {
        seq![]
    } else {
        hex_text(bytes.drop_last()).push(hex_digit(bytes.last() as int / 16)).push(
            hex_digit(bytes.last() as int % 16),
        )
    }
}

fn hex_char(n: u8) -> (r: char)
    requires
        n < 16,
    ensures
        r == hex_digit(n as int),
{
    if n < 10 {
        (48u8 + n) as char
    } else {
        (87u8 + n) as char
    }
}

/// Lower-case hexadecimal of a content hash.
pub fn hash_to_hex(hash: &[u8; 32]) -> (r: String)
    ensures
        r@ == hex_text(hash@),
        r@.len() == 64,
{
    let mut out: Vec<char> = Vec::new();
    let mut i: usize = 0;
    while i < 32
        invariant
            i <= 32,
            hash@.len() == 32,
            out@ == hex_text(hash@.take(i as int)),
            out@.len() == 2 * i,
        decreases 32 - i,
    {
        let b: u8 = hash[i];
        out.push(hex_char(b / 16));
        out.push(hex_char(b % 16));
        proof {
            assert(hash@.take(i + 1).drop_last() =~= hash@.take(i as int));
            assert(hash@.take(i + 1).last() == b);
        }
        i += 1;
    }
    proof {
        assert(hash@.take(32) =~= hash@);
    }
    crate::text::text_of(&out)
}

// ---- What a row says of its values ----------------------------------------------------------

/// The shape of one step leaves out the axes of the grid: none of the catalog's shape for a static
/// series, the windows for a forecast, and the steps too where it has lanes.
pub proof fn steps_leave_out_the_grid(row: TimeSeriesMetadata, r: Vec<usize>)
    requires
        call_ensures(per_step_shape, (&row,), r),
    ensures
        !row.time_series_type.forecasts() ==> r@ == row.element_shape@,
        (row.time_series_type == TimeSeriesType::Deterministic || row.time_series_type
            == TimeSeriesType::DeterministicSingleTimeSeries) && row.element_shape@.len() >= 1
            ==> seq![row.element_shape@[0]] + r@ == row.element_shape@,
        (row.time_series_type == TimeSeriesType::Probabilistic || row.time_series_type
            == TimeSeriesType::Scenarios) && row.element_shape@.len() >= 2
            ==> seq![row.element_shape@[0], row.element_shape@[1]] + r@ == row.element_shape@,
{
    if !row.time_series_type.forecasts() {
        assert(r@ =~= row.element_shape@);
    } else if row.time_series_type == TimeSeriesType::Probabilistic || row.time_series_type
        == TimeSeriesType::Scenarios {
        if row.element_shape@.len() >= 2 {
            assert(seq![row.element_shape@[0], row.element_shape@[1]] + r@ =~= row.element_shape@);
        }
    } else if row.element_shape@.len() >= 1 {
        assert(seq![row.element_shape@[0]] + r@ =~= row.element_shape@);
    }
}

/// Two rows share a partition exactly where they have one type, one time reference and one kind
/// of value: one element type, and for plain elements one shape of a step besides.
pub proof fn partitions_are_shared_by_kind(
    a: TimeSeriesMetadata,
    b: TimeSeriesMetadata,
    of_a: PartitionKey,
    of_b: PartitionKey,
)
    requires
        call_ensures(partition_of, (&a,), of_a),
        call_ensures(partition_of, (&b,), of_b),
    ensures
        of_a@ == of_b@ <==> a.time_series_type == b.time_series_type && reference_view(
            a.time_reference,
        ) == reference_view(b.time_reference) && a.element_type@ == b.element_type@ && (
        a.element_type is Scalar ==> a@.per_step() == b@.per_step()),
{
}

/// The digit of a number below sixteen.
pub open spec fn digit_value(c: char) -> int {
    if '0' <= c <= '9' {
        c as int - '0' as int
    } else {
        c as int - 'a' as int + 10
    }
}

proof fn hex_reads_back(bytes: Seq<u8>, i: int)
    requires
        0 <= i < bytes.len(),
    ensures
        hex_text(bytes).len() == 2 * bytes.len(),
        16 * digit_value(hex_text(bytes)[2 * i]) + digit_value(hex_text(bytes)[2 * i + 1])
            == bytes[i],
    decreases bytes.len(),
{
    reveal_with_fuel(hex_text, 2);
    let rest = bytes.drop_last();
    let last = bytes.last() as int;
    assert(0 <= last / 16 < 16 && 0 <= last % 16 < 16);
    assert(digit_value(hex_digit(last / 16)) == last / 16);
    assert(digit_value(hex_digit(last % 16)) == last % 16);
    if rest.len() > 0 {
        hex_reads_back(rest, if i < rest.len() {
            i
        } else {
            0
        });
    }
    if i < rest.len() {
        assert(rest[i] == bytes[i]);
    }
}

/// A hash in hexadecimal reads back byte by byte, the high digit of each first.
pub proof fn hashes_read_back(hash: [u8; 32], r: String, i: int)
    requires
        call_ensures(hash_to_hex, (&hash,), r),
        0 <= i < 32,
    ensures
        r@.len() == 64,
        16 * digit_value(r@[2 * i]) + digit_value(r@[2 * i + 1]) == hash@[i],
{
    hex_reads_back(hash@, i);
}

} // verus!
