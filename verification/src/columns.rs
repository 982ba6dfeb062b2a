//! A table's contents: columns of plain values, cell by cell.
use crate::array::{cell, element_dims, product, TypedArray};
use crate::kinds::Dtype;
use crate::table::{nested, ColumnTypeView, ColumnView};
use vstd::prelude::*;

verus! {

/// The contents of one column.
#[derive(Debug)]
pub enum ColumnData {
    Text(Vec<String>),
    Integers(Vec<i64>),
    SmallIntegers(Vec<i32>),
    /// Double-precision numbers, as IEEE 754 bits.
    Floats(Vec<u64>),
    /// Instants, in milliseconds since the epoch.
    Instants(Vec<i64>),
    /// Values of the store, one row of the array in each row of the column.
    Values(TypedArray),
}

/// The contents of one row of one column.
pub enum Cell {
    Text(Seq<char>),
    Integer(i64),
    SmallInteger(i32),
    Float(u64),
    Instant(i64),
    Value(Seq<u8>),
}

impl ColumnData {
    /// How many rows the column has.
    pub open spec fn rows(self) -> nat {
        match self {
            ColumnData::Text(v) => v@.len(),
            ColumnData::Integers(v) => v@.len(),
            ColumnData::SmallIntegers(v) => v@.len(),
            ColumnData::Floats(v) => v@.len(),
            ColumnData::Instants(v) => v@.len(),
            ColumnData::Values(a) => if a.shape@.len() == 0 {
                0
            } else {
                a.shape@[0] as nat
            },
        }
    }

    /// What a row of the column holds.
    pub open spec fn at(self, k: int) -> Cell {
        match self {
            ColumnData::Text(v) => Cell::Text(v@[k]@),
            ColumnData::Integers(v) => Cell::Integer(v@[k]),
            ColumnData::SmallIntegers(v) => Cell::SmallInteger(v@[k]),
            ColumnData::Floats(v) => Cell::Float(v@[k]),
            ColumnData::Instants(v) => Cell::Instant(v@[k]),
            ColumnData::Values(a) => Cell::Value(
                cell(
                    a.bytes@,
                    k,
                    (product(element_dims(a.shape@)) * a.dtype.bytes()) as int,
                ),
            ),
        }
    }

    /// Whether the contents are of a column's type.
    pub open spec fn has_type(self, t: ColumnTypeView) -> bool {
        match self {
            ColumnData::Text(_) => t == ColumnTypeView::Text,
            ColumnData::Integers(_) => t == ColumnTypeView::Primitive(Dtype::I64),
            ColumnData::SmallIntegers(_) => t == ColumnTypeView::Primitive(Dtype::I32),
            ColumnData::Floats(_) => t == ColumnTypeView::Primitive(Dtype::F64),
            ColumnData::Instants(_) => t is Timestamp,
            ColumnData::Values(a) => a@.fits() && a.shape@.len() > 0 && t == nested(
                ColumnTypeView::Primitive(a.dtype),
                element_dims(a.shape@),
            ),
        }
    }
}

/// Whether columns are those of a schema, in its order, and hold these rows.
pub open spec fn holds_table(
    list: Seq<ColumnData>,
    schema: Seq<ColumnView>,
    rows: Seq<Seq<Cell>>,
) -> bool {
    &&& list.len() == schema.len()
    &&& forall|c: int| 0 <= c < list.len() ==> (#[trigger] list[c]).has_type(schema[c].column_type)
    &&& forall|c: int| 0 <= c < list.len() ==> (#[trigger] list[c]).rows() == rows.len()
    &&& forall|c: int, k: int|
        0 <= c < list.len() && 0 <= k < rows.len() ==> #[trigger] list[c].at(k) == rows[k][c]
}

} // verus!
