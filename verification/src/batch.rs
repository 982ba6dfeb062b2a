//! One batch of a file as it was read: columns by name, and what each says for its rows.
use crate::array::{ArrayView, TypedArray};
use crate::cube::LaneValue;
use crate::instant::{is_instant, on_calendar};
use crate::kinds::Dtype;
use crate::series::opt_text;
use crate::table::{PERCENTILE, SCENARIO, VALUE};
use crate::text::{integer, integer_text, same_text, texts};
use vstd::prelude::*;

verus! {

/// What the numbers of a time column count.
#[derive(Clone, Copy, Debug, PartialEq, Eq, Structural)]
pub enum TimeUnit {
    Second,
    Millisecond,
    Microsecond,
    Nanosecond,
}

/// The contents of a column, for the types that are read.
#[derive(Debug)]
pub enum ReadData {
    Text(Vec<String>),
    Int64(Vec<i64>),
    Int32(Vec<i32>),
    /// As IEEE 754 bits.
    Float64(Vec<u64>),
    Timestamp { unit: TimeUnit, zone: Option<String>, values: Vec<i64> },
    Other,
}

/// One column of a batch.
#[derive(Debug)]
pub struct ReadColumn {
    pub name: String,
    /// Whether any row is null.
    pub nulls: bool,
    /// How the column's type is displayed.
    pub shown: String,
    pub data: ReadData,
}

/// One level of fixed-size lists around a value.
#[derive(Debug)]
pub struct ListLevel {
    pub size: i32,
    pub nulls: bool,
}

/// What the levels of fixed-size lists are around.
#[derive(Debug)]
pub enum ValueEnd {
    /// A list whose rows differ in length.
    List,
    Struct,
    /// Elements of the store, as little-endian bytes.
    Leaf { nulls: bool, dtype: Dtype, bytes: Vec<u8> },
    /// Elements of another type, with how the type is displayed.
    Foreign { nulls: bool, shown: String },
}

/// The value column of a batch: its levels of fixed-size lists, outermost first, and what they
/// are around.
#[derive(Debug)]
pub struct ValueColumn {
    pub levels: Vec<ListLevel>,
    pub end: ValueEnd,
}

/// One batch of a file.
#[derive(Debug)]
pub struct ReadBatch {
    pub rows: usize,
    pub columns: Vec<ReadColumn>,
    pub value: Option<ValueColumn>,
}

impl ReadColumn {
    /// How many rows the contents have, where they were read.
    pub open spec fn has_rows(self, n: nat) -> bool {
        match self.data {
            ReadData::Text(v) => v@.len() == n,
            ReadData::Int64(v) => v@.len() == n,
            ReadData::Int32(v) => v@.len() == n,
            ReadData::Float64(v) => v@.len() == n,
            ReadData::Timestamp { values, .. } => values@.len() == n,
            ReadData::Other => true,
        }
    }
}

impl ReadBatch {
    /// Whether every column has a row for each of the batch's.
    pub open spec fn wf(self) -> bool {
        forall|c: int|
            0 <= c < self.columns@.len() ==> (#[trigger] self.columns@[c]).has_rows(
                self.rows as nat,
            )
    }
}

/// The first column of a name, if there is one.
pub open spec fn column_in(list: Seq<ReadColumn>, name: Seq<char>) -> Option<ReadColumn>
    decreases list.len(),
{
    if list.len() == 0 {
        None
    } else if list[0].name@ == name {
        Some(list[0])
    } else {
        column_in(list.skip(1), name)
    }
}

impl ReadBatch {
    /// The column of a name, if there is one.
    pub open spec fn column(self, name: Seq<char>) -> Option<ReadColumn> {
        column_in(self.columns@, name)
    }

    /// The column of a name, if there is one.
    pub fn column_by_name(&self, name: &str) -> (r: Option<&ReadColumn>)
        ensures
            match (r, self.column(name@)) {
                (Some(c), Some(expected)) => *c == expected,
                (None, None) => true,
                _ => false,
            },
            self.wf() && r is Some ==> r->0.has_rows(self.rows as nat),
    {
        let mut i: usize = 0;
        proof {
            assert(self.columns@.skip(0) =~= self.columns@);
        }
        while i < self.columns.len()
            invariant
                i <= self.columns.len(),
                self.column(name@) == column_in(self.columns@.skip(i as int), name@),
            decreases self.columns.len() - i,
        {
            proof {
                assert(self.columns@.skip(i as int)[0] == self.columns@[i as int]);
                assert(self.columns@.skip(i as int).skip(1) =~= self.columns@.skip(i + 1));
            }
            if same_text(self.columns[i].name.as_str(), name) {
                return Some(&self.columns[i]);
            }
            i += 1;
        }
        None
    }
}

// ---- Text and integers ------------------------------------------------------------------------

pub open spec fn not_text_text(name: Seq<char>) -> Seq<char> {
    "column `"@ + name + "` is not text"@
}

pub open spec fn nulls_text(name: Seq<char>) -> Seq<char> {
    "the `"@ + name
        + "` column has nulls; the store holds none, and the format writes an absent value as the empty string rather than a null"@
}

fn null_cells(name: &str) -> (r: String)
    ensures
        r@ == nulls_text(name@),
{
    let mut e = "the `".to_string();
    e.append(name);
    e.append(
        "` column has nulls; the store holds none, and the format writes an absent value as the empty string rather than a null",
    );
    e
}

/// The texts of a column, nothing when there is no such column. A null is not an empty text,
/// so a column with nulls is refused.
pub open spec fn text_of_column(b: ReadBatch, name: Seq<char>) -> Result<
    Option<Seq<Seq<char>>>,
    Seq<char>,
> {
    match b.column(name) {
        None => Ok(None),
        Some(c) => match c.data {
            ReadData::Text(v) => if c.nulls {
                Err(nulls_text(name))
            } else {
                Ok(Some(texts(v@)))
            },
            _ => Err(not_text_text(name)),
        },
    }
}

/// The contents of a text column that may be missing.
pub open spec fn opt_texts(column: Option<Vec<String>>) -> Option<Seq<Seq<char>>> {
    match column {
        Some(v) => Some(texts(v@)),
        None => None,
    }
}

/// A text column, nothing when the file has no such column, as a foreign file legitimately has
/// not.
pub fn text_column(b: &ReadBatch, name: &str) -> (r: Result<Option<Vec<String>>, String>)
    ensures
        match (r, text_of_column(*b, name@)) {
            (Ok(column), Ok(expected)) => opt_texts(column) == expected,
            (Err(e), Err(text)) => e@ == text,
            _ => false,
        },
        b.wf() && r is Ok && r->Ok_0 is Some ==> r->Ok_0->0@.len() == b.rows,
{
    match b.column_by_name(name) {
        None => Ok(None),
        Some(c) => match &c.data {
            ReadData::Text(v) => {
                if c.nulls {
                    return Err(null_cells(name));
                }
                Ok(Some(crate::series_file::copy_texts(v)))
            },
            _ => {
                let mut e = "column `".to_string();
                e.append(name);
                e.append("` is not text");
                Err(e)
            },
        },
    }
}

pub open spec fn not_integer_text(name: Seq<char>, shown: Seq<char>) -> Seq<char> {
    "column `"@ + name + "` is "@ + shown + ", not an integer"@
}

/// 32-bit integers, as 64-bit ones.
pub open spec fn widened(v: Seq<i32>) -> Seq<i64> {
    v.map_values(|x: i32| x as i64)
}

/// The integers of a column, nothing when there is no such column.
pub open spec fn ints_of_column(b: ReadBatch, name: Seq<char>) -> Result<
    Option<Seq<i64>>,
    Seq<char>,
> {
    match b.column(name) {
        None => Ok(None),
        Some(c) => if c.nulls {
            Err(nulls_text(name))
        } else {
            match c.data {
                ReadData::Int64(v) => Ok(Some(v@)),
                ReadData::Int32(v) => Ok(Some(widened(v@))),
                _ => Err(not_integer_text(name, c.shown@)),
            }
        },
    }
}

/// The contents of an integer column that may be missing.
pub open spec fn opt_ints(column: Option<Vec<i64>>) -> Option<Seq<i64>> {
    match column {
        Some(v) => Some(v@),
        None => None,
    }
}

/// An integer column, nothing when the file has no such column.
pub fn int_column(b: &ReadBatch, name: &str) -> (r: Result<Option<Vec<i64>>, String>)
    ensures
        match (r, ints_of_column(*b, name@)) {
            (Ok(column), Ok(expected)) => opt_ints(column) == expected,
            (Err(e), Err(text)) => e@ == text,
            _ => false,
        },
        b.wf() && r is Ok && r->Ok_0 is Some ==> r->Ok_0->0@.len() == b.rows,
{
    match b.column_by_name(name) {
        None => Ok(None),
        Some(c) => {
            if c.nulls {
                return Err(null_cells(name));
            }
            match &c.data {
                ReadData::Int64(v) => Ok(Some(v.clone())),
                ReadData::Int32(v) => {
                    let mut out: Vec<i64> = Vec::new();
                    let mut i: usize = 0;
                    while i < v.len()
                        invariant
                            i <= v.len(),
                            out@ == widened(v@.take(i as int)),
                        decreases v.len() - i,
                    {
                        out.push(v[i] as i64);
                        proof {
                            assert(out@ =~= widened(v@.take(i + 1)));
                        }
                        i += 1;
                    }
                    proof {
                        assert(v@.take(i as int) =~= v@);
                    }
                    Ok(Some(out))
                },
                _ => {
                    let mut e = "column `".to_string();
                    e.append(name);
                    e.append("` is ");
                    e.append(c.shown.as_str());
                    e.append(", not an integer");
                    Err(e)
                },
            }
        },
    }
}

// ---- Time columns -----------------------------------------------------------------------------

pub open spec fn no_column_text(name: Seq<char>) -> Seq<char> {
    "the file has no `"@ + name + "` column"@
}

pub(crate) fn no_column(name: &str) -> (r: String)
    ensures
        r@ == no_column_text(name@),
{
    let mut e = "the file has no `".to_string();
    e.append(name);
    e.append("` column");
    e
}

pub open spec fn zoneless_text(name: Seq<char>, shown: Seq<char>) -> Seq<char> {
    "column `"@ + name + "` is "@ + shown + ", not a timestamp"@
}

/// The zone a time column carries, nothing for a naive one.
pub open spec fn zone_in(b: ReadBatch, name: Seq<char>) -> Result<Option<Seq<char>>, Seq<char>> {
    match b.column(name) {
        None => Err(no_column_text(name)),
        Some(c) => match c.data {
            ReadData::Timestamp { zone, .. } => Ok(opt_text(zone)),
            _ => Err(zoneless_text(name, c.shown@)),
        },
    }
}

/// The zone a time column carries, nothing for a naive one.
pub fn arrow_zone(b: &ReadBatch, name: &str) -> (r: Result<Option<String>, String>)
    ensures
        match (r, zone_in(*b, name@)) {
            (Ok(zone), Ok(expected)) => opt_text(zone) == expected,
            (Err(e), Err(text)) => e@ == text,
            _ => false,
        },
{
    match b.column_by_name(name) {
        None => Err(no_column(name)),
        Some(c) => match &c.data {
            ReadData::Timestamp { zone, .. } => Ok(
                match zone {
                    Some(z) => Some(z.clone()),
                    None => None,
                },
            ),
            _ => {
                let mut e = "column `".to_string();
                e.append(name);
                e.append("` is ");
                e.append(c.shown.as_str());
                e.append(", not a timestamp");
                Err(e)
            },
        },
    }
}

pub open spec fn stamp_nulls_text(name: Seq<char>) -> Seq<char> {
    "the `"@ + name + "` column has nulls; the store records an instant for every row"@
}

pub open spec fn second_overflow_text() -> Seq<char> {
    "a timestamp in seconds overflows milliseconds"@
}

pub open spec fn broken_milli_text(name: Seq<char>, unit: Seq<char>, v: int) -> Seq<char> {
    "the `"@ + name + "` column is in "@ + unit + "s and "@ + integer_text(v)
        + " is not a whole millisecond; the store records millisecond instants and will not round one"@
}

pub open spec fn not_stamp_text(name: Seq<char>, shown: Seq<char>) -> Seq<char> {
    "the `"@ + name + "` column is "@ + shown + ", not a timestamp"@
}

pub open spec fn unrepresentable_text(ms: int) -> Seq<char> {
    "timestamp "@ + integer_text(ms) + " ms is not representable"@
}

/// A number of some unit in milliseconds: as it is, or scaled where nothing is lost.
pub open spec fn in_millis(name: Seq<char>, unit: TimeUnit, v: i64) -> Result<i64, Seq<char>> {
    match unit {
        TimeUnit::Second => if i64::MIN <= v * 1_000 <= i64::MAX {
            Ok((v * 1_000) as i64)
        } else {
            Err(second_overflow_text())
        },
        TimeUnit::Millisecond => Ok(v),
        TimeUnit::Microsecond => if v as int % 1_000 == 0 {
            Ok((v as int / 1_000) as i64)
        } else {
            Err(broken_milli_text(name, "microsecond"@, v as int))
        },
        TimeUnit::Nanosecond => if v as int % 1_000_000 == 0 {
            Ok((v as int / 1_000_000) as i64)
        } else {
            Err(broken_milli_text(name, "nanosecond"@, v as int))
        },
    }
}

/// Scaling never rounds: what comes out is the instant that went in.
pub proof fn instants_cross_exactly(name: Seq<char>, unit: TimeUnit, v: i64)
    ensures
        in_millis(name, unit, v) is Ok ==> match unit {
            TimeUnit::Second => in_millis(name, unit, v)->Ok_0 == v * 1_000,
            TimeUnit::Millisecond => in_millis(name, unit, v)->Ok_0 == v,
            TimeUnit::Microsecond => in_millis(name, unit, v)->Ok_0 * 1_000 == v,
            TimeUnit::Nanosecond => in_millis(name, unit, v)->Ok_0 * 1_000_000 == v,
        },
{
}

/// The first of the first `n` numbers that is no number of milliseconds, if there is one.
pub open spec fn first_unscaled(name: Seq<char>, unit: TimeUnit, values: Seq<i64>, n: int) -> Option<
    Seq<char>,
>
    decreases n,
{
    if n <= 0 {
        None
    } else {
        match first_unscaled(name, unit, values, n - 1) {
            Some(text) => Some(text),
            None => match in_millis(name, unit, values[n - 1]) {
                Err(text) => Some(text),
                Ok(_) => None,
            },
        }
    }
}

proof fn unscaled_persists(name: Seq<char>, unit: TimeUnit, values: Seq<i64>, n: int, m: int)
    requires
        0 <= n <= m,
        first_unscaled(name, unit, values, n) is Some,
    ensures
        first_unscaled(name, unit, values, m) == first_unscaled(name, unit, values, n),
    decreases m - n,
{
    if n < m {
        unscaled_persists(name, unit, values, n, m - 1);
    }
}

/// Numbers of some unit, in milliseconds.
pub open spec fn scaled(name: Seq<char>, unit: TimeUnit, values: Seq<i64>) -> Seq<i64> {
    values.map_values(|v: i64| in_millis(name, unit, v)->Ok_0)
}

/// The first of the first `n` instants that is not on the calendar, if there is one.
pub open spec fn first_off_calendar(millis: Seq<i64>, n: int) -> Option<int>
    decreases n,
{
    if n <= 0 {
        None
    } else {
        match first_off_calendar(millis, n - 1) {
            Some(ms) => Some(ms),
            None => if is_instant(millis[n - 1] as int) {
                None
            } else {
                Some(millis[n - 1] as int)
            },
        }
    }
}

proof fn off_calendar_persists(millis: Seq<i64>, n: int, m: int)
    requires
        0 <= n <= m,
        first_off_calendar(millis, n) is Some,
    ensures
        first_off_calendar(millis, m) == first_off_calendar(millis, n),
    decreases m - n,
{
    if n < m {
        off_calendar_persists(millis, n, m - 1);
    }
}

/// The instants of a time column.
pub open spec fn stamps_in(b: ReadBatch, name: Seq<char>) -> Result<Seq<i64>, Seq<char>> {
    match b.column(name) {
        None => Err(no_column_text(name)),
        Some(c) => if c.nulls {
            Err(stamp_nulls_text(name))
        } else {
            match c.data {
                ReadData::Timestamp { unit, values, .. } => match first_unscaled(
                    name,
                    unit,
                    values@,
                    values@.len() as int,
                ) {
                    Some(text) => Err(text),
                    None => {
                        let millis = scaled(name, unit, values@);
                        match first_off_calendar(millis, millis.len() as int) {
                            Some(ms) => Err(unrepresentable_text(ms)),
                            None => Ok(millis),
                        }
                    },
                },
                _ => Err(not_stamp_text(name, c.shown@)),
            }
        },
    }
}

/// A number of some unit in milliseconds, if it is a whole number of them.
fn whole_millis(v: i64, per_milli: i64) -> (r: Option<i64>)
    requires
        per_milli > 0,
    ensures
        match r {
            Some(ms) => v as int % per_milli as int == 0 && ms == v as int / per_milli as int,
            None => v as int % per_milli as int != 0,
        },
{
    if v >= 0 {
        if v % per_milli == 0 {
            proof {
                let p = per_milli as int;
                assert(0 <= v as int / p <= v) by (nonlinear_arith)
                    requires
                        v >= 0,
                        p > 0,
                ;
            }
            return Some(v / per_milli);
        }
    } else {
        let below: i64 = -(v + 1);
        if below % per_milli == per_milli - 1 {
            let q: i64 = below / per_milli;
            proof {
                let p = per_milli as int;
                let b = below as int;
                assert(0 <= q <= b) by (nonlinear_arith)
                    requires
                        q == b / p,
                        p > 0,
                        b >= 0,
                ;
                assert(v == -(b + 1));
                assert(b == q * p + (p - 1)) by (nonlinear_arith)
                    requires
                        q == b / p,
                        b % p == p - 1,
                        p > 0,
                        b >= 0,
                ;
                assert(v == (-(q + 1)) * p) by (nonlinear_arith)
                    requires
                        v == -(b + 1),
                        b == q * p + (p - 1),
                ;
                vstd::arithmetic::div_mod::lemma_fundamental_div_mod_converse(
                    v as int,
                    p,
                    -(q + 1),
                    0,
                );
            }
            return Some(-q - 1);
        }
        proof {
            let p = per_milli as int;
            let b = below as int;
            if v as int % p == 0 {
                let k = v as int / p;
                assert(v == k * p) by {
                    vstd::arithmetic::div_mod::lemma_fundamental_div_mod(v as int, p);
                    assert(p * k == k * p) by (nonlinear_arith);
                }
                assert(b == (-k - 1) * p + (p - 1)) by (nonlinear_arith)
                    requires
                        b == -(v + 1),
                        v == k * p,
                ;
                vstd::arithmetic::div_mod::lemma_fundamental_div_mod_converse(
                    b,
                    p,
                    -k - 1,
                    p - 1,
                );
            }
        }
    }
    None
}

/// Whether a number is the first of some that is no whole number of milliseconds.
pub open spec fn first_broken(values: Seq<i64>, per_milli: int, i: int) -> bool {
    &&& 0 <= i < values.len()
    &&& values[i] as int % per_milli != 0
    &&& forall|j: int| 0 <= j < i ==> (#[trigger] values[j]) as int % per_milli == 0
}

/// Numbers of a finer unit in milliseconds. Nothing is rounded: one that is no whole number of
/// milliseconds is refused.
pub fn rescale(values: &Vec<i64>, per_milli: i64, unit: &str, column: &str) -> (r: Result<
    Vec<i64>,
    String,
>)
    requires
        per_milli > 0,
    ensures
        match r {
            Ok(out) => {
                &&& out@.len() == values@.len()
                &&& forall|i: int|
                    0 <= i < values@.len() ==> (#[trigger] out@[i]) * per_milli == values@[i]
            },
            Err(e) => exists|i: int| #[trigger]
                first_broken(values@, per_milli as int, i) && e@ == broken_milli_text(
                    column@,
                    unit@,
                    values@[i] as int,
                ),
        },
{
    let mut out: Vec<i64> = Vec::new();
    let mut i: usize = 0;
    while i < values.len()
        invariant
            i <= values.len(),
            per_milli > 0,
            out@.len() == i,
            forall|j: int| 0 <= j < i ==> (#[trigger] out@[j]) * per_milli == values@[j],
            forall|j: int|
                0 <= j < i ==> (#[trigger] values@[j]) as int % per_milli as int == 0,
        decreases values.len() - i,
    {
        match whole_millis(values[i], per_milli) {
            Some(ms) => {
                proof {
                    let v = values@[i as int] as int;
                    vstd::arithmetic::div_mod::lemma_fundamental_div_mod(v, per_milli as int);
                    assert(ms * per_milli == per_milli * ms) by (nonlinear_arith);
                }
                out.push(ms);
            },
            None => {
                proof {
                    assert(first_broken(values@, per_milli as int, i as int));
                }
                let mut e = "the `".to_string();
                e.append(column);
                e.append("` column is in ");
                e.append(unit);
                e.append("s and ");
                e.append(integer(values[i]).as_str());
                e.append(
                    " is not a whole millisecond; the store records millisecond instants and will not round one",
                );
                return Err(e);
            },
        }
        i += 1;
    }
    Ok(out)
}

proof fn first_broken_is_unscaled(
    name: Seq<char>,
    unit: TimeUnit,
    values: Seq<i64>,
    per_milli: int,
    i: int,
    n: int,
)
    requires
        unit == TimeUnit::Microsecond && per_milli == 1_000 || unit == TimeUnit::Nanosecond
            && per_milli == 1_000_000,
        first_broken(values, per_milli, i),
        0 <= n <= values.len(),
    ensures
        n <= i ==> first_unscaled(name, unit, values, n) is None,
        n > i ==> first_unscaled(name, unit, values, n) == Some(
            in_millis(name, unit, values[i])->Err_0,
        ),
    decreases n,
{
    if n > 0 {
        first_broken_is_unscaled(name, unit, values, per_milli, i, n - 1);
        if n - 1 < i {
            assert(values[n - 1] as int % per_milli == 0);
        }
    }
}

proof fn whole_is_scaled(
    name: Seq<char>,
    unit: TimeUnit,
    values: Seq<i64>,
    out: Seq<i64>,
    per_milli: int,
    n: int,
)
    requires
        unit == TimeUnit::Microsecond && per_milli == 1_000 || unit == TimeUnit::Nanosecond
            && per_milli == 1_000_000,
        out.len() == values.len(),
        forall|i: int| 0 <= i < values.len() ==> (#[trigger] out[i]) * per_milli == values[i],
        0 <= n <= values.len(),
    ensures
        first_unscaled(name, unit, values, n) is None,
        forall|i: int| 0 <= i < n ==> (#[trigger] out[i]) == in_millis(name, unit, values[i])->Ok_0,
    decreases n,
{
    if n > 0 {
        whole_is_scaled(name, unit, values, out, per_milli, n - 1);
        assert(out[n - 1] * per_milli == values[n - 1]);
    }
}

fn to_millis(name: &str, unit: TimeUnit, values: &Vec<i64>) -> (r: Result<Vec<i64>, String>)
    ensures
        match (r, first_unscaled(name@, unit, values@, values@.len() as int)) {
            (Ok(v), None) => v@ == scaled(name@, unit, values@),
            (Err(e), Some(text)) => e@ == text,
            _ => false,
        },
{
    match unit {
        TimeUnit::Microsecond | TimeUnit::Nanosecond => {
            let per_milli: i64 = if unit == TimeUnit::Microsecond {
                1_000
            } else {
                1_000_000
            };
            let label = if unit == TimeUnit::Microsecond {
                "microsecond"
            } else {
                "nanosecond"
            };
            match rescale(values, per_milli, label, name) {
                Ok(v) => {
                    proof {
                        whole_is_scaled(
                            name@,
                            unit,
                            values@,
                            v@,
                            per_milli as int,
                            values@.len() as int,
                        );
                        assert(v@ =~= scaled(name@, unit, values@));
                    }
                    Ok(v)
                },
                Err(e) => {
                    proof {
                        let i = choose|i: int| #[trigger]
                            first_broken(values@, per_milli as int, i) && e@ == broken_milli_text(
                                name@,
                                label@,
                                values@[i] as int,
                            );
                        first_broken_is_unscaled(
                            name@,
                            unit,
                            values@,
                            per_milli as int,
                            i,
                            values@.len() as int,
                        );
                    }
                    Err(e)
                },
            }
        },
        _ => {
            let ghost all = scaled(name@, unit, values@);
            let mut millis: Vec<i64> = Vec::new();
            let mut i: usize = 0;
            while i < values.len()
                invariant
                    i <= values.len(),
                    unit == TimeUnit::Second || unit == TimeUnit::Millisecond,
                    all == scaled(name@, unit, values@),
                    all.len() == values@.len(),
                    first_unscaled(name@, unit, values@, i as int) is None,
                    millis@ == all.take(i as int),
                decreases values.len() - i,
            {
                let ms: i64 = if unit == TimeUnit::Millisecond {
                    values[i]
                } else {
                    match values[i].checked_mul(1_000) {
                        Some(ms) => ms,
                        None => {
                            proof {
                                unscaled_persists(
                                    name@,
                                    unit,
                                    values@,
                                    i + 1,
                                    values@.len() as int,
                                );
                            }
                            return Err(
                                "a timestamp in seconds overflows milliseconds".to_string(),
                            );
                        },
                    }
                };
                millis.push(ms);
                proof {
                    assert(all[i as int] == ms);
                    assert(all.take(i + 1) =~= all.take(i as int).push(ms));
                }
                i += 1;
            }
            proof {
                assert(all.take(i as int) =~= all);
            }
            Ok(millis)
        },
    }
}

/// The instants of a time column.
///
/// Seconds and milliseconds cross as they are; microseconds and nanoseconds only where every
/// value is a whole millisecond, which is what the store records.
pub fn read_timestamps(b: &ReadBatch, name: &str) -> (r: Result<Vec<i64>, String>)
    ensures
        match (r, stamps_in(*b, name@)) {
            (Ok(v), Ok(expected)) => v@ == expected,
            (Err(e), Err(text)) => e@ == text,
            _ => false,
        },
        r is Ok ==> forall|k: int|
            0 <= k < r->Ok_0@.len() ==> is_instant(#[trigger] r->Ok_0@[k] as int),
        b.wf() && r is Ok ==> r->Ok_0@.len() == b.rows,
{
    let column = match b.column_by_name(name) {
        None => {
            return Err(no_column(name));
        },
        Some(c) => c,
    };
    if column.nulls {
        let mut e = "the `".to_string();
        e.append(name);
        e.append("` column has nulls; the store records an instant for every row");
        return Err(e);
    }
    match &column.data {
        ReadData::Timestamp { unit, values, .. } => {
            let unit: TimeUnit = *unit;
            let ghost all = scaled(name@, unit, values@);
            let millis = match to_millis(name, unit, values) {
                Ok(millis) => millis,
                Err(e) => {
                    return Err(e);
                },
            };
            let mut k: usize = 0;
            while k < millis.len()
                invariant
                    k <= millis.len(),
                    first_off_calendar(millis@, k as int) is None,
                    forall|j: int| 0 <= j < k ==> is_instant(#[trigger] millis@[j] as int),
                    millis@ == all,
                    all == scaled(name@, unit, values@),
                    first_unscaled(name@, unit, values@, values@.len() as int) is None,
                    b.column(name@) == Some(*column),
                    !column.nulls,
                    column.data matches ReadData::Timestamp { unit: u, values: w, .. } && u == unit
                        && w == *values,
                decreases millis.len() - k,
            {
                if !on_calendar(millis[k]) {
                    let mut e = "timestamp ".to_string();
                    e.append(integer(millis[k]).as_str());
                    e.append(" ms is not representable");
                    proof {
                        off_calendar_persists(millis@, k + 1, millis@.len() as int);
                    }
                    return Err(e);
                }
                k += 1;
            }
            Ok(millis)
        },
        _ => {
            let mut e = "the `".to_string();
            e.append(name);
            e.append("` column is ");
            e.append(column.shown.as_str());
            e.append(", not a timestamp");
            Err(e)
        },
    }
}

// ---- Lanes and values -------------------------------------------------------------------------

pub open spec fn percentile_nulls_text() -> Seq<char> {
    "the `"@ + PERCENTILE@ + "` column has nulls"@
}

/// Percentiles as lanes.
pub open spec fn percentile_lanes(v: Seq<u64>) -> Seq<LaneValue> {
    v.map_values(|p: u64| LaneValue::Percentile(p))
}

/// Trajectories as lanes.
pub open spec fn scenario_lanes(v: Seq<i64>) -> Seq<LaneValue> {
    v.map_values(|s: i64| LaneValue::Scenario(s))
}

/// The lanes of a batch's rows, nothing when it has no lane column.
pub open spec fn lanes_in(b: ReadBatch) -> Result<Option<Seq<LaneValue>>, Seq<char>> {
    match b.column(PERCENTILE@) {
        Some(c) => if c.nulls {
            Err(percentile_nulls_text())
        } else {
            match c.data {
                ReadData::Float64(v) => Ok(Some(percentile_lanes(v@))),
                _ => Err("expected a float64 column"@),
            }
        },
        None => match ints_of_column(b, SCENARIO@) {
            Ok(Some(v)) => Ok(Some(scenario_lanes(v))),
            Ok(None) => Ok(None),
            Err(text) => Err(text),
        },
    }
}

/// The lanes of a batch that may have none.
pub open spec fn opt_lanes(lanes: Option<Vec<LaneValue>>) -> Option<Seq<LaneValue>> {
    match lanes {
        Some(v) => Some(v@),
        None => None,
    }
}

/// The lane column of a batch, nothing when it has none.
pub fn read_lanes(b: &ReadBatch) -> (r: Result<Option<Vec<LaneValue>>, String>)
    ensures
        match (r, lanes_in(*b)) {
            (Ok(lanes), Ok(expected)) => opt_lanes(lanes) == expected,
            (Err(e), Err(text)) => e@ == text,
            _ => false,
        },
        b.wf() && r is Ok && r->Ok_0 is Some ==> r->Ok_0->0@.len() == b.rows,
{
    match b.column_by_name(PERCENTILE) {
        Some(c) => {
            if c.nulls {
                let mut e = "the `".to_string();
                e.append(PERCENTILE);
                e.append("` column has nulls");
                return Err(e);
            }
            match &c.data {
                ReadData::Float64(v) => {
                    let mut out: Vec<LaneValue> = Vec::new();
                    let mut i: usize = 0;
                    while i < v.len()
                        invariant
                            i <= v.len(),
                            out@ == percentile_lanes(v@.take(i as int)),
                        decreases v.len() - i,
                    {
                        out.push(LaneValue::Percentile(v[i]));
                        proof {
                            assert(out@ =~= percentile_lanes(v@.take(i + 1)));
                        }
                        i += 1;
                    }
                    proof {
                        assert(v@.take(i as int) =~= v@);
                    }
                    Ok(Some(out))
                },
                _ => Err("expected a float64 column".to_string()),
            }
        },
        None => match int_column(b, SCENARIO) {
            Ok(Some(v)) => {
                let mut out: Vec<LaneValue> = Vec::new();
                let mut i: usize = 0;
                while i < v.len()
                    invariant
                        i <= v.len(),
                        out@ == scenario_lanes(v@.take(i as int)),
                    decreases v.len() - i,
                {
                    out.push(LaneValue::Scenario(v[i]));
                    proof {
                        assert(out@ =~= scenario_lanes(v@.take(i + 1)));
                    }
                    i += 1;
                }
                proof {
                    assert(v@.take(i as int) =~= v@);
                }
                Ok(Some(out))
            },
            Ok(None) => Ok(None),
            Err(e) => Err(e),
        },
    }
}

pub open spec fn value_nulls_text() -> Seq<char> {
    "the `"@ + VALUE@
        + "` column has nulls; the store holds no nulls, and NaN is a value rather than an absence, so this is refused rather than coerced"@
}

fn nulls_refused() -> (r: String)
    ensures
        r@ == value_nulls_text(),
{
    let mut e = "the `".to_string();
    e.append(VALUE);
    e.append(
        "` column has nulls; the store holds no nulls, and NaN is a value rather than an absence, so this is refused rather than coerced",
    );
    e
}

pub open spec fn negative_text() -> Seq<char> {
    "a negative fixed-size list width"@
}

pub open spec fn ragged_text() -> Seq<char> {
    "the `"@ + VALUE@
        + "` column is a variable-length list; a time series' per-step shape is fixed, so this reads fixed-size lists only"@
}

pub open spec fn struct_text() -> Seq<char> {
    "the `"@ + VALUE@
        + "` column is a struct; this reads the packed form composite element types are stored in, not a decoded one"@
}

pub open spec fn foreign_text(shown: Seq<char>) -> Seq<char> {
    "the `"@ + VALUE@ + "` column is "@ + shown + ", which is not one of the store's dtypes"@
}

/// The first fault of the first `n` levels, if there is one.
pub open spec fn level_fault(levels: Seq<ListLevel>, n: int) -> Option<Seq<char>>
    decreases n,
{
    if n <= 0 {
        None
    } else {
        match level_fault(levels, n - 1) {
            Some(text) => Some(text),
            None => if levels[n - 1].nulls {
                Some(value_nulls_text())
            } else if levels[n - 1].size < 0 {
                Some(negative_text())
            } else {
                None
            },
        }
    }
}

proof fn level_fault_persists(levels: Seq<ListLevel>, n: int, m: int)
    requires
        0 <= n <= m,
        level_fault(levels, n) is Some,
    ensures
        level_fault(levels, m) == level_fault(levels, n),
    decreases m - n,
{
    if n < m {
        level_fault_persists(levels, n, m - 1);
    }
}

/// The sizes of levels.
pub open spec fn level_dims(levels: Seq<ListLevel>) -> Seq<usize> {
    levels.map_values(|l: ListLevel| l.size as usize)
}

/// The value column of a batch: the per-step shape, and the array of all its rows.
pub open spec fn values_in(b: ReadBatch) -> Result<(Seq<usize>, ArrayView), Seq<char>> {
    match b.value {
        None => Err(no_column_text(VALUE@)),
        Some(column) => match level_fault(column.levels@, column.levels@.len() as int) {
            Some(text) => Err(text),
            None => {
                let dims = level_dims(column.levels@);
                match column.end {
                    ValueEnd::List => Err(ragged_text()),
                    ValueEnd::Struct => Err(struct_text()),
                    ValueEnd::Foreign { nulls, shown } => Err(
                        if nulls {
                            value_nulls_text()
                        } else {
                            foreign_text(shown@)
                        },
                    ),
                    ValueEnd::Leaf { nulls, dtype, bytes } => if nulls {
                        Err(value_nulls_text())
                    } else {
                        let array = ArrayView { dtype, shape: seq![b.rows] + dims, bytes: bytes@ };
                        if array.fits() {
                            Ok((dims, array))
                        } else {
                            Err(crate::array::wrong_length_text(array))
                        }
                    },
                }
            },
        },
    }
}

/// Peels the levels of fixed-size lists off a value column, outermost first.
pub(crate) fn descend(levels: &Vec<ListLevel>) -> (r: Result<Vec<usize>, String>)
    ensures
        match (r, level_fault(levels@, levels@.len() as int)) {
            (Ok(dims), None) => dims@ == level_dims(levels@),
            (Err(e), Some(text)) => e@ == text,
            _ => false,
        },
{
    let mut dims: Vec<usize> = Vec::new();
    let mut i: usize = 0;
    while i < levels.len()
        invariant
            i <= levels.len(),
            level_fault(levels@, i as int) is None,
            dims@ == level_dims(levels@.take(i as int)),
        decreases levels.len() - i,
    {
        if levels[i].nulls {
            proof {
                level_fault_persists(levels@, i + 1, levels@.len() as int);
            }
            return Err(nulls_refused());
        }
        if levels[i].size < 0 {
            proof {
                level_fault_persists(levels@, i + 1, levels@.len() as int);
            }
            return Err("a negative fixed-size list width".to_string());
        }
        dims.push(levels[i].size as usize);
        proof {
            assert(dims@ =~= level_dims(levels@.take(i + 1)));
        }
        i += 1;
    }
    proof {
        assert(levels@.take(i as int) =~= levels@);
    }
    Ok(dims)
}

/// The value column of a batch, as the per-step shape and one flat array.
///
/// Structs and ragged lists are refused: a struct is the decoded form of function data, which
/// is not what is written, and a per-step shape is not ragged.
pub fn batch_values(b: &ReadBatch) -> (r: Result<(Vec<usize>, TypedArray), String>)
    ensures
        match (r, values_in(*b)) {
            (Ok((dims, array)), Ok((shape, expected))) => dims@ == shape && array@ == expected,
            (Err(e), Err(text)) => e@ == text,
            _ => false,
        },
{
    match &b.value {
        None => Err(no_column(VALUE)),
        Some(column) => {
            let dims = match descend(&column.levels) {
                Ok(dims) => dims,
                Err(e) => {
                    return Err(e);
                },
            };
            match &column.end {
                ValueEnd::List => {
                    let mut e = "the `".to_string();
                    e.append(VALUE);
                    e.append(
                        "` column is a variable-length list; a time series' per-step shape is fixed, so this reads fixed-size lists only",
                    );
                    Err(e)
                },
                ValueEnd::Struct => {
                    let mut e = "the `".to_string();
                    e.append(VALUE);
                    e.append(
                        "` column is a struct; this reads the packed form composite element types are stored in, not a decoded one",
                    );
                    Err(e)
                },
                ValueEnd::Foreign { nulls, shown } => {
                    if *nulls {
                        return Err(nulls_refused());
                    }
                    let mut e = "the `".to_string();
                    e.append(VALUE);
                    e.append("` column is ");
                    e.append(shown.as_str());
                    e.append(", which is not one of the store's dtypes");
                    Err(e)
                },
                ValueEnd::Leaf { nulls, dtype, bytes } => {
                    if *nulls {
                        return Err(nulls_refused());
                    }
                    let mut shape: Vec<usize> = Vec::new();
                    shape.push(b.rows);
                    let mut rest = crate::partition::copy_sizes(&dims);
                    shape.append(&mut rest);
                    proof {
                        assert(shape@ =~= seq![b.rows] + dims@);
                    }
                    match TypedArray::new(*dtype, shape, bytes.clone()) {
                        Ok(array) => Ok((dims, array)),
                        Err(e) => Err(e),
                    }
                },
            }
        },
    }
}

// ---- What is read of a column -------------------------------------------------------------------

/// Whether a column is the first of its name.
pub open spec fn is_first(list: Seq<ReadColumn>, name: Seq<char>, c: int) -> bool {
    &&& 0 <= c < list.len()
    &&& list[c].name@ == name
    &&& forall|j: int| 0 <= j < c ==> (#[trigger] list[j]).name@ != name
}

/// A column is found by its name, and then the first of that name.
pub proof fn columns_are_found_by_name(list: Seq<ReadColumn>, name: Seq<char>)
    ensures
        match column_in(list, name) {
            Some(found) => exists|c: int| #[trigger] is_first(list, name, c) && list[c] == found,
            None => forall|c: int| 0 <= c < list.len() ==> (#[trigger] list[c]).name@ != name,
        },
    decreases list.len(),
{
    if list.len() > 0 {
        let rest = list.skip(1);
        if list[0].name@ == name {
            assert(is_first(list, name, 0));
        } else {
            columns_are_found_by_name(rest, name);
            match column_in(rest, name) {
                Some(found) => {
                    let c = choose|c: int| #[trigger] is_first(rest, name, c) && rest[c] == found;
                    assert(rest[c] == list[c + 1]);
                    assert forall|j: int| 0 <= j < c + 1 implies (#[trigger] list[j]).name@
                        != name by {
                        if j > 0 {
                            assert(rest[j - 1] == list[j]);
                        }
                    }
                    assert(is_first(list, name, c + 1));
                },
                None => {
                    assert forall|c: int| 0 <= c < list.len() implies (#[trigger] list[c]).name@
                        != name by {
                        if c > 0 {
                            assert(rest[c - 1] == list[c]);
                        }
                    }
                },
            }
        }
    }
}

/// A column of texts or of integers is read as it stands, row for row, and nothing is read of a
/// column that is not there; a column with nulls, or of another type, is refused.
pub proof fn plain_columns_are_read_as_they_stand(
    b: ReadBatch,
    name: &str,
    c: int,
    read: Result<Option<Vec<String>>, String>,
    ints: Result<Option<Vec<i64>>, String>,
)
    requires
        call_ensures(text_column, (&b, name), read),
        call_ensures(int_column, (&b, name), ints),
        is_first(b.columns@, name@, c),
    ensures
        b.columns@[c].nulls ==> read is Err && ints is Err,
        !b.columns@[c].nulls ==> match b.columns@[c].data {
            ReadData::Text(v) => ints is Err && (read matches Ok(Some(out)) && out@.len() == v@.len()
                && forall|k: int| 0 <= k < v@.len() ==> (#[trigger] out@[k])@ == v@[k]@),
            ReadData::Int64(v) => read is Err && (ints matches Ok(Some(out)) && out@ == v@),
            ReadData::Int32(v) => read is Err && (ints matches Ok(Some(out)) && out@.len()
                == v@.len() && forall|k: int| 0 <= k < v@.len() ==> #[trigger] out@[k] == v@[k]),
            _ => read is Err && ints is Err,
        },
{
    columns_are_found_by_name(b.columns@, name@);
    let d = choose|d: int| #[trigger]
        is_first(b.columns@, name@, d) && b.columns@[d] == b.column(name@)->0;
    if c < d {
        assert(b.columns@[c].name@ == name@);
    } else if d < c {
        assert(b.columns@[d].name@ == name@);
    }
    match b.columns@[c].data {
        ReadData::Text(v) => {
            if !b.columns@[c].nulls {
                assert(texts(read->Ok_0->0@) == texts(v@));
                assert forall|k: int| 0 <= k < v@.len() implies (
                #[trigger] read->Ok_0->0@[k])@ == v@[k]@ by {
                    assert(texts(read->Ok_0->0@)[k] == texts(v@)[k]);
                }
                assert(texts(read->Ok_0->0@).len() == texts(v@).len());
            }
        },
        _ => {},
    }
}

/// What is not in a file is not made up: a column that is absent reads as nothing, and an instant
/// column that is absent is refused.
pub proof fn absent_columns_read_as_nothing(
    b: ReadBatch,
    name: &str,
    read: Result<Option<Vec<String>>, String>,
    ints: Result<Option<Vec<i64>>, String>,
    stamps: Result<Vec<i64>, String>,
)
    requires
        call_ensures(text_column, (&b, name), read),
        call_ensures(int_column, (&b, name), ints),
        call_ensures(read_timestamps, (&b, name), stamps),
        forall|c: int| 0 <= c < b.columns@.len() ==> (#[trigger] b.columns@[c]).name@ != name@,
    ensures
        read == Ok::<Option<Vec<String>>, String>(None),
        ints == Ok::<Option<Vec<i64>>, String>(None),
        stamps is Err,
{
    columns_are_found_by_name(b.columns@, name@);
}

proof fn all_scaled(name: Seq<char>, unit: TimeUnit, values: Seq<i64>, n: int, k: int)
    requires
        first_unscaled(name, unit, values, n) is None,
        0 <= k < n <= values.len(),
    ensures
        in_millis(name, unit, values[k]) is Ok,
    decreases n,
{
    if k < n - 1 {
        all_scaled(name, unit, values, n - 1, k);
    }
}

/// An instant crosses into the store exactly or not at all: every instant that is read is, in the
/// unit of its column, the number that stands in the file, and it is on the calendar.
pub proof fn instants_are_read_exactly(
    b: ReadBatch,
    name: &str,
    c: int,
    stamps: Result<Vec<i64>, String>,
    k: int,
)
    requires
        call_ensures(read_timestamps, (&b, name), stamps),
        is_first(b.columns@, name@, c),
        stamps is Ok,
        0 <= k < stamps->Ok_0@.len(),
    ensures
        !b.columns@[c].nulls,
        b.columns@[c].data matches ReadData::Timestamp { unit, values, .. } && {
            &&& stamps->Ok_0@.len() == values@.len()
            &&& is_instant(stamps->Ok_0@[k] as int)
            &&& match unit {
                TimeUnit::Second => stamps->Ok_0@[k] == values@[k] * 1_000,
                TimeUnit::Millisecond => stamps->Ok_0@[k] == values@[k],
                TimeUnit::Microsecond => stamps->Ok_0@[k] * 1_000 == values@[k],
                TimeUnit::Nanosecond => stamps->Ok_0@[k] * 1_000_000 == values@[k],
            }
        },
{
    columns_are_found_by_name(b.columns@, name@);
    let d = choose|d: int| #[trigger]
        is_first(b.columns@, name@, d) && b.columns@[d] == b.column(name@)->0;
    if c < d {
        assert(b.columns@[c].name@ == name@);
    } else if d < c {
        assert(b.columns@[d].name@ == name@);
    }
    match b.columns@[c].data {
        ReadData::Timestamp { unit, values, .. } => {
            let millis = scaled(name@, unit, values@);
            all_scaled(name@, unit, values@, values@.len() as int, k);
            instants_cross_exactly(name@, unit, values@[k]);
            all_on_calendar(millis, millis.len() as int, k);
        },
        _ => {},
    }
}

proof fn all_on_calendar(millis: Seq<i64>, n: int, k: int)
    requires
        first_off_calendar(millis, n) is None,
        0 <= k < n <= millis.len(),
    ensures
        is_instant(millis[k] as int),
    decreases n,
{
    if k < n - 1 {
        all_on_calendar(millis, n - 1, k);
    }
}

/// The values of a batch are its bytes as they stand, one row for each row of the batch, with the
/// sizes of the lists around them; a null anywhere is refused.
pub proof fn values_are_read_as_they_stand(
    b: ReadBatch,
    r: Result<(Vec<usize>, TypedArray), String>,
)
    requires
        call_ensures(batch_values, (&b,), r),
        r is Ok,
    ensures
        b.value matches Some(column) && {
            &&& column.end matches ValueEnd::Leaf { nulls, dtype, bytes } && !nulls
                && r->Ok_0.1@.dtype == dtype && r->Ok_0.1@.bytes == bytes@
            &&& r->Ok_0.0@.len() == column.levels@.len()
            &&& forall|i: int|
                0 <= i < column.levels@.len() ==> !(#[trigger] column.levels@[i]).nulls
                    && column.levels@[i].size == r->Ok_0.0@[i]
        },
        r->Ok_0.1@.shape == seq![b.rows] + r->Ok_0.0@,
        r->Ok_0.1@.fits(),
{
    let levels = b.value->0.levels@;
    assert forall|i: int| 0 <= i < levels.len() implies !(#[trigger] levels[i]).nulls
        && levels[i].size == r->Ok_0.0@[i] by {
        no_fault_at(levels, levels.len() as int, i);
    }
}

proof fn no_fault_at(levels: Seq<ListLevel>, n: int, i: int)
    requires
        level_fault(levels, n) is None,
        0 <= i < n <= levels.len(),
    ensures
        !levels[i].nulls && levels[i].size >= 0,
    decreases n,
{
    if i < n - 1 {
        no_fault_at(levels, n - 1, i);
    }
}

/// The lanes of a batch are its percentiles where it has them, and otherwise its scenarios, row
/// for row.
pub proof fn lanes_are_read_as_they_stand(
    b: ReadBatch,
    c: int,
    r: Result<Option<Vec<LaneValue>>, String>,
)
    requires
        call_ensures(read_lanes, (&b,), r),
        r is Ok,
    ensures
        is_first(b.columns@, PERCENTILE@, c) ==> (b.columns@[c].data matches ReadData::Float64(v)
            && (r->Ok_0 matches Some(out) && out@.len() == v@.len() && forall|k: int|
            0 <= k < v@.len() ==> #[trigger] out@[k] == LaneValue::Percentile(v@[k]))),
        (forall|j: int|
            0 <= j < b.columns@.len() ==> (#[trigger] b.columns@[j]).name@ != PERCENTILE@)
            && is_first(b.columns@, SCENARIO@, c) && b.columns@[c].data is Int64 ==> (
        r->Ok_0 matches Some(out) && forall|k: int|
            0 <= k < out@.len() ==> #[trigger] out@[k] == LaneValue::Scenario(
                b.columns@[c].data->Int64_0@[k],
            )),
{
    columns_are_found_by_name(b.columns@, PERCENTILE@);
    columns_are_found_by_name(b.columns@, SCENARIO@);
    if is_first(b.columns@, PERCENTILE@, c) {
        let d = choose|d: int| #[trigger]
            is_first(b.columns@, PERCENTILE@, d) && b.columns@[d] == b.column(PERCENTILE@)->0;
        if c < d {
            assert(b.columns@[c].name@ == PERCENTILE@);
        } else if d < c {
            assert(b.columns@[d].name@ == PERCENTILE@);
        }
        assert(b.column(PERCENTILE@) == Some(b.columns@[c]));
    } else if is_first(b.columns@, SCENARIO@, c) {
        if b.column(SCENARIO@) is Some {
            let d = choose|d: int| #[trigger]
                is_first(b.columns@, SCENARIO@, d) && b.columns@[d] == b.column(SCENARIO@)->0;
            if c < d {
                assert(b.columns@[c].name@ == SCENARIO@);
            } else if d < c {
                assert(b.columns@[d].name@ == SCENARIO@);
            }
        } else {
            assert(b.columns@[c].name@ == SCENARIO@);
        }
    }
}

} // verus!
