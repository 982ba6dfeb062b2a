//! Reading a series file: its catalog rows, every row of one array key at a time.
use crate::batch::{
    int_column, ints_of_column, opt_ints, opt_texts, text_column, text_of_column, ReadBatch,
};
use crate::groups::{cell_text, reappeared, reappeared_text, text_at, KeySet};
use crate::schema;
use crate::table::{ArrayKey, ArrayKeyView, DATA_HASH, TIME_AXIS};
use std::collections::VecDeque;
use vstd::prelude::*;

verus! {

/// One catalog row of a series file.
///
/// Every text is the column's as written. The empty text is how an absent one is spelled.
#[derive(Debug)]
pub struct SeriesRow {
    pub key: ArrayKey,
    pub id: i64,
    pub owner_id: Option<i64>,
    pub owner_type: String,
    pub owner_category: String,
    pub time_series_type: String,
    pub name: String,
    pub resolution: String,
    pub interval: String,
    pub horizon: String,
    pub features: String,
    pub element_type: String,
    pub time_reference: String,
    pub units: String,
    pub quantity_kind: String,
    pub unit_system: String,
    pub component_field: String,
    pub application_data: String,
}

/// A [`SeriesRow`], with its texts as characters.
pub struct SeriesRowView {
    pub key: ArrayKeyView,
    pub id: i64,
    pub owner_id: Option<i64>,
    pub owner_type: Seq<char>,
    pub owner_category: Seq<char>,
    pub kind: Seq<char>,
    pub name: Seq<char>,
    pub resolution: Seq<char>,
    pub interval: Seq<char>,
    pub horizon: Seq<char>,
    pub features: Seq<char>,
    pub element_type: Seq<char>,
    pub time_reference: Seq<char>,
    pub units: Seq<char>,
    pub quantity_kind: Seq<char>,
    pub unit_system: Seq<char>,
    pub component_field: Seq<char>,
    pub application_data: Seq<char>,
}

impl View for SeriesRow {
    type V = SeriesRowView;

    open spec fn view(&self) -> SeriesRowView {
        SeriesRowView {
            key: self.key@,
            id: self.id,
            owner_id: self.owner_id,
            owner_type: self.owner_type@,
            owner_category: self.owner_category@,
            kind: self.time_series_type@,
            name: self.name@,
            resolution: self.resolution@,
            interval: self.interval@,
            horizon: self.horizon@,
            features: self.features@,
            element_type: self.element_type@,
            time_reference: self.time_reference@,
            units: self.units@,
            quantity_kind: self.quantity_kind@,
            unit_system: self.unit_system@,
            component_field: self.component_field@,
            application_data: self.application_data@,
        }
    }
}

/// The row a foreign file implies: nothing at all.
pub open spec fn bare_row(key: ArrayKeyView) -> SeriesRowView {
    SeriesRowView {
        key,
        id: 0,
        owner_id: None,
        owner_type: seq![],
        owner_category: seq![],
        kind: seq![],
        name: seq![],
        resolution: seq![],
        interval: seq![],
        horizon: seq![],
        features: seq![],
        element_type: seq![],
        time_reference: seq![],
        units: seq![],
        quantity_kind: seq![],
        unit_system: seq![],
        component_field: seq![],
        application_data: seq![],
    }
}

impl SeriesRow {
    /// The row a foreign file implies: nothing at all, so that every field falls through to the
    /// inline options and the inference rules.
    pub fn bare(key: ArrayKey) -> (r: SeriesRow)
        ensures
            r@ == bare_row(key@),
    {
        SeriesRow {
            key,
            id: 0,
            owner_id: None,
            owner_type: String::new(),
            owner_category: String::new(),
            time_series_type: String::new(),
            name: String::new(),
            resolution: String::new(),
            interval: String::new(),
            horizon: String::new(),
            features: String::new(),
            element_type: String::new(),
            time_reference: String::new(),
            units: String::new(),
            quantity_kind: String::new(),
            unit_system: String::new(),
            component_field: String::new(),
            application_data: String::new(),
        }
    }
}

// ---- One batch --------------------------------------------------------------------------------

pub open spec fn keyless_text(name: Seq<char>) -> Seq<char> {
    "the series file has no `"@ + name
        + "` column, which is half the array key every row is filed under"@
}

/// The texts of a column that a series file cannot be without.
pub open spec fn required_in(b: ReadBatch, name: Seq<char>) -> Result<Seq<Seq<char>>, Seq<char>> {
    match text_of_column(b, name) {
        Err(text) => Err(text),
        Ok(None) => Err(keyless_text(name)),
        Ok(Some(v)) => Ok(v),
    }
}

/// A text column that a series file cannot be without: half of the array key.
pub fn required_text(b: &ReadBatch, name: &str) -> (r: Result<Vec<String>, String>)
    ensures
        match (r, required_in(*b, name@)) {
            (Ok(v), Ok(expected)) => crate::text::texts(v@) == expected,
            (Err(e), Err(text)) => e@ == text,
            _ => false,
        },
        b.wf() && r is Ok ==> r->Ok_0@.len() == b.rows,
{
    match text_column(b, name) {
        Err(e) => Err(e),
        Ok(Some(v)) => Ok(v),
        Ok(None) => {
            let mut e = "the series file has no `".to_string();
            e.append(name);
            e.append("` column, which is half the array key every row is filed under");
            Err(e)
        },
    }
}

/// The text columns of a series file besides the array key, in the order they are read.
pub open spec fn read_names() -> Seq<Seq<char>> {
    seq![
        schema::OWNER_TYPE@,
        schema::OWNER_CATEGORY@,
        schema::TIME_SERIES_TYPE@,
        schema::NAME@,
        schema::RESOLUTION@,
        schema::INTERVAL@,
        schema::HORIZON@,
        schema::FEATURES@,
        schema::ELEMENT_TYPE@,
        schema::TIME_REFERENCE@,
        schema::UNITS@,
        schema::QUANTITY_KIND@,
        schema::UNIT_SYSTEM@,
        schema::COMPONENT_FIELD@,
        schema::APPLICATION_DATA@,
    ]
}

/// The first of some text columns, from the `i`-th on, that cannot be read.
pub open spec fn first_text_fault(b: ReadBatch, names: Seq<Seq<char>>, i: int) -> Option<Seq<char>>
    decreases names.len() - i,
{
    if i < 0 || i >= names.len() {
        None
    } else {
        match text_of_column(b, names[i]) {
            Err(text) => Some(text),
            Ok(_) => first_text_fault(b, names, i + 1),
        }
    }
}

/// What a column says in a row, empty where there is no such column.
pub open spec fn said_in(b: ReadBatch, name: Seq<char>, k: int) -> Seq<char> {
    cell_text(text_of_column(b, name)->Ok_0, k)
}

/// One row of a batch of a series file.
pub open spec fn row_in(b: ReadBatch, k: int) -> SeriesRowView {
    SeriesRowView {
        key: ArrayKeyView {
            data_hash: required_in(b, DATA_HASH@)->Ok_0[k],
            time_axis: required_in(b, TIME_AXIS@)->Ok_0[k],
        },
        id: match ints_of_column(b, schema::ID@)->Ok_0 {
            Some(v) => v[k],
            None => 0,
        },
        owner_id: match ints_of_column(b, schema::OWNER_ID@)->Ok_0 {
            Some(v) => Some(v[k]),
            None => None,
        },
        owner_type: said_in(b, schema::OWNER_TYPE@, k),
        owner_category: said_in(b, schema::OWNER_CATEGORY@, k),
        kind: said_in(b, schema::TIME_SERIES_TYPE@, k),
        name: said_in(b, schema::NAME@, k),
        resolution: said_in(b, schema::RESOLUTION@, k),
        interval: said_in(b, schema::INTERVAL@, k),
        horizon: said_in(b, schema::HORIZON@, k),
        features: said_in(b, schema::FEATURES@, k),
        element_type: said_in(b, schema::ELEMENT_TYPE@, k),
        time_reference: said_in(b, schema::TIME_REFERENCE@, k),
        units: said_in(b, schema::UNITS@, k),
        quantity_kind: said_in(b, schema::QUANTITY_KIND@, k),
        unit_system: said_in(b, schema::UNIT_SYSTEM@, k),
        component_field: said_in(b, schema::COMPONENT_FIELD@, k),
        application_data: said_in(b, schema::APPLICATION_DATA@, k),
    }
}

/// The catalog rows of a batch, or the first column that cannot be read.
pub open spec fn rows_in(b: ReadBatch) -> Result<Seq<SeriesRowView>, Seq<char>> {
    match (required_in(b, DATA_HASH@), required_in(b, TIME_AXIS@)) {
        (Err(text), _) => Err(text),
        (Ok(_), Err(text)) => Err(text),
        (Ok(_), Ok(_)) => match (
            ints_of_column(b, schema::ID@),
            ints_of_column(b, schema::OWNER_ID@),
        ) {
            (Err(text), _) => Err(text),
            (Ok(_), Err(text)) => Err(text),
            (Ok(_), Ok(_)) => match first_text_fault(b, read_names(), 0) {
                Some(text) => Err(text),
                None => Ok(Seq::new(b.rows as nat, |k: int| row_in(b, k))),
            },
        },
    }
}

/// The views of rows.
pub open spec fn row_views(list: Seq<SeriesRow>) -> Seq<SeriesRowView> {
    list.map_values(|r: SeriesRow| r@)
}

/// The text columns of a batch, in the order they are read.
fn text_columns(b: &ReadBatch) -> (r: Result<Vec<Option<Vec<String>>>, String>)
    requires
        b.wf(),
    ensures
        match (r, first_text_fault(*b, read_names(), 0)) {
            (Ok(list), None) => {
                &&& list@.len() == read_names().len()
                &&& forall|i: int|
                    0 <= i < list@.len() ==> {
                        &&& text_of_column(*b, read_names()[i]) == Ok::<_, Seq<char>>(
                            opt_texts(#[trigger] list@[i]),
                        )
                        &&& list@[i] is Some ==> list@[i]->0@.len() == b.rows
                    }
            },
            (Err(e), Some(text)) => e@ == text,
            _ => false,
        },
{
    let names: [&str; 15] = [
        schema::OWNER_TYPE,
        schema::OWNER_CATEGORY,
        schema::TIME_SERIES_TYPE,
        schema::NAME,
        schema::RESOLUTION,
        schema::INTERVAL,
        schema::HORIZON,
        schema::FEATURES,
        schema::ELEMENT_TYPE,
        schema::TIME_REFERENCE,
        schema::UNITS,
        schema::QUANTITY_KIND,
        schema::UNIT_SYSTEM,
        schema::COMPONENT_FIELD,
        schema::APPLICATION_DATA,
    ];
    let ghost wanted = read_names();
    let mut list: Vec<Option<Vec<String>>> = Vec::new();
    let mut i: usize = 0;
    while i < 15
        invariant
            i <= 15,
            b.wf(),
            wanted == read_names(),
            wanted.len() == 15,
            names@.len() == 15,
            forall|j: int| 0 <= j < 15 ==> (#[trigger] names@[j])@ == wanted[j],
            first_text_fault(*b, wanted, 0) == first_text_fault(*b, wanted, i as int),
            list@.len() == i,
            forall|j: int|
                0 <= j < list@.len() ==> {
                    &&& text_of_column(*b, wanted[j]) == Ok::<_, Seq<char>>(
                        opt_texts(#[trigger] list@[j]),
                    )
                    &&& list@[j] is Some ==> list@[j]->0@.len() == b.rows
                },
        decreases 15 - i,
    {
        let name = names[i];
        proof {
            assert(name@ == wanted[i as int]);
        }
        match text_column(b, name) {
            Ok(column) => {
                list.push(column);
            },
            Err(e) => {
                return Err(e);
            },
        }
        i += 1;
    }
    Ok(list)
}

/// One batch of a series file as catalog rows.
pub fn read_series_rows(b: &ReadBatch) -> (r: Result<Vec<SeriesRow>, String>)
    requires
        b.wf(),
    ensures
        match (r, rows_in(*b)) {
            (Ok(rows), Ok(expected)) => row_views(rows@) == expected,
            (Err(e), Err(text)) => e@ == text,
            _ => false,
        },
{
    let hashes = match required_text(b, DATA_HASH) {
        Ok(v) => v,
        Err(e) => {
            return Err(e);
        },
    };
    let axes = match required_text(b, TIME_AXIS) {
        Ok(v) => v,
        Err(e) => {
            return Err(e);
        },
    };
    let ids = match int_column(b, schema::ID) {
        Ok(v) => v,
        Err(e) => {
            return Err(e);
        },
    };
    let owners = match int_column(b, schema::OWNER_ID) {
        Ok(v) => v,
        Err(e) => {
            return Err(e);
        },
    };
    let columns = match text_columns(b) {
        Ok(v) => v,
        Err(e) => {
            return Err(e);
        },
    };
    let ghost wanted = read_names();
    let ghost expected = Seq::new(b.rows as nat, |k: int| row_in(*b, k));
    let mut out: Vec<SeriesRow> = Vec::new();
    let mut k: usize = 0;
    proof {
        assert(row_views(out@) =~= expected.take(0));
    }
    while k < b.rows
        invariant
            k <= b.rows,
            wanted == read_names(),
            required_in(*b, DATA_HASH@) == Ok::<_, Seq<char>>(crate::text::texts(hashes@)),
            required_in(*b, TIME_AXIS@) == Ok::<_, Seq<char>>(crate::text::texts(axes@)),
            hashes@.len() == b.rows,
            axes@.len() == b.rows,
            ints_of_column(*b, schema::ID@) == Ok::<_, Seq<char>>(opt_ints(ids)),
            ints_of_column(*b, schema::OWNER_ID@) == Ok::<_, Seq<char>>(opt_ints(owners)),
            ids is Some ==> ids->0@.len() == b.rows,
            owners is Some ==> owners->0@.len() == b.rows,
            columns@.len() == 15,
            forall|i: int|
                0 <= i < columns@.len() ==> {
                    &&& text_of_column(*b, wanted[i]) == Ok::<_, Seq<char>>(
                        opt_texts(#[trigger] columns@[i]),
                    )
                    &&& columns@[i] is Some ==> columns@[i]->0@.len() == b.rows
                },
            expected == Seq::new(b.rows as nat, |k: int| row_in(*b, k)),
            row_views(out@) == expected.take(k as int),
        decreases b.rows - k,
    {
        let row = SeriesRow {
            key: ArrayKey { data_hash: hashes[k].clone(), time_axis: axes[k].clone() },
            id: match &ids {
                Some(v) => v[k],
                None => 0,
            },
            owner_id: match &owners {
                Some(v) => Some(v[k]),
                None => None,
            },
            owner_type: text_at(&columns[0], k),
            owner_category: text_at(&columns[1], k),
            time_series_type: text_at(&columns[2], k),
            name: text_at(&columns[3], k),
            resolution: text_at(&columns[4], k),
            interval: text_at(&columns[5], k),
            horizon: text_at(&columns[6], k),
            features: text_at(&columns[7], k),
            element_type: text_at(&columns[8], k),
            time_reference: text_at(&columns[9], k),
            units: text_at(&columns[10], k),
            quantity_kind: text_at(&columns[11], k),
            unit_system: text_at(&columns[12], k),
            component_field: text_at(&columns[13], k),
            application_data: text_at(&columns[14], k),
        };
        proof {
            assert(crate::text::texts(hashes@)[k as int] == hashes@[k as int]@);
            assert(crate::text::texts(axes@)[k as int] == axes@[k as int]@);
            assert(row@ == row_in(*b, k as int));
        }
        let ghost was = out@;
        let ghost new = row@;
        out.push(row);
        proof {
            assert(row_views(out@) =~= row_views(was).push(new));
            assert(expected.take(k + 1) =~= expected.take(k as int).push(expected[k as int]));
        }
        k += 1;
    }
    proof {
        assert(expected.take(k as int) =~= expected);
    }
    Ok(out)
}

// ---- Rows of one key ----------------------------------------------------------------------------

/// What a reader holds: the keys whose rows are complete, the rows of the open one, and every
/// key that was opened.
pub struct SeriesView {
    pub ready: Seq<Seq<SeriesRowView>>,
    pub open: Seq<SeriesRowView>,
    pub opened: Seq<ArrayKeyView>,
}

/// A reader after one row more.
pub open spec fn read_row(s: SeriesView, row: SeriesRowView) -> Result<SeriesView, Seq<char>> {
    if s.open.len() > 0 && s.open[0].key == row.key {
        Ok(SeriesView { open: s.open.push(row), ..s })
    } else if s.opened.contains(row.key) {
        Err(reappeared_text(row.key, "series"@))
    } else {
        Ok(
            SeriesView {
                ready: if s.open.len() > 0 {
                    s.ready.push(s.open)
                } else {
                    s.ready
                },
                open: seq![row],
                opened: s.opened.push(row.key),
            },
        )
    }
}

/// A reader after the first `n` of some rows.
pub open spec fn read_rows(s: SeriesView, rows: Seq<SeriesRowView>, n: int) -> Result<
    SeriesView,
    Seq<char>,
>
    decreases n,
{
    if n <= 0 {
        Ok(s)
    } else {
        match read_rows(s, rows, n - 1) {
            Err(text) => Err(text),
            Ok(t) => read_row(t, rows[n - 1]),
        }
    }
}

proof fn row_fault_persists(s: SeriesView, rows: Seq<SeriesRowView>, n: int, m: int)
    requires
        0 <= n <= m,
        read_rows(s, rows, n) is Err,
    ensures
        read_rows(s, rows, m) == read_rows(s, rows, n),
    decreases m - n,
{
    if n < m {
        row_fault_persists(s, rows, n, m - 1);
    }
}

/// Reads a series file batch by batch, and hands out every row of one array key at a time.
pub struct SeriesReader {
    open: Vec<SeriesRow>,
    ready: VecDeque<Vec<SeriesRow>>,
    seen: KeySet,
    done: bool,
    opened: Ghost<Seq<ArrayKeyView>>,
}

/// The views of lists of rows.
pub open spec fn ready_views(list: Seq<Vec<SeriesRow>>) -> Seq<Seq<SeriesRowView>> {
    list.map_values(|v: Vec<SeriesRow>| row_views(v@))
}

impl View for SeriesReader {
    type V = SeriesView;

    closed spec fn view(&self) -> SeriesView {
        SeriesView {
            ready: ready_views(self.ready@),
            open: row_views(self.open@),
            opened: self.opened@,
        }
    }
}

/// What there is to do next.
#[derive(Debug)]
pub enum NextRows {
    /// The rows of one key are complete.
    Rows(Vec<SeriesRow>),
    /// The file has no further row.
    Finished,
    /// Another batch has to be read first.
    Batch,
}

impl SeriesReader {
    /// Whether the whole file was read.
    pub closed spec fn ended(self) -> bool {
        self.done
    }

    /// Whether the keys seen are those that were opened, and no key is without rows.
    pub closed spec fn wf(self) -> bool {
        &&& self.seen.wf()
        &&& forall|k: ArrayKeyView| #[trigger] self.seen.contains(k) <==> self.opened@.contains(k)
        &&& forall|i: int| 0 <= i < self.ready@.len() ==> (#[trigger] self.ready@[i])@.len() > 0
    }

    /// A reader that has read nothing.
    pub fn new() -> (r: SeriesReader)
        ensures
            r.wf(),
            !r.ended(),
            r@ == (SeriesView { ready: seq![], open: seq![], opened: seq![] }),
    {
        let r = SeriesReader {
            open: Vec::new(),
            ready: VecDeque::new(),
            seen: KeySet::new(),
            done: false,
            opened: Ghost(Seq::empty()),
        };
        proof {
            assert(r@.ready =~= seq![]);
            assert(r@.open =~= seq![]);
        }
        r
    }

    /// Says that the file has no further batch.
    pub fn end(&mut self)
        requires
            old(self).wf(),
        ensures
            final(self).wf(),
            final(self).ended(),
            final(self)@ == old(self)@,
    {
        self.done = true;
    }

    /// The next key's rows, if they are complete. There is always one.
    pub fn poll(&mut self) -> (r: NextRows)
        requires
            old(self).wf(),
        ensures
            final(self).wf(),
            final(self).ended() == old(self).ended(),
            final(self)@.opened == old(self)@.opened,
            match r {
                NextRows::Rows(rows) => {
                    &&& rows@.len() > 0
                    &&& if old(self)@.ready.len() > 0 {
                        &&& row_views(rows@) == old(self)@.ready[0]
                        &&& final(self)@.ready == old(self)@.ready.skip(1)
                        &&& final(self)@.open == old(self)@.open
                    } else {
                        &&& old(self).ended()
                        &&& row_views(rows@) == old(self)@.open
                        &&& final(self)@.open == Seq::<SeriesRowView>::empty()
                        &&& final(self)@.ready == old(self)@.ready
                    }
                },
                NextRows::Finished => {
                    &&& old(self)@.ready.len() == 0 && old(self).ended()
                    &&& old(self)@.open.len() == 0
                    &&& final(self)@ == old(self)@
                },
                NextRows::Batch => {
                    &&& old(self)@.ready.len() == 0 && !old(self).ended()
                    &&& final(self)@ == old(self)@
                },
            },
    {
        let ghost was = self.ready@;
        match self.ready.pop_front() {
            Some(rows) => {
                proof {
                    assert(self@.ready =~= old(self)@.ready.skip(1));
                    assert(was[0]@.len() > 0);
                    assert forall|i: int| 0 <= i < self.ready@.len() implies (
                    #[trigger] self.ready@[i])@.len() > 0 by {
                        assert(self.ready@[i] == was[i + 1]);
                    }
                }
                NextRows::Rows(rows)
            },
            None => {
                proof {
                    assert(self@.ready =~= old(self)@.ready);
                }
                if !self.done {
                    return NextRows::Batch;
                }
                if self.open.len() == 0 {
                    return NextRows::Finished;
                }
                let mut rows: Vec<SeriesRow> = Vec::new();
                core::mem::swap(&mut self.open, &mut rows);
                proof {
                    assert(self@.open =~= seq![]);
                }
                NextRows::Rows(rows)
            },
        }
    }

    fn take_row(&mut self, row: SeriesRow) -> (r: Result<(), String>)
        requires
            old(self).wf(),
        ensures
            match (r, read_row(old(self)@, row@)) {
                (Ok(_), Ok(expected)) => final(self).wf() && final(self)@ == expected
                    && final(self).ended() == old(self).ended(),
                (Err(e), Err(text)) => e@ == text,
                _ => false,
            },
    {
        let ghost start = self@;
        let ghost new = row@;
        let same = self.open.len() > 0 && self.open[0].key.same(&row.key);
        proof {
            assert(start.open.len() == self.open@.len());
            if self.open@.len() > 0 {
                assert(start.open[0] == self.open@[0]@);
            }
        }
        if !same {
            if !self.seen.insert(&row.key) {
                return Err(reappeared(&row.key, "series"));
            }
            if self.open.len() > 0 {
                let mut rows: Vec<SeriesRow> = Vec::new();
                core::mem::swap(&mut self.open, &mut rows);
                let ghost was = self.ready@;
                self.ready.push_back(rows);
                proof {
                    assert(ready_views(self.ready@) =~= ready_views(was).push(row_views(rows@)));
                }
            }
            let ghost opened_before = self.opened@;
            self.opened = Ghost(opened_before.push(new.key));
            proof {
                assert forall|k: ArrayKeyView| #[trigger] self.seen.contains(k)
                    <==> self.opened@.contains(k) by {
                    if opened_before.contains(k) {
                        let i = choose|i: int|
                            0 <= i < opened_before.len() && opened_before[i] == k;
                        assert(self.opened@[i] == k);
                    }
                    if k == new.key {
                        assert(self.opened@[opened_before.len() as int] == k);
                    }
                    if self.opened@.contains(k) {
                        let i = choose|i: int| 0 <= i < self.opened@.len() && self.opened@[i] == k;
                        if i < opened_before.len() {
                            assert(opened_before[i] == k);
                        }
                    }
                }
            }
        }
        let ghost before = self.open@;
        self.open.push(row);
        proof {
            assert(row_views(self.open@) =~= row_views(before).push(new));
            if !same {
                assert(row_views(before).push(new) =~= seq![new]);
            }
        }
        Ok(())
    }

    /// Takes one batch up.
    pub fn push_batch(&mut self, b: &ReadBatch) -> (r: Result<(), String>)
        requires
            old(self).wf(),
            b.wf(),
        ensures
            match (r, rows_in(*b)) {
                (Err(e), Err(text)) => e@ == text,
                (Err(e), Ok(rows)) => read_rows(old(self)@, rows, rows.len() as int) matches Err(
                    text,
                ) && e@ == text,
                (Ok(_), Ok(rows)) => final(self).wf() && read_rows(
                    old(self)@,
                    rows,
                    rows.len() as int,
                ) == Ok::<_, Seq<char>>(final(self)@) && final(self).ended() == old(self).ended(),
                (Ok(_), Err(_)) => false,
            },
    {
        let rows = match read_series_rows(b) {
            Ok(rows) => rows,
            Err(e) => {
                return Err(e);
            },
        };
        let ghost all = row_views(rows@);
        let ghost start = self@;
        for row in it: rows
            invariant
                it.seq().map_values(|r: SeriesRow| r@) == all,
                self.wf(),
                self.ended() == old(self).ended(),
                start == old(self)@,
                rows_in(*b) == Ok::<_, Seq<char>>(all),
                read_rows(start, all, it.index() as int) == Ok::<_, Seq<char>>(self@),
        {
            let ghost n = it.index() as int;
            proof {
                assert(row@ == all[n]);
            }
            match self.take_row(row) {
                Ok(_) => {},
                Err(e) => {
                    proof {
                        row_fault_persists(start, all, n + 1, all.len() as int);
                    }
                    return Err(e);
                },
            }
        }
        Ok(())
    }
}

// ---- What a row says ------------------------------------------------------------------------

/// Whether a text is what a column says in one row, or nothing where there is no such column.
pub open spec fn column_says(b: ReadBatch, name: &str, k: int, text: Seq<char>) -> bool {
    forall|column: Result<Option<Vec<String>>, String>| #[trigger]
        call_ensures(text_column, (&b, name), column) ==> match column {
            Ok(Some(v)) => text == v@[k]@,
            Ok(None) => text.len() == 0,
            Err(_) => false,
        }
}

/// A row of a series file has each of its fields from the column of that name, in its own row,
/// and nothing in those whose column is not there.
pub proof fn rows_are_read_by_their_names(
    b: ReadBatch,
    k: int,
    r: Result<Vec<SeriesRow>, String>,
    ids: Result<Option<Vec<i64>>, String>,
    owners: Result<Option<Vec<i64>>, String>,
)
    requires
        b.wf(),
        call_ensures(read_series_rows, (&b,), r),
        call_ensures(int_column, (&b, schema::ID), ids),
        call_ensures(int_column, (&b, schema::OWNER_ID), owners),
        r is Ok,
        0 <= k < b.rows,
    ensures
        r->Ok_0@.len() == b.rows,
        ({
            let row = r->Ok_0@[k];
            &&& match ids {
                Ok(Some(v)) => row.id == v@[k],
                Ok(None) => row.id == 0,
                Err(_) => false,
            }
            &&& match owners {
                Ok(Some(v)) => row.owner_id == Some(v@[k]),
                Ok(None) => row.owner_id is None,
                Err(_) => false,
            }
            &&& column_says(b, DATA_HASH, k, row.key.data_hash@)
            &&& column_says(b, TIME_AXIS, k, row.key.time_axis@)
            &&& column_says(b, schema::OWNER_TYPE, k, row.owner_type@)
            &&& column_says(b, schema::OWNER_CATEGORY, k, row.owner_category@)
            &&& column_says(b, schema::TIME_SERIES_TYPE, k, row.time_series_type@)
            &&& column_says(b, schema::NAME, k, row.name@)
            &&& column_says(b, schema::RESOLUTION, k, row.resolution@)
            &&& column_says(b, schema::INTERVAL, k, row.interval@)
            &&& column_says(b, schema::HORIZON, k, row.horizon@)
            &&& column_says(b, schema::FEATURES, k, row.features@)
            &&& column_says(b, schema::ELEMENT_TYPE, k, row.element_type@)
            &&& column_says(b, schema::TIME_REFERENCE, k, row.time_reference@)
            &&& column_says(b, schema::UNITS, k, row.units@)
            &&& column_says(b, schema::QUANTITY_KIND, k, row.quantity_kind@)
            &&& column_says(b, schema::UNIT_SYSTEM, k, row.unit_system@)
            &&& column_says(b, schema::COMPONENT_FIELD, k, row.component_field@)
            &&& column_says(b, schema::APPLICATION_DATA, k, row.application_data@)
        }),
{
    let rows = r->Ok_0@;
    assert(row_views(rows).len() == rows.len());
    assert(row_views(rows)[k] == rows[k]@);
    assert(rows[k]@ == row_in(b, k));
    let names = read_names();
    no_text_fault(b, names, 0);
    assert(names[0] == schema::OWNER_TYPE@);
    assert(names[1] == schema::OWNER_CATEGORY@);
    assert(names[2] == schema::TIME_SERIES_TYPE@);
    assert(names[3] == schema::NAME@);
    assert(names[4] == schema::RESOLUTION@);
    assert(names[5] == schema::INTERVAL@);
    assert(names[6] == schema::HORIZON@);
    assert(names[7] == schema::FEATURES@);
    assert(names[8] == schema::ELEMENT_TYPE@);
    assert(names[9] == schema::TIME_REFERENCE@);
    assert(names[10] == schema::UNITS@);
    assert(names[11] == schema::QUANTITY_KIND@);
    assert(names[12] == schema::UNIT_SYSTEM@);
    assert(names[13] == schema::COMPONENT_FIELD@);
    assert(names[14] == schema::APPLICATION_DATA@);
    assert(column_says(b, DATA_HASH, k, rows[k].key.data_hash@)) by {
        assert(required_in(b, DATA_HASH@) is Ok);
    }
    assert(column_says(b, TIME_AXIS, k, rows[k].key.time_axis@)) by {
        assert(required_in(b, TIME_AXIS@) is Ok);
    }
}

proof fn no_text_fault(b: ReadBatch, names: Seq<Seq<char>>, i: int)
    requires
        0 <= i,
        first_text_fault(b, names, i) is None,
    ensures
        forall|j: int| i <= j < names.len() ==> text_of_column(b, #[trigger] names[j]) is Ok,
    decreases names.len() - i,
{
    if i < names.len() {
        no_text_fault(b, names, i + 1);
    }
}

/// A row joins the rows of its own key, behind them, or opens them if it is the first; what it
/// closes waits behind what was closed before. It is refused exactly where its key was left
/// before.
pub proof fn rows_join_those_of_their_key(s: SeriesView, row: SeriesRowView)
    ensures
        ({
            let joins = s.open.len() > 0 && s.open[0].key == row.key;
            match read_row(s, row) {
                Err(_) => !joins && s.opened.contains(row.key),
                Ok(t) => {
                    &&& t.open.len() > 0
                    &&& t.open.last() == row
                    &&& joins ==> t.ready == s.ready && t.open.drop_last() == s.open && t.opened
                        == s.opened
                    &&& !joins ==> !s.opened.contains(row.key) && t.open == seq![row] && t.opened
                        == s.opened + seq![row.key] && t.ready == s.ready + (if s.open.len() > 0 {
                        seq![s.open]
                    } else {
                        seq![]
                    })
                },
            }
        }),
{
    if s.open.len() > 0 && s.open[0].key == row.key {
        assert(s.open.push(row).drop_last() =~= s.open);
    }
}

} // verus!
