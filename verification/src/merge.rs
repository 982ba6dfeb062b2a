//! The merge join of a partition's two files.
//!
//! Either dangling side is an error. A series row whose key names no array has no values to
//! read; an array that no series row claims is one nothing would file. Both mean that the
//! halves came from different exports, or that one was truncated.
use crate::batch::ReadBatch;
use crate::groups::{
    read_batch, solid, unbacked, unbacked_text, unclaimed, unclaimed_text, GroupView, NextValues,
    ReaderView, ValuesGroup, ValuesReader,
};
use crate::series_reader::{
    read_rows, row_views, rows_in, NextRows, SeriesReader, SeriesRow, SeriesRowView, SeriesView,
};
use crate::table::{key_before, ArrayKey, ArrayKeyView};
use vstd::prelude::*;

verus! {

/// What the next array and the next rows come to: whether there are rows to file, nothing when
/// both files are at their end, or which of the two is left over.
pub open spec fn joined_step(group: Option<ArrayKeyView>, rows: Option<ArrayKeyView>) -> Result<
    bool,
    Seq<char>,
> {
    match (group, rows) {
        (None, None) => Ok(false),
        (Some(g), None) => Err(unclaimed_text(g)),
        (None, Some(r)) => Err(unbacked_text(r)),
        (Some(g), Some(r)) => if g == r {
            Ok(true)
        } else if key_before(g, r) {
            Err(unclaimed_text(g))
        } else {
            Err(unbacked_text(r))
        },
    }
}

/// Whether the next array and the next rows belong together: `true` when the rows are to be
/// filed with the array, `false` when both files are at their end.
pub fn pair_up(group: Option<&ArrayKey>, rows: Option<&ArrayKey>) -> (r: Result<bool, String>)
    ensures
        match (
            r,
            joined_step(
                match group {
                    Some(k) => Some(k@),
                    None => None,
                },
                match rows {
                    Some(k) => Some(k@),
                    None => None,
                },
            ),
        ) {
            (Ok(more), Ok(expected)) => more == expected,
            (Err(e), Err(text)) => e@ == text,
            _ => false,
        },
{
    match (group, rows) {
        (None, None) => Ok(false),
        (Some(g), None) => Err(unclaimed(g)),
        (None, Some(r)) => Err(unbacked(r)),
        (Some(g), Some(r)) => {
            if g.same(r) {
                Ok(true)
            } else if g.less(r) {
                Err(unclaimed(g))
            } else {
                Err(unbacked(r))
            }
        },
    }
}

/// The `i`-th key of a file, if it has as many.
pub open spec fn key_at(keys: Seq<ArrayKeyView>, i: int) -> Option<ArrayKeyView> {
    if 0 <= i < keys.len() {
        Some(keys[i])
    } else {
        None
    }
}

/// What walking two files together from their `i`-th keys on comes to: how many arrays were
/// filed, or what was left over.
pub open spec fn joined_from(values: Seq<ArrayKeyView>, series: Seq<ArrayKeyView>, i: int) -> Result<
    int,
    Seq<char>,
>
    decreases values.len() + series.len() - i,
{
    if i < 0 || i > values.len() + series.len() {
        Ok(i)
    } else {
        match joined_step(key_at(values, i), key_at(series, i)) {
            Err(text) => Err(text),
            Ok(more) => if more {
                joined_from(values, series, i + 1)
            } else {
                Ok(i)
            },
        }
    }
}

/// Two files join exactly when they hold the same arrays in the same order, and then every
/// array is filed.
pub proof fn halves_join_iff_they_hold_the_same_arrays(
    values: Seq<ArrayKeyView>,
    series: Seq<ArrayKeyView>,
)
    ensures
        joined_from(values, series, 0) is Ok <==> values == series,
        values == series ==> joined_from(values, series, 0) == Ok::<_, Seq<char>>(
            values.len() as int,
        ),
{
    joins_from(values, series, 0);
}

proof fn joins_from(values: Seq<ArrayKeyView>, series: Seq<ArrayKeyView>, i: int)
    requires
        0 <= i <= values.len(),
        i <= series.len(),
        forall|j: int| 0 <= j < i ==> #[trigger] values[j] == series[j],
    ensures
        joined_from(values, series, i) is Ok <==> values == series,
        values == series ==> joined_from(values, series, i) == Ok::<_, Seq<char>>(
            values.len() as int,
        ),
    decreases values.len() + series.len() - i,
{
    if i < values.len() && i < series.len() {
        if values[i] == series[i] {
            joins_from(values, series, i + 1);
        }
    } else if i >= values.len() && i >= series.len() {
        assert(values =~= series);
    }
}

// ---- Walking both files ---------------------------------------------------------------------

/// What is known of the next array, or of the next rows.
#[derive(Debug)]
pub enum Held<T> {
    /// The file has to be asked.
    Unasked,
    /// The file is at its end.
    Ended,
    Here(T),
}

/// A walk through the two files of a partition.
pub struct Join {
    values: ValuesReader,
    series: SeriesReader,
    group: Held<ValuesGroup>,
    rows: Held<Vec<SeriesRow>>,
}

/// What is to be done next.
#[derive(Debug)]
pub enum Step {
    /// A batch of the values file has to be read.
    ReadValues,
    /// A batch of the series file has to be read.
    ReadSeries,
    /// Every one of these rows is to be filed with this array.
    File(ValuesGroup, Vec<SeriesRow>),
    /// Both files were read whole.
    Done,
}

/// A [`Step`], as views.
pub enum StepView {
    ReadValues,
    ReadSeries,
    File(GroupView, Seq<SeriesRowView>),
    Done,
}

impl View for Step {
    type V = StepView;

    open spec fn view(&self) -> StepView {
        match *self {
            Step::ReadValues => StepView::ReadValues,
            Step::ReadSeries => StepView::ReadSeries,
            Step::File(group, rows) => StepView::File(group@, row_views(rows@)),
            Step::Done => StepView::Done,
        }
    }
}

/// A [`Join`], as views.
pub struct JoinView {
    pub values: ReaderView,
    pub values_ended: bool,
    pub series: SeriesView,
    pub series_ended: bool,
    pub group: Held<GroupView>,
    pub rows: Held<Seq<SeriesRowView>>,
}

impl View for Join {
    type V = JoinView;

    closed spec fn view(&self) -> JoinView {
        JoinView {
            values: self.values@,
            values_ended: self.values.ended(),
            series: self.series@,
            series_ended: self.series.ended(),
            group: match self.group {
                Held::Unasked => Held::Unasked,
                Held::Ended => Held::Ended,
                Held::Here(g) => Held::Here(g@),
            },
            rows: match self.rows {
                Held::Unasked => Held::Unasked,
                Held::Ended => Held::Ended,
                Held::Here(r) => Held::Here(row_views(r@)),
            },
        }
    }
}

/// A walk that has asked the values file for its next array, where it had not.
pub open spec fn asked_values(s: JoinView) -> JoinView {
    if !(s.group is Unasked) {
        s
    } else if s.values.ready.len() > 0 {
        JoinView {
            group: Held::Here(s.values.ready[0]),
            values: ReaderView { ready: s.values.ready.skip(1), ..s.values },
            ..s
        }
    } else if !s.values_ended {
        s
    } else {
        match s.values.open {
            Some(g) => JoinView {
                group: Held::Here(g),
                values: ReaderView { open: None, ..s.values },
                ..s
            },
            None => JoinView { group: Held::Ended, ..s },
        }
    }
}

/// A walk that has asked the series file for its next rows, where it had not.
pub open spec fn asked_series(s: JoinView) -> JoinView {
    if !(s.rows is Unasked) {
        s
    } else if s.series.ready.len() > 0 {
        JoinView {
            rows: Held::Here(s.series.ready[0]),
            series: SeriesView { ready: s.series.ready.skip(1), ..s.series },
            ..s
        }
    } else if !s.series_ended {
        s
    } else if s.series.open.len() > 0 {
        JoinView {
            rows: Held::Here(s.series.open),
            series: SeriesView { open: seq![], ..s.series },
            ..s
        }
    } else {
        JoinView { rows: Held::Ended, ..s }
    }
}

/// The key of the next array, if there is one.
pub open spec fn group_key(group: Held<GroupView>) -> Option<ArrayKeyView> {
    match group {
        Held::Here(g) => Some(g.key),
        _ => None,
    }
}

/// The key of the next rows, if there are any.
pub open spec fn rows_key(rows: Held<Seq<SeriesRowView>>) -> Option<ArrayKeyView> {
    match rows {
        Held::Here(r) => Some(r[0].key),
        _ => None,
    }
}

/// What a walk does next, and what it is then.
pub open spec fn next_step(s: JoinView) -> Result<(StepView, JoinView), Seq<char>> {
    let a = asked_values(s);
    if a.group is Unasked {
        Ok((StepView::ReadValues, a))
    } else {
        let b = asked_series(a);
        if b.rows is Unasked {
            Ok((StepView::ReadSeries, b))
        } else {
            match joined_step(group_key(b.group), rows_key(b.rows)) {
                Err(text) => Err(text),
                Ok(more) => if more {
                    Ok(
                        (
                            StepView::File(b.group->Here_0, b.rows->Here_0),
                            JoinView { group: Held::Unasked, rows: Held::Unasked, ..b },
                        ),
                    )
                } else {
                    Ok((StepView::Done, b))
                },
            }
        }
    }
}

impl Join {
    /// Whether the readers are sound, and no key is without rows.
    pub closed spec fn wf(self) -> bool {
        &&& self.values.wf()
        &&& self.series.wf()
        &&& self.group matches Held::Here(g) ==> g@.wf()
        &&& self.rows matches Held::Here(r) ==> r@.len() > 0
    }

    /// A walk that has read nothing.
    pub fn new() -> (r: Join)
        ensures
            r.wf(),
            r@ == (JoinView {
                values: ReaderView { ready: seq![], open: None, opened: seq![], zone: None },
                values_ended: false,
                series: SeriesView { ready: seq![], open: seq![], opened: seq![] },
                series_ended: false,
                group: Held::Unasked,
                rows: Held::Unasked,
            }),
    {
        Join {
            values: ValuesReader::new(),
            series: SeriesReader::new(),
            group: Held::Unasked,
            rows: Held::Unasked,
        }
    }

    /// Takes up a batch of the values file; none where the file has no further one.
    pub fn push_values(&mut self, batch: Option<&ReadBatch>) -> (r: Result<(), String>)
        requires
            old(self).wf(),
            batch matches Some(b) ==> b.wf() && solid(*b),
        ensures
            match batch {
                None => {
                    &&& r is Ok
                    &&& final(self).wf()
                    &&& final(self)@ == (JoinView { values_ended: true, ..old(self)@ })
                },
                Some(b) => match (r, read_batch(old(self)@.values, *b)) {
                    (Ok(_), Ok(values)) => final(self).wf() && final(self)@ == (JoinView {
                        values,
                        ..old(self)@
                    }),
                    (Err(e), Err(text)) => e@ == text,
                    _ => false,
                },
            },
    {
        match batch {
            None => {
                self.values.end();
                Ok(())
            },
            Some(b) => self.values.push_batch(b),
        }
    }

    /// Takes up a batch of the series file; none where the file has no further one.
    pub fn push_series(&mut self, batch: Option<&ReadBatch>) -> (r: Result<(), String>)
        requires
            old(self).wf(),
            batch matches Some(b) ==> b.wf(),
        ensures
            match batch {
                None => {
                    &&& r is Ok
                    &&& final(self).wf()
                    &&& final(self)@ == (JoinView { series_ended: true, ..old(self)@ })
                },
                Some(b) => match (r, rows_in(*b)) {
                    (Err(e), Err(text)) => e@ == text,
                    (Err(e), Ok(rows)) => read_rows(
                        old(self)@.series,
                        rows,
                        rows.len() as int,
                    ) matches Err(text) && e@ == text,
                    (Ok(_), Ok(rows)) => final(self).wf() && (read_rows(
                        old(self)@.series,
                        rows,
                        rows.len() as int,
                    ) matches Ok(series) && final(self)@ == (JoinView { series, ..old(self)@ })),
                    (Ok(_), Err(_)) => false,
                },
            },
    {
        match batch {
            None => {
                self.series.end();
                Ok(())
            },
            Some(b) => self.series.push_batch(b),
        }
    }

    /// What is to be done next: read on, file some rows, or stop.
    pub fn step(&mut self) -> (r: Result<Step, String>)
        requires
            old(self).wf(),
        ensures
            match (r, next_step(old(self)@)) {
                (Ok(step), Ok((expected, after))) => {
                    &&& final(self).wf()
                    &&& step@ == expected
                    &&& final(self)@ == after
                    &&& step matches Step::File(group, rows) ==> group@.wf() && rows@.len() > 0
                },
                (Err(e), Err(text)) => e@ == text,
                _ => false,
            },
    {
        let ghost start = self@;
        if let Held::Unasked = &self.group {
            match self.values.poll() {
                NextValues::Group(g) => {
                    self.group = Held::Here(g);
                },
                NextValues::Finished => {
                    self.group = Held::Ended;
                },
                NextValues::Batch => {
                    return Ok(Step::ReadValues);
                },
            }
        }
        let ghost asked = self@;
        proof {
            assert(asked == asked_values(start));
        }
        if let Held::Unasked = &self.rows {
            match self.series.poll() {
                NextRows::Rows(rows) => {
                    self.rows = Held::Here(rows);
                },
                NextRows::Finished => {
                    self.rows = Held::Ended;
                },
                NextRows::Batch => {
                    return Ok(Step::ReadSeries);
                },
            }
        }
        let ghost both = self@;
        proof {
            assert(both == asked_series(asked));
        }
        let more = match pair_up(
            match &self.group {
                Held::Here(g) => Some(&g.key),
                _ => None,
            },
            match &self.rows {
                Held::Here(rows) => Some(&rows[0].key),
                _ => None,
            },
        ) {
            Ok(more) => more,
            Err(e) => {
                return Err(e);
            },
        };
        if !more {
            return Ok(Step::Done);
        }
        let mut group: Held<ValuesGroup> = Held::Unasked;
        let mut rows: Held<Vec<SeriesRow>> = Held::Unasked;
        core::mem::swap(&mut self.group, &mut group);
        core::mem::swap(&mut self.rows, &mut rows);
        match (group, rows) {
            (Held::Here(g), Held::Here(r)) => Ok(Step::File(g, r)),
            _ => {
                proof {
                    assert(false);
                }
                Ok(Step::Done)
            },
        }
    }
}

/// Two halves go on exactly where both are at the same array, end exactly where both have ended,
/// and are refused in every other case: an array that only one of them has is never skipped.
pub proof fn halves_go_on_together(
    group: Option<&ArrayKey>,
    rows: Option<&ArrayKey>,
    r: Result<bool, String>,
)
    requires
        call_ensures(pair_up, (group, rows), r),
    ensures
        r == Ok::<_, String>(true) <==> group is Some && rows is Some && group->0@ == rows->0@,
        r == Ok::<_, String>(false) <==> group is None && rows is None,
{
}

/// The arrays a walk has still to hand out, as far as they are read.
pub open spec fn groups_left(s: JoinView) -> Seq<GroupView> {
    (match s.group {
        Held::Here(g) => seq![g],
        _ => seq![],
    }) + s.values.groups()
}

/// The rows of arrays a walk has still to hand out, as far as they are read.
pub open spec fn rows_left(s: JoinView) -> Seq<Seq<SeriesRowView>> {
    (match s.rows {
        Held::Here(r) => seq![r],
        _ => seq![],
    }) + s.series.ready + (if s.series.open.len() > 0 {
        seq![s.series.open]
    } else {
        seq![]
    })
}

/// A walk hands out the arrays in the order they were read, each once and with the rows of its
/// own key, and loses none. It asks for more of a file only while that file has more, and is done
/// only when both are at their end with nothing left of either.
pub proof fn walks_lose_nothing(s: JoinView)
    requires
        s.group is Ended ==> s.values_ended && s.values.groups().len() == 0,
        s.rows is Ended ==> s.series_ended && s.series.ready.len() == 0 && s.series.open.len() == 0,
    ensures
        match next_step(s) {
            Err(_) => groups_left(s).len() > 0 || rows_left(s).len() > 0,
            Ok((StepView::File(g, rows), t)) => {
                &&& g.key == rows[0].key
                &&& groups_left(s) == seq![g] + groups_left(t)
                &&& rows_left(s) == seq![rows] + rows_left(t)
                &&& t.group is Unasked && t.rows is Unasked
            },
            Ok((StepView::ReadValues, t)) => {
                &&& !s.values_ended
                &&& groups_left(t) == groups_left(s)
                &&& rows_left(t) == rows_left(s)
            },
            Ok((StepView::ReadSeries, t)) => {
                &&& !s.series_ended
                &&& groups_left(t) == groups_left(s)
                &&& rows_left(t) == rows_left(s)
            },
            Ok((StepView::Done, _)) => {
                &&& s.values_ended && s.series_ended
                &&& groups_left(s).len() == 0
                &&& rows_left(s).len() == 0
            },
        },
{
    let a = asked_values(s);
    let b = asked_series(a);
    if s.group is Unasked && s.values.ready.len() > 0 {
        assert(seq![s.values.ready[0]] + s.values.ready.skip(1) =~= s.values.ready);
    }
    if s.rows is Unasked && s.series.ready.len() > 0 {
        assert(seq![s.series.ready[0]] + s.series.ready.skip(1) =~= s.series.ready);
    }
    assert(groups_left(a) =~= groups_left(s));
    assert(rows_left(b) =~= rows_left(s));
    if b.group is Here && b.rows is Here {
        let t = JoinView { group: Held::Unasked, rows: Held::Unasked, ..b };
        assert(groups_left(b) =~= seq![b.group->Here_0] + groups_left(t));
        assert(rows_left(b) =~= seq![b.rows->Here_0] + rows_left(t));
    }
}

/// Where the halves do not hold the same arrays, the earlier key is the one at fault: an array of
/// the values that no series names, or one that a series names and the values do not hold.
pub proof fn the_earlier_key_is_at_fault(
    group: Option<&ArrayKey>,
    rows: Option<&ArrayKey>,
    r: Result<bool, String>,
)
    requires
        call_ensures(pair_up, (group, rows), r),
        r is Err,
    ensures
        rows is None || (group is Some && key_before(group->0@, rows->0@)) ==> r->Err_0@
            == unclaimed_text(group->0@),
        group is None || (rows is Some && key_before(rows->0@, group->0@)) ==> r->Err_0@
            == unbacked_text(rows->0@),
{
    if group is Some && rows is Some {
        crate::table::key_order(group->0@, rows->0@, group->0@);
    }
}

} // verus!
