//! The rows of a partition's two files: from the plan of a partition and its series to the
//! tables that are written, one after the other.
use crate::array::product;
use crate::columns::{holds_table, ColumnData};
use crate::plan::{
    all_wf, arrays, every_series_reads_one_array, grouped, stands_before, ArrayGroupView,
    PartitionPlan, Selected, WrittenPartition,
};
use crate::rows::rows_of;
use crate::series::AxisView;
use crate::series_file::{
    no_anchor_text, series_cells, series_line, SeriesFileBuilder, SeriesLine,
};
use crate::table::{
    gridded, literal_of, reference_literal, series_columns, zone_of, PartitionSchema,
    ROW_GROUP_TARGET,
};
use crate::values::{
    array_lines, cells_of, group_bound, group_count, holds_groups, misfit_text, rows_match,
    value_schema, write_fault, Line, ValuesBuffer, WrittenArray,
};
use vstd::prelude::*;

verus! {

/// Whether every array of a partition has a series, and every series of one is among the
/// selected.
pub open spec fn members_in(list: Seq<ArrayGroupView>, series: Seq<Selected>) -> bool {
    &&& forall|a: int| 0 <= a < list.len() ==> (#[trigger] list[a]).members.len() > 0
    &&& forall|a: int, i: int|
        0 <= a < list.len() && 0 <= i < list[a].members.len() ==> (#[trigger] list[a].members[i])
            < series.len()
}

// ---- The series file ------------------------------------------------------------------------

/// The row of one series of an array.
pub open spec fn member_line(g: ArrayGroupView, series: Seq<Selected>, i: int) -> SeriesLine {
    let s = series[g.members[i] as int];
    series_line(g.key, s.row@, s.data@.axis)
}

/// The rows of the first `n` series of an array.
pub open spec fn member_lines(g: ArrayGroupView, series: Seq<Selected>, n: int) -> Seq<
    SeriesLine,
> {
    Seq::new(n as nat, |i: int| member_line(g, series, i))
}

/// The rows of the series of the first `n` arrays, array by array.
pub open spec fn series_lines(list: Seq<ArrayGroupView>, series: Seq<Selected>, n: int) -> Seq<
    SeriesLine,
>
    decreases n,
{
    if n <= 0 {
        seq![]
    } else {
        series_lines(list, series, n - 1) + member_lines(
            list[n - 1],
            series,
            list[n - 1].members.len() as int,
        )
    }
}

/// Whether a row is the first of a file that has no anchor.
pub open spec fn first_without_anchor(lines: Seq<SeriesLine>, k: int) -> bool {
    &&& 0 <= k < lines.len()
    &&& lines[k].initial is None
    &&& forall|j: int| 0 <= j < k ==> (#[trigger] lines[j]).initial is Some
}

proof fn lines_extend(list: Seq<ArrayGroupView>, series: Seq<Selected>, n: int, m: int)
    requires
        0 <= n <= m,
    ensures
        series_lines(list, series, n).len() <= series_lines(list, series, m).len(),
        forall|k: int|
            0 <= k < series_lines(list, series, n).len() ==> series_lines(list, series, n)[k]
                == #[trigger] series_lines(list, series, m)[k],
    decreases m,
{
    if n < m {
        lines_extend(list, series, n, m - 1);
    }
}

/// The one table of a partition's series file: a row for every series, the series of an array
/// together and the arrays in the order of the plan; nothing where there is none.
pub fn series_table(plan: &PartitionPlan, series: &Vec<Selected>) -> (r: Result<
    Option<Vec<ColumnData>>,
    String,
>)
    requires
        all_wf(series@),
        members_in(arrays(plan.arrays@), series@),
    ensures
        ({
            let kind = plan.table.key@.kind;
            let list = arrays(plan.arrays@);
            let lines = series_lines(list, series@, list.len() as int);
            match r {
                Ok(None) => lines.len() == 0,
                Ok(Some(table)) => {
                    &&& lines.len() > 0
                    &&& gridded(kind) ==> forall|k: int|
                        0 <= k < lines.len() ==> (#[trigger] lines[k]).initial is Some
                    &&& holds_table(
                        table@,
                        series_columns(kind, zone_of(plan.table.key@.reference)),
                        series_cells(lines, kind),
                    )
                },
                Err(e) => gridded(kind) && exists|k: int| #[trigger]
                    first_without_anchor(lines, k) && e@ == no_anchor_text(
                        lines[k].row.name,
                        kind,
                    ),
            }
        }),
{
    let ghost kind = plan.table.key@.kind;
    let ghost list = arrays(plan.arrays@);
    let ghost lines = series_lines(list, series@, list.len() as int);
    let mut builder = SeriesFileBuilder::new(&plan.table);
    let mut a: usize = 0;
    while a < plan.arrays.len()
        invariant
            a <= plan.arrays.len(),
            list == arrays(plan.arrays@),
            kind == plan.table.key@.kind,
            lines == series_lines(list, series@, list.len() as int),
            all_wf(series@),
            members_in(list, series@),
            builder.wf(),
            builder.of() == plan.table,
            builder.lines() == series_lines(list, series@, a as int),
            gridded(kind) ==> forall|k: int|
                0 <= k < builder.lines().len() ==> (#[trigger] builder.lines()[k]).initial is Some,
        decreases plan.arrays.len() - a,
    {
        let group = &plan.arrays[a];
        let ghost before = builder.lines();
        proof {
            assert(list[a as int] == group@);
            assert(member_lines(group@, series@, 0) =~= Seq::<SeriesLine>::empty());
            assert(before + member_lines(group@, series@, 0) =~= before);
        }
        let mut i: usize = 0;
        while i < group.members.len()
            invariant
                a < plan.arrays.len(),
                i <= group.members.len(),
                *group == plan.arrays@[a as int],
                list == arrays(plan.arrays@),
                list[a as int] == group@,
                kind == plan.table.key@.kind,
                lines == series_lines(list, series@, list.len() as int),
                all_wf(series@),
                members_in(list, series@),
                before == series_lines(list, series@, a as int),
                builder.wf(),
                builder.of() == plan.table,
                builder.lines() == before + member_lines(group@, series@, i as int),
                gridded(kind) ==> forall|k: int|
                    0 <= k < builder.lines().len() ==> (#[trigger] builder.lines()[k]).initial
                        is Some,
            decreases group.members.len() - i,
        {
            proof {
                assert(list[a as int].members[i as int] < series@.len());
                assert(series@[group.members@[i as int] as int].wf());
            }
            let s = &series[group.members[i]];
            let ghost held = builder.lines();
            let ghost line = member_line(group@, series@, i as int);
            match builder.push(&group.key, &s.row, &s.data) {
                Ok(_) => {},
                Err(e) => {
                    proof {
                        let k = held.len() as int;
                        let full = member_lines(
                            group@,
                            series@,
                            group.members@.len() as int,
                        );
                        lines_extend(list, series@, a + 1, list.len() as int);
                        let here = series_lines(list, series@, a + 1);
                        assert(here == before + full);
                        assert forall|j: int| 0 <= j <= k implies #[trigger] lines[j] == (
                        if j < k {
                            held[j]
                        } else {
                            line
                        }) by {
                            assert(here[j] == lines[j]);
                            if j >= before.len() {
                                assert(full[j - before.len()] == member_line(
                                    group@,
                                    series@,
                                    j - before.len(),
                                ));
                            }
                        }
                        assert(lines[k] == line);
                        assert forall|j: int| 0 <= j < k implies (#[trigger] lines[j]).initial
                            is Some by {
                            assert(lines[j] == held[j]);
                        }
                        assert(first_without_anchor(lines, k));
                    }
                    return Err(e);
                },
            }
            i = i + 1;
            proof {
                assert(builder.lines() =~= before + member_lines(group@, series@, i as int));
                assert forall|k: int| gridded(kind) && 0 <= k < builder.lines().len() implies (
                #[trigger] builder.lines()[k]).initial is Some by {
                    if k < held.len() {
                        assert(builder.lines()[k] == held[k]);
                    }
                }
            }
        }
        a = a + 1;
    }
    if builder.is_empty() {
        Ok(None)
    } else {
        Ok(Some(builder.finish()))
    }
}

// ---- The values file ------------------------------------------------------------------------

/// The rows of one array: those of the first series that reads it, since they all read the
/// same.
pub open spec fn group_lines(
    table: PartitionSchema,
    g: ArrayGroupView,
    series: Seq<Selected>,
) -> Seq<Line> {
    let s = series[g.members[0] as int];
    array_lines(table, g.key, s.row@, s.data@)
}

/// The rows of the first `n` arrays.
pub open spec fn value_lines(
    table: PartitionSchema,
    list: Seq<ArrayGroupView>,
    series: Seq<Selected>,
    n: int,
) -> Seq<Line>
    decreases n,
{
    if n <= 0 {
        seq![]
    } else {
        value_lines(table, list, series, n - 1) + group_lines(table, list[n - 1], series)
    }
}

/// Whether the element shapes of the arrays a partition writes can be counted.
pub open spec fn countable(list: Seq<ArrayGroupView>, series: Seq<Selected>) -> bool {
    forall|a: int|
        0 <= a < list.len() ==> product(
            series[(#[trigger] list[a]).members[0] as int].row@.per_step(),
        ) <= usize::MAX
}

/// Writes a partition's values file, one array at a time.
///
/// No more rows are held back than one row group has, beyond those of the array at hand.
pub struct ValuesWriter<'a> {
    plan: &'a PartitionPlan,
    series: &'a Vec<Selected>,
    buffer: ValuesBuffer<'a>,
    next: usize,
    rows: u128,
    emitted: Ghost<Seq<Line>>,
}

/// What there is to write next.
#[derive(Debug)]
pub enum WriteStep {
    /// One array was taken up: its rows, and the row groups that are complete with it.
    Array(WrittenArray),
    /// The last row group.
    Last(Vec<ColumnData>),
    /// The file is complete.
    Done,
}

impl<'a> ValuesWriter<'a> {
    /// The arrays of the partition.
    pub closed spec fn list(self) -> Seq<ArrayGroupView> {
        arrays(self.plan.arrays@)
    }

    /// The layout of the partition.
    pub closed spec fn table(self) -> PartitionSchema {
        self.plan.table
    }

    /// The series the partition is made from.
    pub closed spec fn selected(self) -> Seq<Selected> {
        self.series@
    }

    /// How many arrays were taken up.
    pub closed spec fn taken(self) -> int {
        self.next as int
    }

    /// The rows handed out.
    pub closed spec fn emitted(self) -> Seq<Line> {
        self.emitted@
    }

    /// The rows still waiting for their row group.
    pub closed spec fn waiting(self) -> Seq<Line> {
        self.buffer.lines()
    }

    /// How many bytes one number of the rows waiting has.
    pub closed spec fn size(self) -> nat {
        self.buffer.size()
    }

    /// How many bytes one of the rows waiting has.
    pub closed spec fn row_bytes(self) -> nat {
        self.buffer.row_bytes()
    }

    /// Whether two writers write the same partition.
    pub open spec fn same_file(self, other: ValuesWriter<'a>) -> bool {
        &&& self.list() == other.list()
        &&& self.table() == other.table()
        &&& self.selected() == other.selected()
    }

    /// What was handed out and what waits are together the rows of the arrays taken up.
    pub closed spec fn wf(self) -> bool {
        &&& self.buffer.wf()
        &&& self.buffer.of() == self.plan.table
        &&& self.buffer.lines().len() < ROW_GROUP_TARGET
        &&& self.next <= self.plan.arrays@.len()
        &&& self.rows == self.emitted@.len() + self.buffer.lines().len()
        &&& self.rows <= self.next * usize::MAX
        &&& all_wf(self.series@)
        &&& members_in(self.list(), self.series@)
        &&& countable(self.list(), self.series@)
        &&& self.emitted@ + self.buffer.lines() == value_lines(
            self.plan.table,
            self.list(),
            self.series@,
            self.next as int,
        )
    }

    /// A writer that has written nothing.
    pub fn new(plan: &'a PartitionPlan, series: &'a Vec<Selected>) -> (r: ValuesWriter<'a>)
        requires
            all_wf(series@),
            members_in(arrays(plan.arrays@), series@),
            countable(arrays(plan.arrays@), series@),
            plan.table.width() * 8 <= usize::MAX,
        ensures
            r.wf(),
            r.list() == arrays(plan.arrays@),
            r.table() == plan.table,
            r.selected() == series@,
            r.taken() == 0,
            r.emitted() == Seq::<Line>::empty(),
            r.waiting() == Seq::<Line>::empty(),
            r.size() == 0,
    {
        let buffer = ValuesBuffer::new(&plan.table);
        let r = ValuesWriter {
            plan,
            series,
            buffer,
            next: 0,
            rows: 0,
            emitted: Ghost(Seq::empty()),
        };
        proof {
            assert(r.emitted@ + r.buffer.lines() =~= Seq::<Line>::empty());
        }
        r
    }

    /// Goes on by one array, or by the last row group. When there is nothing left to do, the
    /// rows handed out are those of all the arrays, in their order.
    pub fn step(&mut self) -> (r: Result<WriteStep, String>)
        requires
            old(self).wf(),
        ensures
            final(self).same_file(*old(self)),
            ({
                let table = old(self).table();
                let n = old(self).taken();
                let held = old(self).waiting();
                let s = old(self).selected()[old(self).list()[n].members[0] as int];
                let fault = write_fault(table, held.len(), old(self).size(), s.row@, s.data@);
                match r {
                    Ok(WriteStep::Array(w)) => {
                        let coming = rows_of(s.data@)->Ok_0.len();
                        let all = held + group_lines(table, old(self).list()[n], old(self).selected());
                        let cut = group_bound(
                            held.len(),
                            coming,
                            group_count(held.len(), coming) as int,
                        );
                        &&& n < old(self).list().len()
                        &&& fault is None
                        &&& w.rows == coming
                        &&& w.groups@.len() == group_count(held.len(), coming)
                        &&& holds_groups(w.groups@, table, all, held.len(), coming)
                        &&& final(self).wf()
                        &&& final(self).taken() == n + 1
                        &&& final(self).emitted() == old(self).emitted() + all.take(cut)
                        &&& final(self).waiting() == all.skip(cut)
                        &&& final(self).size() == s.data@.array.dtype.bytes()
                    },
                    Ok(WriteStep::Last(batch)) => {
                        &&& n == old(self).list().len()
                        &&& held.len() > 0
                        &&& rows_match(table, old(self).row_bytes())
                        &&& holds_table(batch@, value_schema(table), cells_of(held))
                        &&& final(self).wf()
                        &&& final(self).taken() == n
                        &&& final(self).emitted() == old(self).emitted() + held
                        &&& final(self).waiting().len() == 0
                    },
                    Ok(WriteStep::Done) => {
                        &&& n == old(self).list().len()
                        &&& held.len() == 0
                        &&& final(self).wf()
                        &&& final(self).taken() == n
                        &&& final(self).emitted() == old(self).emitted()
                        &&& final(self).emitted() == value_lines(
                            table,
                            old(self).list(),
                            old(self).selected(),
                            n,
                        )
                    },
                    Err(e) => if n < old(self).list().len() {
                        fault == Some(e@)
                    } else {
                        &&& held.len() > 0
                        &&& !rows_match(table, old(self).row_bytes())
                        &&& e@ == misfit_text(table, held.len(), old(self).row_bytes())
                    },
                }
            }),
    {
        let ghost before = *self;
        if self.next < self.plan.arrays.len() {
            let group = &self.plan.arrays[self.next];
            proof {
                assert(before.list()[self.next as int] == group@);
                assert(before.list()[self.next as int].members.len() > 0);
                assert(before.list()[self.next as int].members[0] < self.series@.len());
                assert(self.series@[group.members@[0] as int].wf());
            }
            let s = &self.series[group.members[0]];
            let w = match self.buffer.write_array(&group.key, &s.row, &s.data) {
                Ok(w) => w,
                Err(e) => {
                    return Err(e);
                },
            };
            proof {
                let table = before.plan.table;
                let n = before.next as int;
                let held = before.buffer.lines();
                let coming = rows_of(s.data@)->Ok_0.len();
                let all = held + group_lines(table, before.list()[n], self.series@);
                let cut = group_bound(held.len(), coming, group_count(held.len(), coming) as int);
                crate::values::arrays_stay_whole(
                    held.len(),
                    coming,
                    group_count(held.len(), coming) as int,
                );
                self.emitted@ = before.emitted@ + all.take(cut);
                assert(all.take(cut) + all.skip(cut) =~= all);
                assert(self.emitted@ + all.skip(cut) =~= (before.emitted@ + held) + group_lines(
                    table,
                    before.list()[n],
                    self.series@,
                ));
            }
            let arrays: usize = self.plan.arrays.len();
            proof {
                let n = before.next as int;
                let most = usize::MAX as int;
                assert(n * most + most == (n + 1) * most) by (nonlinear_arith);
                assert((n + 1) * most <= 0xffff_ffff_ffff_ffff * 0xffff_ffff_ffff_ffff)
                    by (nonlinear_arith)
                    requires
                        0 <= n,
                        n + 1 <= 0xffff_ffff_ffff_ffff,
                        0 <= most <= 0xffff_ffff_ffff_ffff,
                ;
                assert(n + 1 <= arrays);
            }
            self.rows = self.rows + w.rows as u128;
            self.next = self.next + 1;
            return Ok(WriteStep::Array(w));
        }
        match self.buffer.finish() {
            Ok(None) => {
                proof {
                    assert(before.emitted@ + before.buffer.lines() =~= before.emitted@);
                }
                Ok(WriteStep::Done)
            },
            Ok(Some(batch)) => {
                proof {
                    self.emitted@ = before.emitted@ + before.buffer.lines();
                    assert(self.emitted@ + self.buffer.lines() =~= self.emitted@);
                }
                Ok(WriteStep::Last(batch))
            },
            Err(e) => Err(e),
        }
    }
}

// ---- What was written ------------------------------------------------------------------------

proof fn series_rows_grow(list: Seq<ArrayGroupView>, series: Seq<Selected>, n: int, m: int)
    requires
        0 <= n <= m,
    ensures
        series_lines(list, series, n).len() <= series_lines(list, series, m).len(),
    decreases m,
{
    lines_extend(list, series, n, m);
}

impl<'a> ValuesWriter<'a> {
    /// How many rows the series file has: one for each member of the partition.
    fn series_rows(&self) -> (r: Option<usize>)
        ensures
            ({
                let n = series_lines(self.list(), self.selected(), self.list().len() as int).len();
                r == if n <= usize::MAX {
                    Some(n as usize)
                } else {
                    None
                }
            }),
    {
        let ghost list = self.list();
        let ghost series = self.selected();
        let mut sum: usize = 0;
        let mut a: usize = 0;
        while a < self.plan.arrays.len()
            invariant
                a <= self.plan.arrays.len(),
                list == arrays(self.plan.arrays@),
                list == self.list(),
                series == self.selected(),
                sum == series_lines(list, series, a as int).len(),
            decreases self.plan.arrays.len() - a,
        {
            proof {
                assert(list[a as int] == self.plan.arrays@[a as int]@);
                series_rows_grow(list, series, a + 1, list.len() as int);
            }
            match sum.checked_add(self.plan.arrays[a].members.len()) {
                Some(n) => {
                    sum = n;
                },
                None => {
                    return None;
                },
            }
            a = a + 1;
        }
        Some(sum)
    }

    /// What the export says of a partition once it is written: where its files are, and how
    /// many arrays, series and rows they hold. The rows of an array count once, however many
    /// series read it. Nothing where a number of rows is more than a count can say.
    pub fn written_partition(&self, stem: String, values_path: String, series_path: String) -> (r:
        Option<WrittenPartition>)
        requires
            self.wf(),
            self.taken() == self.list().len(),
        ensures
            ({
                let n = self.list().len() as int;
                let series = series_lines(self.list(), self.selected(), n).len();
                let rows = value_lines(self.table(), self.list(), self.selected(), n).len();
                match r {
                    Some(p) => {
                        &&& p.stem == stem
                        &&& p.values_path == values_path
                        &&& p.series_path == series_path
                        &&& p.time_series_type == self.table().key@.kind
                        &&& p.value_slug@ == self.table().key@.value.slug()
                        &&& p.reference@ == literal_of(self.table().key@.reference)
                        &&& p.arrays == n
                        &&& p.series == series
                        &&& p.rows == rows
                    },
                    None => series > usize::MAX || rows > usize::MAX,
                }
            }),
    {
        let series: usize = match self.series_rows() {
            Some(n) => n,
            None => {
                return None;
            },
        };
        proof {
            assert((self.emitted@ + self.buffer.lines()).len() == self.rows);
        }
        if self.rows > usize::MAX as u128 {
            return None;
        }
        let key = &self.plan.table.key;
        Some(
            WrittenPartition {
                stem,
                values_path,
                series_path,
                time_series_type: key.time_series_type,
                value_slug: key.value_kind.slug(),
                reference: reference_literal(&key.time_reference),
                arrays: self.plan.arrays.len(),
                series,
                rows: self.rows as usize,
            },
        )
    }
}

/// The members of the first `n` arrays, one array after the other.
pub open spec fn all_members(list: Seq<ArrayGroupView>, n: int) -> Seq<usize>
    decreases n,
{
    if n <= 0 {
        seq![]
    } else {
        all_members(list, n - 1) + list[n - 1].members
    }
}

proof fn members_are_rows(list: Seq<ArrayGroupView>, series: Seq<Selected>, n: int)
    ensures
        all_members(list, n).len() == series_lines(list, series, n).len(),
    decreases n,
{
    if n > 0 {
        members_are_rows(list, series, n - 1);
    }
}

proof fn member_is_somewhere(list: Seq<ArrayGroupView>, n: int, m: usize)
    requires
        0 <= n <= list.len(),
    ensures
        all_members(list, n).contains(m) <==> exists|a: int|
            0 <= a < n && (#[trigger] list[a]).members.contains(m),
    decreases n,
{
    if n > 0 {
        member_is_somewhere(list, n - 1, m);
        let before = all_members(list, n - 1);
        let last = list[n - 1].members;
        let all = all_members(list, n);
        if all.contains(m) {
            let k = choose|k: int| 0 <= k < all.len() && all[k] == m;
            if k < before.len() {
                assert(before[k] == m);
            } else {
                assert(last[k - before.len()] == m);
                assert(list[n - 1].members.contains(m));
            }
        }
        if exists|a: int| 0 <= a < n && (#[trigger] list[a]).members.contains(m) {
            let a = choose|a: int| 0 <= a < n && (#[trigger] list[a]).members.contains(m);
            if a < n - 1 {
                assert(before.contains(m));
                let k = choose|k: int| 0 <= k < before.len() && before[k] == m;
                assert(all[k] == m);
            } else {
                let k = choose|k: int| 0 <= k < last.len() && last[k] == m;
                assert(all[before.len() + k] == m);
            }
        }
    }
}

proof fn members_differ(
    list: Seq<ArrayGroupView>,
    series: Seq<Selected>,
    members: Seq<usize>,
    n: int,
)
    requires
        grouped(list, series, members),
        0 <= n <= list.len(),
    ensures
        all_members(list, n).no_duplicates(),
    decreases n,
{
    if n > 0 {
        members_differ(list, series, members, n - 1);
        let before = all_members(list, n - 1);
        let last = list[n - 1].members;
        let all = all_members(list, n);
        assert forall|i: int, j: int| 0 <= i < j < all.len() implies all[i] != all[j] by {
            if j < before.len() {
                assert(before[i] != before[j]);
            } else if i >= before.len() {
                let k = i - before.len();
                let l = j - before.len();
                assert(stands_before(series, list[n - 1].members[k], list[n - 1].members[l]));
            } else if all[i] == all[j] {
                let m = all[i];
                assert(before[i] == m);
                member_is_somewhere(list, n - 1, m);
                let a = choose|a: int| 0 <= a < n - 1 && (#[trigger] list[a]).members.contains(m);
                assert(last[j - before.len()] == m);
                assert(list[n - 1].members.contains(m));
                assert(members.contains(list[n - 1].members[j - before.len()]));
                every_series_reads_one_array(list, series, members, m);
            }
        }
    }
}

/// A partition's series file has one row for each of its members.
pub proof fn every_member_has_one_row(
    list: Seq<ArrayGroupView>,
    series: Seq<Selected>,
    members: Seq<usize>,
)
    requires
        grouped(list, series, members),
        members.no_duplicates(),
    ensures
        series_lines(list, series, list.len() as int).len() == members.len(),
{
    let n = list.len() as int;
    let all = all_members(list, n);
    members_are_rows(list, series, n);
    members_differ(list, series, members, n);
    assert forall|m: usize| all.to_set().contains(m) <==> members.to_set().contains(m) by {
        member_is_somewhere(list, n, m);
        if all.contains(m) {
            let a = choose|a: int| 0 <= a < n && (#[trigger] list[a]).members.contains(m);
            let i = choose|i: int| 0 <= i < list[a].members.len() && list[a].members[i] == m;
            assert(members.contains(list[a].members[i]));
        }
        if members.contains(m) {
            assert(exists|a: int| 0 <= a < n && (#[trigger] list[a]).members.contains(m));
        }
    }
    assert(all.to_set() =~= members.to_set());
    all.unique_seq_to_set();
    members.unique_seq_to_set();
}

// ---- What is written of a plan --------------------------------------------------------------

proof fn lines_stay_in_front(list: Seq<ArrayGroupView>, series: Seq<Selected>, a: int, n: int)
    requires
        0 <= a <= n <= list.len(),
    ensures
        series_lines(list, series, a).len() <= series_lines(list, series, n).len(),
        forall|k: int|
            0 <= k < series_lines(list, series, a).len() ==> series_lines(list, series, n)[k]
                == #[trigger] series_lines(list, series, a)[k],
    decreases n,
{
    if a < n {
        lines_stay_in_front(list, series, a, n - 1);
    }
}

/// Every series of a plan has a row in the series file, under the key of its array, and the row
/// says what its own metadata and its own time axis say. The rows of an array stand together, in
/// its order, behind those of the arrays before it.
pub proof fn every_member_is_written(
    list: Seq<ArrayGroupView>,
    series: Seq<Selected>,
    a: int,
    i: int,
)
    requires
        0 <= a < list.len(),
        0 <= i < list[a].members.len(),
    ensures
        ({
            let lines = series_lines(list, series, list.len() as int);
            let k = series_lines(list, series, a).len() + i;
            let s = series[list[a].members[i] as int];
            &&& 0 <= k < lines.len()
            &&& lines[k].key == list[a].key
            &&& lines[k].row == s.row@
            &&& s.data@.axis matches AxisView::SingleTimeSeries { initial_timestamp, length, .. }
                ==> lines[k].initial == Some(initial_timestamp) && lines[k].count == Some(length)
            &&& s.data@.axis is NonSequentialTimeSeries || s.data@.axis is PersistentTimeSeries
                ==> lines[k].initial is None && lines[k].count is None
            &&& s.data@.axis matches AxisView::Deterministic { grid }
                ==> lines[k].initial == Some(grid.initial_timestamp) && lines[k].count == Some(
                grid.count,
            )
            &&& s.data@.axis matches AxisView::Probabilistic { grid, .. }
                ==> lines[k].initial == Some(grid.initial_timestamp) && lines[k].count == Some(
                grid.count,
            )
            &&& s.data@.axis matches AxisView::Scenarios { grid, .. }
                ==> lines[k].initial == Some(grid.initial_timestamp) && lines[k].count == Some(
                grid.count,
            )
        }),
{
    lines_stay_in_front(list, series, a + 1, list.len() as int);
    let k = series_lines(list, series, a).len() + i;
    assert(series_lines(list, series, a + 1)[k] == member_line(list[a], series, i));
}

proof fn values_stay_in_front(
    table: PartitionSchema,
    list: Seq<ArrayGroupView>,
    series: Seq<Selected>,
    a: int,
    n: int,
)
    requires
        0 <= a <= n <= list.len(),
    ensures
        value_lines(table, list, series, a).len() <= value_lines(table, list, series, n).len(),
        forall|k: int|
            0 <= k < value_lines(table, list, series, a).len() ==> value_lines(
                table,
                list,
                series,
                n,
            )[k] == #[trigger] value_lines(table, list, series, a)[k],
    decreases n,
{
    if a < n {
        values_stay_in_front(table, list, series, a, n - 1);
    }
}

/// Every row of every array is in the values file, under the key of the array, and once however
/// many series share it. The rows of an array stand together, in its order, behind those of the
/// arrays before it.
pub proof fn every_array_is_written(
    table: PartitionSchema,
    list: Seq<ArrayGroupView>,
    series: Seq<Selected>,
    a: int,
    k: int,
)
    requires
        0 <= a < list.len(),
        list[a].members.len() > 0,
        0 <= k < rows_of(
            series[list[a].members[0] as int].data@,
        )->Ok_0.len(),
    ensures
        ({
            let emitted = rows_of(series[list[a].members[0] as int].data@)->Ok_0;
            let lines = value_lines(table, list, series, list.len() as int);
            let first = value_lines(table, list, series, a).len();
            &&& value_lines(table, list, series, a + 1).len() == first + emitted.len()
            &&& first + k < lines.len()
            &&& lines[first + k].key == list[a].key
            &&& lines[first + k].issue == emitted[k].issue
            &&& lines[first + k].target == emitted[k].target
            &&& lines[first + k].lane == emitted[k].lane
        }),
{
    values_stay_in_front(table, list, series, a + 1, list.len() as int);
    let first = value_lines(table, list, series, a).len();
    assert(value_lines(table, list, series, a + 1)[first + k] == group_lines(
        table,
        list[a],
        series,
    )[k]);
}

/// A written partition is reported under the names it was given, and counts what is in its files:
/// its arrays, a row for each series, and the rows of the values.
pub proof fn written_partitions_are_counted<'a>(
    writer: ValuesWriter<'a>,
    stem: String,
    values_path: String,
    series_path: String,
    members: Seq<usize>,
    r: Option<WrittenPartition>,
)
    requires
        call_ensures(
            ValuesWriter::<'a>::written_partition,
            (&writer, stem, values_path, series_path),
            r,
        ),
        grouped(writer.list(), writer.selected(), members),
        members.no_duplicates(),
        r is Some,
    ensures
        r->0.stem@ == stem@,
        r->0.values_path@ == values_path@,
        r->0.series_path@ == series_path@,
        r->0.arrays == writer.list().len(),
        r->0.series == members.len(),
        r->0.rows == value_lines(
            writer.table(),
            writer.list(),
            writer.selected(),
            writer.list().len() as int,
        ).len(),
        r->0.time_series_type == writer.table().key.time_series_type,
{
    every_member_has_one_row(writer.list(), writer.selected(), members);
}

} // verus!
