//! What an export writes: which series share a partition, which share an array, and in what
//! order both of a partition's files hold them.
use crate::array::{head_of, product_of_one, width_of, TypedArray};
use crate::catalog::{partition_of, per_step_shape, MetadataView, TimeSeriesMetadata};
use crate::files::strip_suffix;
use crate::kinds::TimeSeriesType;
use crate::partition::{
    disambiguate, key_views, keys_of, names_for, names_of, ordered, wanted_name, KindView,
    PartitionKey, PartitionView,
};
use crate::rows::{emittable, row_count, rows_of};
use crate::series::{DataView, TimeSeriesData};
use crate::table::{
    columns, footer_of, key_before, key_order, series_columns, spellable, time_axis_of,
    time_axis_text, value_data_type, value_type, values_columns, zone_of, ArrayKey, ArrayKeyView,
    ColumnType, PartitionSchema, ROLE_SERIES, ROLE_VALUES,
};
use crate::text::{decimal, decimal_text, integer, integer_text, join, joined, texts};
use crate::values::{array_fault, rows_inside, same_form};
use vstd::prelude::*;

verus! {

/// One series of an export: its catalog row, its values, and the two hashes that only the
/// store computes.
#[derive(Debug)]
pub struct Selected {
    pub row: TimeSeriesMetadata,
    pub data: TimeSeriesData,
    /// The hash of the canonical array in hexadecimal, or why it has none.
    pub data_hash: Result<String, String>,
    /// The hash of an irregular series' timestamps in hexadecimal.
    pub timestamps_hash: String,
}

impl Selected {
    /// Whether the series' rows and its time axis can be spelled out.
    pub open spec fn wf(self) -> bool {
        emittable(self.data@) && spellable(self.data@.axis)
    }
}

/// Whether every series of an export can be spelled out.
pub open spec fn all_wf(series: Seq<Selected>) -> bool {
    forall|i: int| 0 <= i < series.len() ==> (#[trigger] series[i]).wf()
}

/// The leading axes of a stored array: what precedes the per-step shape.
pub fn leading_shape(kind: TimeSeriesType, array: &TypedArray) -> (r: Vec<usize>)
    ensures
        r@ == array@.shape.take(if kind.axes() <= array@.shape.len() {
            kind.axes() as int
        } else {
            array@.shape.len() as int
        }),
{
    head_of(&array.shape, kind.leading_dims())
}

/// The array a series reads: its content hash and its time axis.
pub open spec fn key_of(s: Selected) -> Result<ArrayKeyView, Seq<char>> {
    match rows_of(s.data@) {
        Err(text) => Err(text),
        Ok(_) => match s.data_hash {
            Err(e) => Err(e@),
            Ok(hash) => Ok(
                ArrayKeyView {
                    data_hash: hash@,
                    time_axis: time_axis_text(s.data@.axis, s.timestamps_hash@),
                },
            ),
        },
    }
}

/// The array a series reads. The hash is that of the canonical array, so two series whose
/// curves are the same points at different paddings share one array.
pub fn array_key(s: &Selected) -> (r: Result<ArrayKey, String>)
    requires
        s.wf(),
    ensures
        match (r, key_of(*s)) {
            (Ok(key), Ok(expected)) => key@ == expected,
            (Err(e), Err(text)) => e@ == text,
            _ => false,
        },
{
    match row_count(&s.data) {
        Err(e) => Err(e),
        Ok(_) => match &s.data_hash {
            Err(e) => Err(e.clone()),
            Ok(hash) => Ok(
                ArrayKey {
                    data_hash: hash.clone(),
                    time_axis: time_axis_of(&s.data.axis, s.timestamps_hash.as_str()),
                },
            ),
        },
    }
}

// ---- Empty series ---------------------------------------------------------------------------

/// The first of the first `n` series whose rows cannot be read off, if there is one.
pub open spec fn first_unreadable(series: Seq<Selected>, n: int) -> Option<Seq<char>>
    decreases n,
{
    if n <= 0 {
        None
    } else {
        match first_unreadable(series, n - 1) {
            Some(text) => Some(text),
            None => match rows_of(series[n - 1].data@) {
                Err(text) => Some(text),
                Ok(_) => None,
            },
        }
    }
}

proof fn unreadable_persists(series: Seq<Selected>, n: int, m: int)
    requires
        0 <= n <= m,
        first_unreadable(series, n) is Some,
    ensures
        first_unreadable(series, m) == first_unreadable(series, n),
    decreases m - n,
{
    if n < m {
        unreadable_persists(series, n, m - 1);
    }
}

/// How a series is named in a refusal.
pub open spec fn owned_text(row: MetadataView) -> Seq<char> {
    "'"@ + row.name + "' (owner "@ + integer_text(row.owner_id as int) + ")"@
}

/// Those of the first `n` series that hold no values.
pub open spec fn empty_series(series: Seq<Selected>, n: int) -> Seq<Seq<char>>
    decreases n,
{
    if n <= 0 {
        seq![]
    } else if rows_of(series[n - 1].data@)->Ok_0.len() == 0 {
        empty_series(series, n - 1).push(owned_text(series[n - 1].row@))
    } else {
        empty_series(series, n - 1)
    }
}

pub open spec fn empty_text(empty: Seq<Seq<char>>) -> Seq<char> {
    decimal_text(empty.len())
        + " of the selected series hold no values and cannot be exported: "@ + joined(empty, ", "@)
        + ". A values file has one row per value, so an empty series would be a series row with no values group -- which is also what a truncated file looks like. Narrow the selection past them."@
}

/// Why a selection cannot be exported, if it cannot: a series' rows cannot be read off, or some
/// series hold no values, and every one of them is named.
pub open spec fn selection_fault(series: Seq<Selected>) -> Option<Seq<char>> {
    match first_unreadable(series, series.len() as int) {
        Some(text) => Some(text),
        None => {
            let empty = empty_series(series, series.len() as int);
            if empty.len() > 0 {
                Some(empty_text(empty))
            } else {
                None
            }
        },
    }
}

fn refuse_empty(series: &Vec<Selected>) -> (r: Result<(), String>)
    requires
        all_wf(series@),
    ensures
        match (r, selection_fault(series@)) {
            (Ok(_), None) => true,
            (Err(e), Some(text)) => e@ == text,
            _ => false,
        },
{
    let mut empty: Vec<String> = Vec::new();
    let mut i: usize = 0;
    proof {
        assert(texts(empty@) =~= seq![]);
    }
    while i < series.len()
        invariant
            i <= series.len(),
            all_wf(series@),
            first_unreadable(series@, i as int) is None,
            texts(empty@) == empty_series(series@, i as int),
        decreases series.len() - i,
    {
        let s = &series[i];
        match row_count(&s.data) {
            Err(e) => {
                proof {
                    unreadable_persists(series@, i + 1, series@.len() as int);
                }
                return Err(e);
            },
            Ok(n) => {
                if n == 0 {
                    let mut text = "'".to_string();
                    text.append(s.row.name.as_str());
                    text.append("' (owner ");
                    text.append(integer(s.row.owner_id).as_str());
                    text.append(")");
                    let ghost was = empty@;
                    let ghost new = text@;
                    empty.push(text);
                    proof {
                        assert(texts(empty@) =~= texts(was).push(new));
                    }
                }
            },
        }
        i += 1;
    }
    proof {
        assert(texts(empty@).len() == empty@.len());
    }
    if empty.len() == 0 {
        return Ok(());
    }
    let mut e = decimal(empty.len() as u64);
    e.append(" of the selected series hold no values and cannot be exported: ");
    e.append(join(&empty, ", ").as_str());
    e.append(
        ". A values file has one row per value, so an empty series would be a series row with no values group -- which is also what a truncated file looks like. Narrow the selection past them.",
    );
    Err(e)
}

// ---- Partitions -----------------------------------------------------------------------------

/// The partitions of series, one for each.
pub open spec fn partition_list(series: Seq<Selected>) -> Seq<PartitionView> {
    series.map_values(|s: Selected| s.row@.partition())
}

/// Those of the first `n` series that belong to a partition, by index.
pub open spec fn members_of(parts: Seq<PartitionView>, key: PartitionView, n: int) -> Seq<usize>
    decreases n,
{
    if n <= 0 {
        seq![]
    } else if parts[n - 1] == key {
        members_of(parts, key, n - 1).push((n - 1) as usize)
    } else {
        members_of(parts, key, n - 1)
    }
}

/// A partition of an export: its key, the stem of its two files, and its series by index.
#[derive(Debug)]
pub struct Group {
    pub key: PartitionKey,
    pub stem: String,
    pub members: Vec<usize>,
}

/// Every name that a partition gets ends as a Parquet file's does.
proof fn names_end_in_parquet(keys: Seq<PartitionView>, i: int)
    requires
        0 <= i < keys.len(),
    ensures
        names_for(keys).len() == keys.len(),
        crate::files::without(names_for(keys)[i], ".parquet"@) is Some,
        names_for(keys)[i] == crate::files::without(names_for(keys)[i], ".parquet"@)->0
            + ".parquet"@,
    decreases keys.len(),
{
    let names = names_for(keys.drop_last());
    if keys.len() > 1 {
        names_end_in_parquet(keys.drop_last(), if i < keys.len() - 1 {
            i
        } else {
            0
        });
    } else {
        assert(names =~= seq![]);
    }
    assert(names.len() == keys.len() - 1);
    if i == keys.len() - 1 {
        let name = names_for(keys)[i];
        let end = ".parquet"@;
        let front = name.take(name.len() - end.len());
        assert(exists|f: Seq<char>| name == f + end) by {
            let stem = crate::partition::wanted_stem(keys.last());
            assert(wanted_name(keys.last()) == stem + end);
            let n = crate::partition::free_number(
                names,
                stem,
                if crate::partition::rivals(keys.drop_last(), keys.last()) < 1 {
                    2nat
                } else {
                    crate::partition::rivals(keys.drop_last(), keys.last()) + 1
                },
                names.len(),
            );
            if name != stem + end {
                assert(name == stem + "_"@ + decimal_text(n) + end);
            }
        }
        let f = choose|f: Seq<char>| name == f + end;
        assert(name.skip(name.len() - end.len()) =~= end);
        assert(name =~= front + end);
    }
}

fn members_with(series: &Vec<Selected>, key: &PartitionKey) -> (r: Vec<usize>)
    ensures
        r@ == members_of(partition_list(series@), key@, series@.len() as int),
{
    let ghost parts = partition_list(series@);
    let mut out: Vec<usize> = Vec::new();
    let mut i: usize = 0;
    while i < series.len()
        invariant
            i <= series.len(),
            parts == partition_list(series@),
            out@ == members_of(parts, key@, i as int),
        decreases series.len() - i,
    {
        if partition_of(&series[i].row).same(key) {
            out.push(i);
        }
        i += 1;
    }
    out
}

/// Divides an export into its partitions, each with the stem of its files. Refuses a selection
/// that holds an empty series, naming every one of them, so that a series row without values
/// can only mean a truncated file.
pub fn plan_groups(series: &Vec<Selected>) -> (r: Result<Vec<Group>, String>)
    requires
        all_wf(series@),
        series@.len() < 0x1000_0000_0000_0000,
    ensures
        match (r, selection_fault(series@)) {
            (Ok(groups), None) => {
                let parts = partition_list(series@);
                let keys = ordered(parts);
                &&& groups@.len() == keys.len()
                &&& forall|g: int|
                    0 <= g < groups@.len() ==> {
                        &&& (#[trigger] groups@[g]).key@ == keys[g]
                        &&& names_for(keys)[g] == groups@[g].stem@ + ".parquet"@
                        &&& groups@[g].members@ == members_of(
                            parts,
                            keys[g],
                            series@.len() as int,
                        )
                    }
            },
            (Err(e), Some(text)) => e@ == text,
            _ => false,
        },
{
    match refuse_empty(series) {
        Ok(_) => {},
        Err(e) => {
            return Err(e);
        },
    }
    let ghost parts = partition_list(series@);
    let mut keys: Vec<PartitionKey> = Vec::new();
    let mut i: usize = 0;
    proof {
        assert(key_views(keys@) =~= parts.take(0));
    }
    while i < series.len()
        invariant
            i <= series.len(),
            parts == partition_list(series@),
            key_views(keys@) == parts.take(i as int),
            keys@.len() == i,
        decreases series.len() - i,
    {
        let key = partition_of(&series[i].row);
        let ghost was = keys@;
        let ghost new = key@;
        keys.push(key);
        proof {
            assert(key_views(keys@) =~= key_views(was).push(new));
            assert(parts.take(i + 1) =~= parts.take(i as int).push(parts[i as int]));
        }
        i += 1;
    }
    proof {
        assert(parts.take(i as int) =~= parts);
    }
    let named = disambiguate(&keys);
    let ghost sorted = ordered(parts);
    proof {
        assert(keys_of(named@).len() == named@.len());
        assert(names_of(named@).len() == named@.len());
    }
    let mut groups: Vec<Group> = Vec::new();
    let mut g: usize = 0;
    while g < named.len()
        invariant
            g <= named.len(),
            parts == partition_list(series@),
            sorted == ordered(parts),
            keys_of(named@) == sorted,
            names_of(named@) == names_for(sorted),
            named@.len() == sorted.len(),
            groups@.len() == g,
            forall|j: int|
                0 <= j < g ==> {
                    &&& (#[trigger] groups@[j]).key@ == sorted[j]
                    &&& names_for(sorted)[j] == groups@[j].stem@ + ".parquet"@
                    &&& groups@[j].members@ == members_of(parts, sorted[j], series@.len() as int)
                },
        decreases named.len() - g,
    {
        let name = &named[g].name;
        proof {
            names_end_in_parquet(sorted, g as int);
            assert(names_of(named@)[g as int] == named@[g as int].name@);
            assert(keys_of(named@)[g as int] == named@[g as int].key@);
        }
        let stem = match strip_suffix(name.as_str(), ".parquet") {
            Some(stem) => stem,
            None => {
                proof {
                    assert(false);
                }
                name.clone()
            },
        };
        let key = named[g].key.copied();
        let members = members_with(series, &key);
        groups.push(Group { key, stem, members });
        g += 1;
    }
    Ok(groups)
}

proof fn member_listed(parts: Seq<PartitionView>, key: PartitionView, n: int, i: int)
    requires
        0 <= i < n <= parts.len(),
        parts.len() <= usize::MAX,
    ensures
        members_of(parts, key, n).contains(i as usize) <==> parts[i] == key,
    decreases n,
{
    let out = members_of(parts, key, n);
    let rest = members_of(parts, key, n - 1);
    members_below(parts, key, n - 1);
    if i < n - 1 {
        member_listed(parts, key, n - 1, i);
        if rest.contains(i as usize) {
            let m = choose|m: int| 0 <= m < rest.len() && rest[m] == i as usize;
            assert(out[m] == i as usize);
        }
        if out.contains(i as usize) {
            let m = choose|m: int| 0 <= m < out.len() && out[m] == i as usize;
            if m < rest.len() {
                assert(rest[m] == i as usize);
            }
        }
    } else {
        if parts[i] == key {
            assert(out[rest.len() as int] == i as usize);
        }
    }
}

/// The members of a partition come in the order of the selection.
pub proof fn members_below(parts: Seq<PartitionView>, key: PartitionView, n: int)
    requires
        0 <= n <= parts.len(),
        parts.len() <= usize::MAX,
    ensures
        forall|m: int| 0 <= m < members_of(parts, key, n).len() ==> members_of(parts, key, n)[m] < n,
        forall|i: int, j: int|
            0 <= i < j < members_of(parts, key, n).len() ==> members_of(parts, key, n)[i]
                < members_of(parts, key, n)[j],
    decreases n,
{
    if n > 0 {
        members_below(parts, key, n - 1);
        let out = members_of(parts, key, n);
        let rest = members_of(parts, key, n - 1);
        assert forall|m: int| 0 <= m < out.len() implies out[m] < n by {
            if m < rest.len() {
                assert(out[m] == rest[m]);
            }
        }
        assert forall|i: int, j: int| 0 <= i < j < out.len() implies out[i] < out[j] by {
            assert(out[i] == rest[i]);
            if j < rest.len() {
                assert(out[j] == rest[j]);
            }
        }
    }
}

/// How many members the first `g` of some partitions have among the first `n` series.
pub open spec fn members_in_all(
    parts: Seq<PartitionView>,
    keys: Seq<PartitionView>,
    g: int,
    n: int,
) -> nat
    decreases g,
{
    if g <= 0 {
        0
    } else {
        members_in_all(parts, keys, g - 1, n) + members_of(parts, keys[g - 1], n).len()
    }
}

/// One series more is one member more, of the one partition that is its own.
proof fn one_member_more(
    parts: Seq<PartitionView>,
    keys: Seq<PartitionView>,
    g: int,
    n: int,
    own: int,
)
    requires
        0 <= g <= keys.len(),
        0 < n <= parts.len(),
        0 <= own < keys.len(),
        keys[own] == parts[n - 1],
        keys.no_duplicates(),
    ensures
        members_in_all(parts, keys, g, n) == members_in_all(parts, keys, g, n - 1) + if own < g {
            1nat
        } else {
            0nat
        },
    decreases g,
{
    if g > 0 {
        one_member_more(parts, keys, g - 1, n, own);
        assert(keys[g - 1] == parts[n - 1] <==> g - 1 == own);
    }
}

proof fn members_add_up(parts: Seq<PartitionView>, keys: Seq<PartitionView>, n: int)
    requires
        0 <= n <= parts.len(),
        keys.no_duplicates(),
        forall|i: int| 0 <= i < parts.len() ==> keys.contains(#[trigger] parts[i]),
    ensures
        members_in_all(parts, keys, keys.len() as int, n) == n,
    decreases n,
{
    if n > 0 {
        members_add_up(parts, keys, n - 1);
        assert(keys.contains(parts[n - 1]));
        let own = choose|own: int| 0 <= own < keys.len() && keys[own] == parts[n - 1];
        one_member_more(parts, keys, keys.len() as int, n, own);
    } else {
        no_members(parts, keys, keys.len() as int);
    }
}

proof fn no_members(parts: Seq<PartitionView>, keys: Seq<PartitionView>, g: int)
    ensures
        members_in_all(parts, keys, g, 0) == 0,
    decreases g,
{
    if g > 0 {
        no_members(parts, keys, g - 1);
    }
}

/// The partitions of an export together have as many members as the export has series.
pub proof fn partitions_hold_every_series(parts: Seq<PartitionView>)
    ensures
        members_in_all(
            parts,
            ordered(parts),
            ordered(parts).len() as int,
            parts.len() as int,
        ) == parts.len(),
{
    let keys = ordered(parts);
    crate::partition::keys_come_sorted(parts);
    assert forall|a: int, b: int| 0 <= a < keys.len() && 0 <= b < keys.len() && a != b implies keys[a]
        != keys[b] by {
        if a < b {
            assert(keys[a] != keys[b]);
        } else {
            assert(keys[b] != keys[a]);
        }
    }
    assert forall|i: int| 0 <= i < parts.len() implies keys.contains(#[trigger] parts[i]) by {
        assert(parts.contains(parts[i]));
    }
    members_add_up(parts, keys, parts.len() as int);
}

/// Every series of an export is in exactly one of its partitions: the one of its own key.
pub proof fn every_series_is_written_once(parts: Seq<PartitionView>, i: int)
    requires
        0 <= i < parts.len(),
        parts.len() <= usize::MAX,
    ensures
        exists|g: int|
            0 <= g < ordered(parts).len() && #[trigger] ordered(parts)[g] == parts[i] && members_of(
                parts,
                ordered(parts)[g],
                parts.len() as int,
            ).contains(i as usize),
        forall|g: int, h: int|
            #![trigger ordered(parts)[g], ordered(parts)[h]]
            0 <= g < ordered(parts).len() && 0 <= h < ordered(parts).len() && members_of(
                parts,
                ordered(parts)[g],
                parts.len() as int,
            ).contains(i as usize) && members_of(
                parts,
                ordered(parts)[h],
                parts.len() as int,
            ).contains(i as usize) ==> g == h,
{
    let keys = ordered(parts);
    let n = parts.len() as int;
    crate::partition::keys_come_sorted(parts);
    assert(parts.contains(parts[i]));
    assert(keys.contains(parts[i]));
    let g = choose|g: int| 0 <= g < keys.len() && keys[g] == parts[i];
    member_listed(parts, parts[i], n, i);
    assert(keys[g] == parts[i]);
    assert forall|a: int, b: int|
        #![trigger keys[a], keys[b]]
        0 <= a < keys.len() && 0 <= b < keys.len() && members_of(parts, keys[a], n).contains(
            i as usize,
        ) && members_of(parts, keys[b], n).contains(i as usize) implies a == b by {
        member_listed(parts, keys[a], n, i);
        member_listed(parts, keys[b], n, i);
        if a < b {
            assert(keys[a] != keys[b]);
        } else if b < a {
            assert(keys[b] != keys[a]);
        }
    }
}

// ---- Arrays -----------------------------------------------------------------------------------

/// One array of a partition: its key, and the series that read it, by index.
#[derive(Debug)]
pub struct ArrayGroup {
    pub key: ArrayKey,
    pub members: Vec<usize>,
}

/// An [`ArrayGroup`], with its list as a sequence.
pub struct ArrayGroupView {
    pub key: ArrayKeyView,
    pub members: Seq<usize>,
}

impl View for ArrayGroup {
    type V = ArrayGroupView;

    open spec fn view(&self) -> ArrayGroupView {
        ArrayGroupView { key: self.key@, members: self.members@ }
    }
}

/// The views of a list of arrays.
pub open spec fn arrays(list: Seq<ArrayGroup>) -> Seq<ArrayGroupView> {
    list.map_values(|a: ArrayGroup| a@)
}

/// A series' id, or zero for a row without one.
pub open spec fn id_of(s: Selected) -> i64 {
    match s.row.id {
        Some(id) => id,
        None => 0,
    }
}

/// Whether one series stands before another in the rows of an array: by id, and otherwise as
/// selected.
pub open spec fn stands_before(series: Seq<Selected>, a: usize, b: usize) -> bool {
    id_of(series[a as int]) < id_of(series[b as int]) || (id_of(series[a as int]) == id_of(
        series[b as int],
    ) && a < b)
}

/// Whether arrays are in the order of their keys, each with exactly those of the members that
/// read it, in the order of their ids.
pub open spec fn grouped(
    list: Seq<ArrayGroupView>,
    series: Seq<Selected>,
    members: Seq<usize>,
) -> bool {
    &&& forall|a: int, b: int|
        #![trigger list[a], list[b]]
        0 <= a < b < list.len() ==> key_before(list[a].key, list[b].key)
    &&& forall|a: int| 0 <= a < list.len() ==> (#[trigger] list[a]).members.len() > 0
    &&& forall|a: int, i: int, j: int|
        #![trigger list[a].members[i], list[a].members[j]]
        0 <= a < list.len() && 0 <= i < j < list[a].members.len() ==> stands_before(
            series,
            list[a].members[i],
            list[a].members[j],
        )
    &&& forall|a: int, i: int|
        0 <= a < list.len() && 0 <= i < list[a].members.len() ==> {
            &&& members.contains(#[trigger] list[a].members[i])
            &&& key_of(series[list[a].members[i] as int]) == Ok::<_, Seq<char>>(list[a].key)
        }
    &&& forall|m: usize| #[trigger]
        members.contains(m) ==> exists|a: int|
            0 <= a < list.len() && (#[trigger] list[a]).members.contains(m)
}

/// Every member of a partition reads one of its arrays, and only one.
pub proof fn every_series_reads_one_array(
    list: Seq<ArrayGroupView>,
    series: Seq<Selected>,
    members: Seq<usize>,
    m: usize,
)
    requires
        grouped(list, series, members),
        members.contains(m),
    ensures
        exists|a: int| 0 <= a < list.len() && (#[trigger] list[a]).members.contains(m),
        forall|a: int, b: int|
            #![trigger list[a], list[b]]
            0 <= a < list.len() && 0 <= b < list.len() && list[a].members.contains(m)
                && list[b].members.contains(m) ==> a == b,
{
    assert forall|a: int, b: int|
        #![trigger list[a], list[b]]
        0 <= a < list.len() && 0 <= b < list.len() && list[a].members.contains(m)
            && list[b].members.contains(m) implies a == b by {
        let i = choose|i: int| 0 <= i < list[a].members.len() && list[a].members[i] == m;
        let j = choose|j: int| 0 <= j < list[b].members.len() && list[b].members[j] == m;
        assert(members.contains(list[a].members[i]));
        assert(members.contains(list[b].members[j]));
        assert(list[a].key == list[b].key);
        key_order(list[a].key, list[a].key, list[a].key);
        if a < b {
            assert(key_before(list[a].key, list[b].key));
        } else if b < a {
            assert(key_before(list[b].key, list[a].key));
        }
    }
}

/// The members of a group stay in order with a new one among them.
proof fn order_with(
    g: Seq<usize>,
    series: Seq<Selected>,
    m: usize,
    at: int,
    i: int,
    j: int,
)
    requires
        0 <= at <= g.len(),
        forall|k: int, l: int|
            #![trigger g[k], g[l]]
            0 <= k < l < g.len() ==> stands_before(series, g[k], g[l]),
        forall|k: int| 0 <= k < at ==> stands_before(series, #[trigger] g[k], m),
        forall|k: int| at <= k < g.len() ==> stands_before(series, m, #[trigger] g[k]),
        0 <= i < j <= g.len(),
    ensures
        stands_before(series, g.insert(at, m)[i], g.insert(at, m)[j]),
{
    let out = g.insert(at, m);
    if i != at {
        let x = if i < at {
            i
        } else {
            i - 1
        };
        assert(out[i] == g[x]);
        if j != at {
            let y = if j < at {
                j
            } else {
                j - 1
            };
            assert(out[j] == g[y]);
        }
    } else {
        assert(out[j] == g[j - 1]);
    }
}

/// A group with a new member has its members and the new one.
proof fn group_with(g: Seq<usize>, m: usize, at: int, x: usize)
    requires
        0 <= at <= g.len(),
    ensures
        g.insert(at, m).contains(x) <==> g.contains(x) || x == m,
{
    let out = g.insert(at, m);
    if g.contains(x) {
        let k = choose|k: int| 0 <= k < g.len() && g[k] == x;
        assert(out[if k < at {
            k
        } else {
            k + 1
        }] == x);
    }
    if x == m {
        assert(out[at] == m);
    }
    if out.contains(x) && x != m {
        let k = choose|k: int| 0 <= k < out.len() && out[k] == x;
        assert(g[if k < at {
            k
        } else {
            k - 1
        }] == x);
    }
}

/// A new member of an array that is there already.
proof fn member_joins(
    list: Seq<ArrayGroupView>,
    series: Seq<Selected>,
    members: Seq<usize>,
    m: usize,
    p: int,
    at: int,
)
    requires
        grouped(list, series, members),
        0 <= p < list.len(),
        0 <= at <= list[p].members.len(),
        key_of(series[m as int]) == Ok::<_, Seq<char>>(list[p].key),
        forall|i: int| 0 <= i < at ==> stands_before(series, #[trigger] list[p].members[i], m),
        forall|i: int|
            at <= i < list[p].members.len() ==> stands_before(
                series,
                m,
                #[trigger] list[p].members[i],
            ),
    ensures
        grouped(
            list.update(
                p,
                ArrayGroupView { key: list[p].key, members: list[p].members.insert(at, m) },
            ),
            series,
            members.push(m),
        ),
{
    let g = list[p].members;
    let joined = g.insert(at, m);
    let out = list.update(p, ArrayGroupView { key: list[p].key, members: joined });
    let all = members.push(m);
    assert(forall|x: usize| #[trigger] all.contains(x) <==> members.contains(x) || x == m) by {
        assert(all[members.len() as int] == m);
        assert forall|x: usize| #[trigger] all.contains(x) <==> members.contains(x) || x == m by {
            if members.contains(x) {
                let q = choose|q: int| 0 <= q < members.len() && members[q] == x;
                assert(all[q] == x);
            }
        }
    }
    assert(forall|a: int, b: int|
        #![trigger out[a], out[b]]
        0 <= a < b < out.len() ==> key_before(out[a].key, out[b].key)) by {
        assert forall|a: int, b: int|
            #![trigger out[a], out[b]]
            0 <= a < b < out.len() implies key_before(out[a].key, out[b].key) by {
            assert(out[a].key == list[a].key && out[b].key == list[b].key);
        }
    }
    assert(forall|a: int, i: int, j: int|
        #![trigger out[a].members[i], out[a].members[j]]
        0 <= a < out.len() && 0 <= i < j < out[a].members.len() ==> stands_before(
            series,
            out[a].members[i],
            out[a].members[j],
        )) by {
        assert forall|a: int, i: int, j: int|
            #![trigger out[a].members[i], out[a].members[j]]
            0 <= a < out.len() && 0 <= i < j < out[a].members.len() implies stands_before(
            series,
            out[a].members[i],
            out[a].members[j],
        ) by {
            if a == p {
                order_with(g, series, m, at, i, j);
            } else {
                assert(stands_before(series, list[a].members[i], list[a].members[j]));
            }
        }
    }
    assert(forall|a: int, i: int|
        0 <= a < out.len() && 0 <= i < out[a].members.len() ==> {
            &&& all.contains(#[trigger] out[a].members[i])
            &&& key_of(series[out[a].members[i] as int]) == Ok::<_, Seq<char>>(out[a].key)
        }) by {
        assert forall|a: int, i: int|
            0 <= a < out.len() && 0 <= i < out[a].members.len() implies {
            &&& all.contains(#[trigger] out[a].members[i])
            &&& key_of(series[out[a].members[i] as int]) == Ok::<_, Seq<char>>(out[a].key)
        } by {
            let x = out[a].members[i];
            if a == p {
                assert(joined.contains(x));
                group_with(g, m, at, x);
                if x != m {
                    let k = choose|k: int| 0 <= k < g.len() && g[k] == x;
                    assert(members.contains(list[a].members[k]));
                }
            } else {
                assert(members.contains(list[a].members[i]));
            }
        }
    }
    assert forall|x: usize| #[trigger] all.contains(x) implies exists|a: int|
        0 <= a < out.len() && (#[trigger] out[a]).members.contains(x) by {
        group_with(g, m, at, x);
        if x == m {
            assert(out[p].members.contains(m));
        } else {
            let a = choose|a: int| 0 <= a < list.len() && (#[trigger] list[a]).members.contains(x);
            assert(out[a].members.contains(x));
        }
    }
    assert forall|a: int| 0 <= a < out.len() implies (#[trigger] out[a]).members.len() > 0 by {
        assert(list[a].members.len() > 0);
    }
}

/// The first member of a new array.
proof fn array_opens(
    list: Seq<ArrayGroupView>,
    series: Seq<Selected>,
    members: Seq<usize>,
    m: usize,
    key: ArrayKeyView,
    p: int,
)
    requires
        grouped(list, series, members),
        0 <= p <= list.len(),
        key_of(series[m as int]) == Ok::<_, Seq<char>>(key),
        forall|a: int| 0 <= a < p ==> key_before((#[trigger] list[a]).key, key),
        forall|a: int| p <= a < list.len() ==> key_before(key, (#[trigger] list[a]).key),
    ensures
        grouped(
            list.insert(p, ArrayGroupView { key, members: seq![m] }),
            series,
            members.push(m),
        ),
{
    let new = ArrayGroupView { key, members: seq![m] };
    let out = list.insert(p, new);
    let all = members.push(m);
    assert(out[p] == new);
    assert forall|a: int, b: int|
        #![trigger out[a], out[b]]
        0 <= a < b < out.len() implies key_before(out[a].key, out[b].key) by {
        let x = if a < p {
            a
        } else {
            a - 1
        };
        let y = if b < p {
            b
        } else {
            b - 1
        };
        if a != p {
            assert(out[a] == list[x]);
        }
        if b != p {
            assert(out[b] == list[y]);
        }
        if a != p && b != p {
            assert(key_before(list[x].key, list[y].key));
        }
    }
    assert forall|a: int| 0 <= a < out.len() implies (#[trigger] out[a]).members.len() > 0 by {
        if a < p {
            assert(out[a] == list[a]);
        } else if a > p {
            assert(out[a] == list[a - 1]);
        }
    }
    assert forall|a: int, i: int, j: int|
        #![trigger out[a].members[i], out[a].members[j]]
        0 <= a < out.len() && 0 <= i < j < out[a].members.len() implies stands_before(
        series,
        out[a].members[i],
        out[a].members[j],
    ) by {
        if a != p {
            let x = if a < p {
                a
            } else {
                a - 1
            };
            assert(out[a] == list[x]);
            assert(stands_before(series, list[x].members[i], list[x].members[j]));
        }
    }
    assert forall|a: int, i: int| 0 <= a < out.len() && 0 <= i < out[a].members.len() implies {
        &&& all.contains(#[trigger] out[a].members[i])
        &&& key_of(series[out[a].members[i] as int]) == Ok::<_, Seq<char>>(out[a].key)
    } by {
        if a == p {
            assert(all[members.len() as int] == m);
        } else {
            let x = if a < p {
                a
            } else {
                a - 1
            };
            assert(out[a] == list[x]);
            assert(members.contains(list[x].members[i]));
            let q = choose|q: int| 0 <= q < members.len() && members[q] == list[x].members[i];
            assert(all[q] == out[a].members[i]);
        }
    }
    assert forall|x: usize| #[trigger] all.contains(x) implies exists|a: int|
        0 <= a < out.len() && (#[trigger] out[a]).members.contains(x) by {
        if x == m {
            assert(out[p].members[0] == m);
            assert(out[p].members.contains(m));
        } else {
            let q = choose|q: int| 0 <= q < all.len() && all[q] == x;
            assert(members[q] == x);
            assert(members.contains(x));
            let a = choose|a: int| 0 <= a < list.len() && (#[trigger] list[a]).members.contains(x);
            if a < p {
                assert(out[a] == list[a]);
            } else {
                assert(out[a + 1] == list[a]);
            }
        }
    }
}

fn selected_id(s: &Selected) -> (r: i64)
    ensures
        r == id_of(*s),
{
    match s.row.id {
        Some(id) => id,
        None => 0,
    }
}

/// The first of the first `n` members whose array has no key, if there is one.
pub open spec fn first_keyless(series: Seq<Selected>, members: Seq<usize>, n: int) -> Option<
    Seq<char>,
>
    decreases n,
{
    if n <= 0 {
        None
    } else {
        match first_keyless(series, members, n - 1) {
            Some(text) => Some(text),
            None => match key_of(series[members[n - 1] as int]) {
                Err(text) => Some(text),
                Ok(_) => None,
            },
        }
    }
}

proof fn keyless_persists(series: Seq<Selected>, members: Seq<usize>, n: int, m: int)
    requires
        0 <= n <= m,
        first_keyless(series, members, n) is Some,
    ensures
        first_keyless(series, members, m) == first_keyless(series, members, n),
    decreases m - n,
{
    if n < m {
        keyless_persists(series, members, n, m - 1);
    }
}

/// Whether members are indices of series, in the order of the selection.
pub open spec fn selects(members: Seq<usize>, n: nat) -> bool {
    &&& forall|i: int| 0 <= i < members.len() ==> #[trigger] members[i] < n
    &&& forall|i: int, j: int| 0 <= i < j < members.len() ==> members[i] < members[j]
}

/// Puts a member into the list of those that read its array, behind every one that does not
/// have a greater id.
fn join_members(series: &Vec<Selected>, list: &mut Vec<usize>, m: usize) -> (at: usize)
    requires
        m < series@.len(),
        forall|i: int| 0 <= i < old(list)@.len() ==> #[trigger] old(list)@[i] < series@.len(),
        forall|i: int| 0 <= i < old(list)@.len() ==> #[trigger] old(list)@[i] < m,
        forall|i: int, j: int|
            #![trigger old(list)@[i], old(list)@[j]]
            0 <= i < j < old(list)@.len() ==> stands_before(
                series@,
                old(list)@[i],
                old(list)@[j],
            ),
    ensures
        at <= old(list)@.len(),
        final(list)@ == old(list)@.insert(at as int, m),
        forall|i: int| 0 <= i < at ==> stands_before(series@, #[trigger] old(list)@[i], m),
        forall|i: int|
            at <= i < old(list)@.len() ==> stands_before(series@, m, #[trigger] old(list)@[i]),
{
    let id: i64 = selected_id(&series[m]);
    let mut at: usize = list.len();
    while at > 0 && selected_id(&series[list[at - 1]]) > id
        invariant
            at <= list@.len(),
            m < series@.len(),
            id == id_of(series@[m as int]),
            list@ == old(list)@,
            forall|i: int| 0 <= i < list@.len() ==> #[trigger] list@[i] < series@.len(),
            forall|i: int|
                at <= i < list@.len() ==> stands_before(series@, m, #[trigger] list@[i]),
        decreases at,
    {
        at -= 1;
    }
    proof {
        assert forall|i: int| 0 <= i < at implies stands_before(
            series@,
            #[trigger] list@[i],
            m,
        ) by {
            if i < at - 1 {
                assert(stands_before(series@, list@[i], list@[at - 1]));
            }
        }
    }
    list.insert(at, m);
    at
}

/// Groups a partition's series by the array each reads.
#[verifier::rlimit(40)]
fn group_arrays(series: &Vec<Selected>, members: &Vec<usize>) -> (r: Result<
    Vec<ArrayGroup>,
    String,
>)
    requires
        all_wf(series@),
        selects(members@, series@.len()),
    ensures
        match (r, first_keyless(series@, members@, members@.len() as int)) {
            (Ok(list), None) => grouped(arrays(list@), series@, members@),
            (Err(e), Some(text)) => e@ == text,
            _ => false,
        },
{
    let mut list: Vec<ArrayGroup> = Vec::new();
    let mut k: usize = 0;
    proof {
        assert(members@.take(0) =~= seq![]);
        assert(grouped(arrays(list@), series@, members@.take(0)));
    }
    while k < members.len()
        invariant
            k <= members.len(),
            all_wf(series@),
            selects(members@, series@.len()),
            first_keyless(series@, members@, k as int) is None,
            grouped(arrays(list@), series@, members@.take(k as int)),
        decreases members.len() - k,
    {
        let m: usize = members[k];
        let ghost done = members@.take(k as int);
        let ghost was = arrays(list@);
        proof {
            assert(members@[k as int] < series@.len());
            assert(series@[m as int].wf());
            assert(members@.take(k + 1) =~= done.push(m));
            assert forall|x: usize| #[trigger] done.contains(x) implies x < m by {
                let q = choose|q: int| 0 <= q < done.len() && done[q] == x;
                assert(members@[q] < members@[k as int]);
            }
        }
        let key = match array_key(&series[m]) {
            Ok(key) => key,
            Err(e) => {
                proof {
                    keyless_persists(series@, members@, k + 1, members@.len() as int);
                }
                return Err(e);
            },
        };
        let mut p: usize = list.len();
        while p > 0 && !list[p - 1].key.less(&key)
            invariant
                p <= list@.len(),
                arrays(list@) == was,
                forall|a: int|
                    p <= a < was.len() ==> !key_before((#[trigger] was[a]).key, key@),
            decreases p,
        {
            proof {
                assert(was[p - 1] == list@[p - 1]@);
            }
            p -= 1;
        }
        proof {
            assert(was.len() == list@.len());
            if p > 0 {
                assert(was[p - 1] == list@[p - 1]@);
                assert(key_before(was[p - 1].key, key@));
            }
            assert forall|a: int| 0 <= a < p implies key_before((#[trigger] was[a]).key, key@) by {
                if a < p - 1 {
                    assert(key_before(was[a].key, was[p - 1].key));
                    key_order(was[a].key, was[p - 1].key, key@);
                }
            }
        }
        if p < list.len() && list[p].key.same(&key) {
            let ghost before = list@;
            let mut group = list.remove(p);
            proof {
                assert(group == before[p as int]);
                assert(was[p as int] == group@);
                assert forall|i: int| 0 <= i < group.members@.len() implies
                    #[trigger] group.members@[i] < m && group.members@[i] < series@.len() by {
                    assert(done.contains(was[p as int].members[i]));
                }
                assert forall|i: int, j: int|
                    #![trigger group.members@[i], group.members@[j]]
                    0 <= i < j < group.members@.len() implies stands_before(
                    series@,
                    group.members@[i],
                    group.members@[j],
                ) by {
                    assert(stands_before(
                        series@,
                        was[p as int].members[i],
                        was[p as int].members[j],
                    ));
                }
            }
            let at: usize = join_members(series, &mut group.members, m);
            let ghost joined_view = group@;
            list.insert(p, group);
            proof {
                member_joins(was, series@, done, m, p as int, at as int);
                assert(arrays(list@) =~= was.update(p as int, joined_view));
            }
        } else {
            proof {
                assert forall|a: int| p <= a < was.len() implies key_before(
                    key@,
                    (#[trigger] was[a]).key,
                ) by {
                    key_order(was[a].key, key@, was[a].key);
                    if a == p {
                        assert(was[p as int] == list@[p as int]@);
                    } else {
                        assert(key_before(was[p as int].key, was[a].key));
                        assert(was[p as int] == list@[p as int]@);
                        key_order(was[p as int].key, key@, was[a].key);
                        key_order(key@, was[p as int].key, was[a].key);
                    }
                }
                array_opens(was, series@, done, m, key@, p as int);
            }
            let mut only: Vec<usize> = Vec::new();
            only.push(m);
            let group = ArrayGroup { key, members: only };
            let ghost new = group@;
            list.insert(p, group);
            proof {
                assert(only@ =~= seq![m]);
                assert(arrays(list@) =~= was.insert(p as int, new));
            }
        }
        k += 1;
    }
    proof {
        assert(members@.take(k as int) =~= members@);
    }
    Ok(list)
}

// ---- One partition ------------------------------------------------------------------------------

/// The first dimension of a row's per-step shape, or zero.
pub open spec fn stored_width(row: MetadataView) -> nat {
    if row.per_step().len() == 0 {
        0
    } else {
        row.per_step()[0] as nat
    }
}

/// The widest of the first `n` members, and at least one.
pub open spec fn widest(series: Seq<Selected>, members: Seq<usize>, n: int) -> nat
    decreases n,
{
    if n <= 0 {
        1
    } else {
        let rest = widest(series, members, n - 1);
        let here = stored_width(series[members[n - 1] as int].row@);
        if here > rest {
            here
        } else {
            rest
        }
    }
}

/// The width a partition of function data settles on: that of its widest series. It comes from
/// the catalog rows alone.
pub open spec fn settled_width(
    value: KindView,
    series: Seq<Selected>,
    members: Seq<usize>,
) -> Option<usize> {
    if value is Composite {
        Some(widest(series, members, members.len() as int) as usize)
    } else {
        None
    }
}

fn composite_width(series: &Vec<Selected>, members: &Vec<usize>) -> (r: usize)
    requires
        selects(members@, series@.len()),
    ensures
        r == widest(series@, members@, members@.len() as int),
        r >= 1,
        forall|k: int|
            0 <= k < members@.len() && series@[members@[k] as int].row@.per_step().len() > 0 ==> (
            #[trigger] series@[members@[k] as int]).row@.per_step()[0] <= r,
{
    let mut width: usize = 1;
    let mut k: usize = 0;
    while k < members.len()
        invariant
            k <= members.len(),
            selects(members@, series@.len()),
            width == widest(series@, members@, k as int),
        decreases members.len() - k,
    {
        proof {
            assert(members@[k as int] < series@.len());
        }
        let shape = per_step_shape(&series[members[k]].row);
        let here: usize = if shape.len() == 0 {
            0
        } else {
            shape[0]
        };
        if here > width {
            width = here;
        }
        k += 1;
    }
    proof {
        widest_covers(series@, members@, members@.len() as int);
    }
    width
}

/// What one partition's two files hold: its tables, and its arrays in order with the series
/// that read each.
#[derive(Debug)]
pub struct PartitionPlan {
    pub table: PartitionSchema,
    pub arrays: Vec<ArrayGroup>,
}

/// Why a partition cannot be written, if it cannot: its value column has no type, or one of its
/// arrays no key.
pub open spec fn partition_fault(
    key: PartitionView,
    series: Seq<Selected>,
    members: Seq<usize>,
) -> Option<Seq<char>> {
    match value_type(key.value, settled_width(key.value, series, members)) {
        Err(text) => Some(text),
        Ok(_) => first_keyless(series, members, members.len() as int),
    }
}

/// Lays one partition of an export out: both of its files hold its arrays in the order of
/// their keys, and the series of an array in the order of their ids.
pub fn plan_partition(key: PartitionKey, members: &Vec<usize>, series: &Vec<Selected>) -> (r:
    Result<PartitionPlan, String>)
    requires
        all_wf(series@),
        selects(members@, series@.len()),
    ensures
        match (r, partition_fault(key@, series@, members@)) {
            (Ok(plan), None) => {
                &&& grouped(arrays(plan.arrays@), series@, members@)
                &&& is_table_of(
                    plan.table,
                    key,
                    settled_width(key@.value, series@, members@),
                )
            },
            (Err(e), Some(text)) => e@ == text,
            _ => false,
        },
{
    let width: Option<usize> = if key.value_kind.is_composite() {
        Some(composite_width(series, members))
    } else {
        None
    };
    let table = match PartitionSchema::new(key, width) {
        Ok(table) => table,
        Err(e) => {
            return Err(e);
        },
    };
    match group_arrays(series, members) {
        Ok(arrays) => Ok(PartitionPlan { table, arrays }),
        Err(e) => Err(e),
    }
}

/// Whether a value is the two tables of a partition.
pub open spec fn is_table_of(table: PartitionSchema, key: PartitionKey, width: Option<usize>) -> bool {
    &&& table.key == key
    &&& table.composite_width == width
    &&& value_type(key@.value, width) is Ok
    &&& columns(table.values.columns@) == values_columns(
        key@.kind,
        zone_of(key@.reference),
        value_type(key@.value, width)->Ok_0,
    )
    &&& columns(table.series.columns@) == series_columns(key@.kind, zone_of(key@.reference))
    &&& table.values.footer@ == footer_of(key@, width, ROLE_VALUES@)
    &&& table.series.footer@ == footer_of(key@, width, ROLE_SERIES@)
}

proof fn widest_is_a_size(series: Seq<Selected>, members: Seq<usize>, n: int)
    ensures
        widest(series, members, n) <= usize::MAX,
    decreases n,
{
    if n > 0 {
        widest_is_a_size(series, members, n - 1);
    }
}

/// The running width is at least one, no less than that of any member looked at, and no more
/// than it has to be.
proof fn widest_covers(series: Seq<Selected>, members: Seq<usize>, n: int)
    requires
        0 <= n <= members.len(),
    ensures
        widest(series, members, n) >= 1,
        forall|k: int|
            0 <= k < n && series[members[k] as int].row@.per_step().len() > 0 ==> (
            #[trigger] series[members[k] as int]).row@.per_step()[0] <= widest(series, members, n),
        widest(series, members, n) == 1 || exists|k: int|
            0 <= k < n && (#[trigger] series[members[k] as int]).row@.per_step().len() > 0
                && series[members[k] as int].row@.per_step()[0] == widest(series, members, n),
    decreases n,
{
    if n > 0 {
        widest_covers(series, members, n - 1);
        assert(series[members[n - 1] as int] == series[members[n - 1] as int]);
    }
}

/// The width of a planned partition of function data is a bound on its members and one that is
/// met: every member's step fits into it, and it is one or else the step of some member.
pub proof fn planned_width_bounds_every_member(
    key: PartitionKey,
    members: Vec<usize>,
    series: Vec<Selected>,
    r: Result<PartitionPlan, String>,
)
    requires
        call_ensures(plan_partition, (key, &members, &series), r),
        r is Ok,
        key@.value is Composite,
        selects(members@, series@.len()),
    ensures
        ({
            let w = r->Ok_0.table.width();
            &&& w >= 1
            &&& forall|k: int|
                0 <= k < members@.len() && series@[members@[k] as int].row@.per_step().len() > 0
                    ==> (#[trigger] series@[members@[k] as int]).row@.per_step()[0] <= w
            &&& w == 1 || exists|k: int|
                0 <= k < members@.len() && (
                #[trigger] series@[members@[k] as int]).row@.per_step().len() > 0
                    && series@[members@[k] as int].row@.per_step()[0] == w
        }),
{
    widest_covers(series@, members@, members@.len() as int);
    widest_is_a_size(series@, members@, members@.len() as int);
}

/// No member of a planned partition of function data is turned away for its width: its values
/// are written unless they cannot be read themselves, whichever members come before it.
pub proof fn every_member_fits_its_partition(
    key: PartitionKey,
    members: Vec<usize>,
    series: Vec<Selected>,
    r: Result<PartitionPlan, String>,
    k: int,
    element_bytes: nat,
    data: DataView,
)
    requires
        call_ensures(plan_partition, (key, &members, &series), r),
        r is Ok,
        key@.value is Composite,
        selects(members@, series@.len()),
        0 <= k < members@.len(),
        series@[members@[k] as int].row@.per_step().len() <= 1,
    ensures
        ({
            let table = r->Ok_0.table;
            let row = series@[members@[k] as int].row@;
            &&& width_of(row.per_step()) <= table.width()
            &&& rows_of(data) is Ok && (element_bytes == 0 || element_bytes
                == data.array.dtype.bytes()) && same_form(data.axis.kind(), key@.kind)
                && rows_inside(
                rows_of(data)->Ok_0,
                (width_of(row.per_step()) * data.array.dtype.bytes()) as int,
                data.array.bytes.len() as int,
            ) ==> array_fault(table, element_bytes, row, data) is None
        }),
{
    let row = series@[members@[k] as int].row@;
    planned_width_bounds_every_member(key, members, series, r);
    assert(series@[members@[k] as int] == series@[members@[k] as int]);
    if row.per_step().len() == 1 {
        product_of_one(row.per_step()[0]);
        assert(row.per_step() =~= seq![row.per_step()[0]]);
    } else {
        assert(row.per_step() =~= Seq::<usize>::empty());
    }
}

// ---- Reports -------------------------------------------------------------------------------------

/// One partition the export wrote: its two files and what they hold.
#[derive(Debug, Clone)]
pub struct WrittenPartition {
    pub stem: String,
    pub values_path: String,
    pub series_path: String,
    pub time_series_type: TimeSeriesType,
    pub value_slug: String,
    pub reference: String,
    /// Distinct arrays, which is how many groups the values file holds.
    pub arrays: usize,
    /// Series, which is how many rows the series file holds.
    pub series: usize,
    /// Value rows, which is how many the values file holds.
    pub rows: usize,
}

/// What an export did.
#[derive(Debug, Clone)]
pub struct ExportReport {
    pub partitions: Vec<WrittenPartition>,
}

impl Default for ExportReport {
    fn default() -> (r: ExportReport)
        ensures
            r.partitions@.len() == 0,
    {
        ExportReport { partitions: Vec::new() }
    }
}

/// The sum of a number over the first `n` partitions.
pub open spec fn total(
    partitions: Seq<WrittenPartition>,
    of: spec_fn(WrittenPartition) -> usize,
    n: int,
) -> nat
    decreases n,
{
    if n <= 0 {
        0
    } else {
        total(partitions, of, n - 1) + of(partitions[n - 1]) as nat
    }
}

proof fn total_grows(
    partitions: Seq<WrittenPartition>,
    of: spec_fn(WrittenPartition) -> usize,
    n: int,
    m: int,
)
    requires
        0 <= n <= m,
    ensures
        total(partitions, of, n) <= total(partitions, of, m),
    decreases m - n,
{
    if n < m {
        total_grows(partitions, of, n, m - 1);
    }
}

/// The paths of the first `n` partitions' files, values and series alike.
pub open spec fn file_list(partitions: Seq<WrittenPartition>, n: int) -> Seq<Seq<char>>
    decreases n,
{
    if n <= 0 {
        seq![]
    } else {
        file_list(partitions, n - 1).push(partitions[n - 1].values_path@).push(
            partitions[n - 1].series_path@,
        )
    }
}

proof fn two_files_each(partitions: Seq<WrittenPartition>, n: int)
    requires
        0 <= n,
    ensures
        file_list(partitions, n).len() == 2 * n,
    decreases n,
{
    if n > 0 {
        two_files_each(partitions, n - 1);
    }
}

proof fn series_total(
    partitions: Seq<WrittenPartition>,
    parts: Seq<PartitionView>,
    keys: Seq<PartitionView>,
    g: int,
)
    requires
        0 <= g <= partitions.len(),
        forall|h: int|
            0 <= h < partitions.len() ==> (#[trigger] partitions[h]).series == members_of(
                parts,
                keys[h],
                parts.len() as int,
            ).len(),
    ensures
        total(partitions, |p: WrittenPartition| p.series, g) == members_in_all(
            parts,
            keys,
            g,
            parts.len() as int,
        ),
    decreases g,
{
    if g > 0 {
        series_total(partitions, parts, keys, g - 1);
        assert(partitions[g - 1].series == members_of(
            parts,
            keys[g - 1],
            parts.len() as int,
        ).len());
    }
}

/// An export that reports the members of each of its partitions reports every series once.
pub proof fn every_series_is_reported(report: ExportReport, parts: Seq<PartitionView>)
    requires
        report.partitions@.len() == ordered(parts).len(),
        forall|g: int|
            0 <= g < report.partitions@.len() ==> (#[trigger] report.partitions@[g]).series
                == members_of(parts, ordered(parts)[g], parts.len() as int).len(),
    ensures
        report.all_series() == parts.len(),
{
    partitions_hold_every_series(parts);
    series_total(report.partitions@, parts, ordered(parts), report.partitions@.len() as int);
}

impl ExportReport {
    /// How many value rows were written.
    pub open spec fn all_rows(self) -> nat {
        total(self.partitions@, |p: WrittenPartition| p.rows, self.partitions@.len() as int)
    }

    /// How many series were written.
    pub open spec fn all_series(self) -> nat {
        total(self.partitions@, |p: WrittenPartition| p.series, self.partitions@.len() as int)
    }

    /// How many distinct arrays were written.
    pub open spec fn all_arrays(self) -> nat {
        total(self.partitions@, |p: WrittenPartition| p.arrays, self.partitions@.len() as int)
    }

    /// How many value rows were written.
    pub fn rows(&self) -> (r: usize)
        requires
            self.all_rows() <= usize::MAX,
        ensures
            r == self.all_rows(),
    {
        let ghost of = |p: WrittenPartition| p.rows;
        let mut sum: usize = 0;
        let mut i: usize = 0;
        while i < self.partitions.len()
            invariant
                i <= self.partitions.len(),
                of == (|p: WrittenPartition| p.rows),
                sum == total(self.partitions@, of, i as int),
                self.all_rows() <= usize::MAX,
            decreases self.partitions.len() - i,
        {
            proof {
                total_grows(self.partitions@, of, i + 1, self.partitions@.len() as int);
            }
            sum += self.partitions[i].rows;
            i += 1;
        }
        sum
    }

    /// How many series were written.
    pub fn series(&self) -> (r: usize)
        requires
            self.all_series() <= usize::MAX,
        ensures
            r == self.all_series(),
    {
        let ghost of = |p: WrittenPartition| p.series;
        let mut sum: usize = 0;
        let mut i: usize = 0;
        while i < self.partitions.len()
            invariant
                i <= self.partitions.len(),
                of == (|p: WrittenPartition| p.series),
                sum == total(self.partitions@, of, i as int),
                self.all_series() <= usize::MAX,
            decreases self.partitions.len() - i,
        {
            proof {
                total_grows(self.partitions@, of, i + 1, self.partitions@.len() as int);
            }
            sum += self.partitions[i].series;
            i += 1;
        }
        sum
    }

    /// How many distinct arrays were written.
    pub fn arrays(&self) -> (r: usize)
        requires
            self.all_arrays() <= usize::MAX,
        ensures
            r == self.all_arrays(),
    {
        let ghost of = |p: WrittenPartition| p.arrays;
        let mut sum: usize = 0;
        let mut i: usize = 0;
        while i < self.partitions.len()
            invariant
                i <= self.partitions.len(),
                of == (|p: WrittenPartition| p.arrays),
                sum == total(self.partitions@, of, i as int),
                self.all_arrays() <= usize::MAX,
            decreases self.partitions.len() - i,
        {
            proof {
                total_grows(self.partitions@, of, i + 1, self.partitions@.len() as int);
            }
            sum += self.partitions[i].arrays;
            i += 1;
        }
        sum
    }

    /// Every file written, values and series alike.
    pub fn files(&self) -> (r: Vec<String>)
        ensures
            texts(r@) == file_list(self.partitions@, self.partitions@.len() as int),
            r@.len() == 2 * self.partitions@.len(),
    {
        let mut out: Vec<String> = Vec::new();
        let mut i: usize = 0;
        proof {
            assert(texts(out@) =~= seq![]);
        }
        while i < self.partitions.len()
            invariant
                i <= self.partitions.len(),
                texts(out@) == file_list(self.partitions@, i as int),
            decreases self.partitions.len() - i,
        {
            let ghost was = out@;
            out.push(self.partitions[i].values_path.clone());
            out.push(self.partitions[i].series_path.clone());
            proof {
                assert(texts(out@) =~= texts(was).push(
                    self.partitions@[i as int].values_path@,
                ).push(self.partitions@[i as int].series_path@));
            }
            i += 1;
        }
        proof {
            two_files_each(self.partitions@, i as int);
            assert(texts(out@).len() == out@.len());
        }
        out
    }
}

// ---- What a plan holds ----------------------------------------------------------------------

/// The key of a series' array is the hash of its own values and the spelling of its own time axis.
pub proof fn array_keys_are_of_their_own_series(s: Selected, r: Result<ArrayKey, String>)
    requires
        call_ensures(array_key, (&s,), r),
        s.wf(),
        r is Ok,
    ensures
        s.data_hash matches Ok(hash) && r->Ok_0.data_hash@ == hash@,
        s.data@.axis is NonSequentialTimeSeries || s.data@.axis is PersistentTimeSeries
            ==> r->Ok_0.time_axis@ == s.timestamps_hash@,
        r->Ok_0.time_axis@ == time_axis_text(s.data@.axis, s.timestamps_hash@),
{
}

proof fn members_are_of_the_key(parts: Seq<PartitionView>, key: PartitionView, n: int, m: int)
    requires
        0 <= n <= parts.len() <= usize::MAX,
        0 <= m < members_of(parts, key, n).len(),
    ensures
        parts[members_of(parts, key, n)[m] as int] == key,
    decreases n,
{
    if n > 0 {
        if m < members_of(parts, key, n - 1).len() {
            members_are_of_the_key(parts, key, n - 1, m);
        }
    }
}

proof fn those_of_the_key_are_members(parts: Seq<PartitionView>, key: PartitionView, n: int, i: int)
    requires
        0 <= i < n <= parts.len() <= usize::MAX,
        parts[i] == key,
    ensures
        members_of(parts, key, n).contains(i as usize),
    decreases n,
{
    let all = members_of(parts, key, n);
    if i == n - 1 {
        assert(all.last() == i as usize);
        assert(all[all.len() - 1] == i as usize);
    } else {
        those_of_the_key_are_members(parts, key, n - 1, i);
        let rest = members_of(parts, key, n - 1);
        let m = choose|m: int| 0 <= m < rest.len() && rest[m] == i as usize;
        assert(all[m] == i as usize);
    }
}

/// A plan puts every series into one group, and into the group of its own partition: the group's
/// key is what the series' row says, whichever series it is.
pub proof fn groups_hold_their_own_series(
    series: Vec<Selected>,
    r: Result<Vec<Group>, String>,
    g: int,
    i: int,
)
    requires
        call_ensures(plan_groups, (&series,), r),
        all_wf(series@),
        series@.len() < 0x1000_0000_0000_0000,
        series@.len() <= usize::MAX,
        r is Ok,
        0 <= g < r->Ok_0@.len(),
        0 <= i < series@.len(),
    ensures
        r->Ok_0@[g].members@.contains(i as usize) <==> series@[i].row@.partition()
            == r->Ok_0@[g].key@,
        exists|h: int| 0 <= h < r->Ok_0@.len() && (#[trigger] r->Ok_0@[h]).key@
            == series@[i].row@.partition(),
{
    let parts = partition_list(series@);
    let keys = ordered(parts);
    let groups = r->Ok_0@;
    assert(groups[g].key@ == keys[g]);
    assert(parts[i] == series@[i].row@.partition());
    if groups[g].members@.contains(i as usize) {
        let m = choose|m: int| 0 <= m < groups[g].members@.len() && groups[g].members@[m] == i as usize;
        members_are_of_the_key(parts, keys[g], series@.len() as int, m);
    }
    if parts[i] == keys[g] {
        those_of_the_key_are_members(parts, keys[g], series@.len() as int, i);
    }
    crate::partition::keys_come_sorted(parts);
    assert(parts.contains(parts[i]));
    assert(keys.contains(parts[i]));
    let h = choose|h: int| 0 <= h < keys.len() && keys[h] == parts[i];
    assert(groups[h].key@ == keys[h]);
}

/// Groups come in the order of their partitions, no two for one, each under a name of its own,
/// whatever the case of its letters.
pub proof fn groups_are_named_apart(
    series: Vec<Selected>,
    r: Result<Vec<Group>, String>,
    g: int,
    h: int,
)
    requires
        call_ensures(plan_groups, (&series,), r),
        all_wf(series@),
        series@.len() < 0x1000_0000_0000_0000,
        r is Ok,
        0 <= g < h < r->Ok_0@.len(),
    ensures
        r->Ok_0@[g].key@ != r->Ok_0@[h].key@,
        !crate::partition::partition_before(r->Ok_0@[h].key@, r->Ok_0@[g].key@),
        crate::filename::lower_text(r->Ok_0@[g].stem@ + ".parquet"@) != crate::filename::lower_text(
            r->Ok_0@[h].stem@ + ".parquet"@,
        ),
{
    let parts = partition_list(series@);
    let keys = ordered(parts);
    crate::partition::keys_come_sorted(parts);
    crate::partition::names_are_distinct(keys);
    assert(r->Ok_0@[g].key@ == keys[g]);
    assert(r->Ok_0@[h].key@ == keys[h]);
    assert(names_for(keys)[g] == r->Ok_0@[g].stem@ + ".parquet"@);
    assert(names_for(keys)[h] == r->Ok_0@[h].stem@ + ".parquet"@);
}

/// In a planned partition two series are under one array exactly where their arrays have one key;
/// arrays come in the order of their keys, and the series of an array in the order of their ids,
/// those without one, or with the same, in the order they were selected.
pub proof fn arrays_gather_series_of_one_key(
    key: PartitionKey,
    members: Vec<usize>,
    series: Vec<Selected>,
    r: Result<PartitionPlan, String>,
    a: int,
    i: int,
    b: int,
    j: int,
)
    requires
        call_ensures(plan_partition, (key, &members, &series), r),
        r is Ok,
        0 <= a < r->Ok_0.arrays@.len(),
        0 <= b < r->Ok_0.arrays@.len(),
        0 <= i < r->Ok_0.arrays@[a].members@.len(),
        0 <= j < r->Ok_0.arrays@[b].members@.len(),
    ensures
        ({
            let list = r->Ok_0.arrays@;
            let s = series@[list[a].members@[i] as int];
            let t = series@[list[b].members@[j] as int];
            &&& s.data_hash matches Ok(hash) && hash@ == list[a].key.data_hash@
            &&& time_axis_text(s.data@.axis, s.timestamps_hash@) == list[a].key.time_axis@
            &&& a == b <==> list[a].key@ == list[b].key@
            &&& a < b ==> key_before(list[a].key@, list[b].key@)
            &&& a == b && i < j ==> match (s.row.id, t.row.id) {
                (Some(x), Some(y)) => x < y || x == y && list[a].members@[i] < list[b].members@[j],
                (None, Some(y)) => 0 < y || 0 == y && list[a].members@[i] < list[b].members@[j],
                (Some(x), None) => x < 0 || x == 0 && list[a].members@[i] < list[b].members@[j],
                (None, None) => list[a].members@[i] < list[b].members@[j],
            }
        }),
{
    let list = arrays(r->Ok_0.arrays@);
    assert(list[a] == r->Ok_0.arrays@[a]@);
    assert(list[b] == r->Ok_0.arrays@[b]@);
    assert(members@.contains(list[a].members[i]));
    assert(members@.contains(list[b].members[j]));
    if a < b {
        assert(key_before(list[a].key, list[b].key));
        key_order(list[a].key, list[b].key, list[a].key);
    } else if b < a {
        assert(key_before(list[b].key, list[a].key));
        key_order(list[b].key, list[a].key, list[b].key);
    } else if i < j {
        assert(stands_before(series@, list[a].members[i], list[a].members[j]));
    }
}

proof fn totals_add_up(
    partitions: Seq<WrittenPartition>,
    more: WrittenPartition,
    of: spec_fn(WrittenPartition) -> usize,
    n: int,
)
    requires
        0 <= n <= partitions.len(),
    ensures
        total(partitions.push(more), of, n) == total(partitions, of, n),
    decreases n,
{
    if n > 0 {
        totals_add_up(partitions, more, of, n - 1);
        assert(partitions.push(more)[n - 1] == partitions[n - 1]);
    }
}

/// One more partition adds its own rows, series and arrays to a report, each to its own total,
/// and its two files to the list, the values before the series.
pub proof fn partitions_add_to_a_report(
    report: ExportReport,
    longer: ExportReport,
    more: WrittenPartition,
    rows: (usize, usize),
    series: (usize, usize),
    arrays: (usize, usize),
    files: (Vec<String>, Vec<String>),
)
    requires
        longer.partitions@ == report.partitions@.push(more),
        longer.all_rows() <= usize::MAX,
        longer.all_series() <= usize::MAX,
        longer.all_arrays() <= usize::MAX,
        call_ensures(ExportReport::rows, (&report,), rows.0),
        call_ensures(ExportReport::rows, (&longer,), rows.1),
        call_ensures(ExportReport::series, (&report,), series.0),
        call_ensures(ExportReport::series, (&longer,), series.1),
        call_ensures(ExportReport::arrays, (&report,), arrays.0),
        call_ensures(ExportReport::arrays, (&longer,), arrays.1),
        call_ensures(ExportReport::files, (&report,), files.0),
        call_ensures(ExportReport::files, (&longer,), files.1),
    ensures
        rows.1 == rows.0 + more.rows,
        series.1 == series.0 + more.series,
        arrays.1 == arrays.0 + more.arrays,
        texts(files.1@) == texts(files.0@).push(more.values_path@).push(more.series_path@),
{
    let n = report.partitions@.len() as int;
    totals_add_up(report.partitions@, more, |p: WrittenPartition| p.rows, n);
    totals_add_up(report.partitions@, more, |p: WrittenPartition| p.series, n);
    totals_add_up(report.partitions@, more, |p: WrittenPartition| p.arrays, n);
    lists_add_up(report.partitions@, more, n);
    assert(longer.partitions@[n] == more);
}

proof fn lists_add_up(partitions: Seq<WrittenPartition>, more: WrittenPartition, n: int)
    requires
        0 <= n <= partitions.len(),
    ensures
        file_list(partitions.push(more), n) == file_list(partitions, n),
    decreases n,
{
    if n > 0 {
        lists_add_up(partitions, more, n - 1);
        assert(partitions.push(more)[n - 1] == partitions[n - 1]);
    }
}

proof fn all_are_readable(series: Seq<Selected>, n: int)
    requires
        0 <= n <= series.len(),
    ensures
        first_unreadable(series, n) is None <==> forall|i: int|
            0 <= i < n ==> rows_of((#[trigger] series[i]).data@) is Ok,
    decreases n,
{
    if n > 0 {
        all_are_readable(series, n - 1);
        assert(series[n - 1].data@ == series[n - 1].data@);
        if first_unreadable(series, n) is None {
            assert forall|i: int| 0 <= i < n implies rows_of(
                (#[trigger] series[i]).data@,
            ) is Ok by {
                if i < n - 1 {
                    assert(first_unreadable(series, n - 1) is None);
                }
            }
        }
    }
}

proof fn none_is_empty(series: Seq<Selected>, n: int)
    requires
        0 <= n <= series.len(),
    ensures
        empty_series(series, n).len() == 0 <==> forall|i: int|
            0 <= i < n ==> rows_of((#[trigger] series[i]).data@)->Ok_0.len() > 0,
    decreases n,
{
    if n > 0 {
        none_is_empty(series, n - 1);
        if empty_series(series, n).len() == 0 {
            assert forall|i: int| 0 <= i < n implies rows_of(
                (#[trigger] series[i]).data@,
            )->Ok_0.len() > 0 by {
                if i < n - 1 {
                    assert(empty_series(series, n - 1).len() == 0);
                }
            }
        } else if empty_series(series, n - 1).len() == 0 {
            assert(rows_of(series[n - 1].data@)->Ok_0.len() == 0);
        }
    }
}

/// A selection is planned exactly where every series of it has rows to write: one whose rows
/// cannot be told, or that has none, is refused rather than left out.
pub proof fn selections_are_planned_whole(series: Vec<Selected>, r: Result<Vec<Group>, String>)
    requires
        call_ensures(plan_groups, (&series,), r),
    ensures
        r is Ok <==> forall|i: int|
            0 <= i < series@.len() ==> rows_of((#[trigger] series@[i]).data@) is Ok && rows_of(
                series@[i].data@,
            )->Ok_0.len() > 0,
{
    all_are_readable(series@, series@.len() as int);
    none_is_empty(series@, series@.len() as int);
    if r is Ok {
        assert forall|i: int| 0 <= i < series@.len() implies rows_of(
            (#[trigger] series@[i]).data@,
        ) is Ok && rows_of(series@[i].data@)->Ok_0.len() > 0 by {}
    }
}

proof fn all_have_keys(series: Seq<Selected>, members: Seq<usize>, n: int)
    requires
        0 <= n <= members.len(),
    ensures
        first_keyless(series, members, n) is None <==> forall|i: int|
            0 <= i < n ==> key_of(series[#[trigger] members[i] as int]) is Ok,
    decreases n,
{
    if n > 0 {
        all_have_keys(series, members, n - 1);
        if first_keyless(series, members, n) is None {
            assert forall|i: int| 0 <= i < n implies key_of(
                series[#[trigger] members[i] as int],
            ) is Ok by {
                if i < n - 1 {
                    assert(first_keyless(series, members, n - 1) is None);
                }
            }
        } else if first_keyless(series, members, n - 1) is None {
            assert(key_of(series[members[n - 1] as int]) is Err);
        }
    }
}

/// A partition of plain elements or tuples is planned exactly where every series of it has rows
/// and a hash, and no axis of a step is longer than a list may be.
pub proof fn partitions_are_planned_whole(
    key: PartitionKey,
    members: Vec<usize>,
    series: Vec<Selected>,
    value: Result<ColumnType, String>,
    r: Result<PartitionPlan, String>,
)
    requires
        call_ensures(plan_partition, (key, &members, &series), r),
        call_ensures(value_data_type, (&key.value_kind, None::<usize>), value),
        !(key@.value is Composite),
    ensures
        r is Ok <==> value is Ok && forall|i: int|
            0 <= i < members@.len() ==> {
                let s = series@[#[trigger] members@[i] as int];
                rows_of(s.data@) is Ok && s.data_hash is Ok
            },
        r is Ok ==> r->Ok_0.table.key == key && r->Ok_0.table.composite_width is None,
{
    all_have_keys(series@, members@, members@.len() as int);
    assert forall|i: int| 0 <= i < members@.len() implies (key_of(
        series@[#[trigger] members@[i] as int],
    ) is Ok <==> rows_of(series@[members@[i] as int].data@) is Ok
        && series@[members@[i] as int].data_hash is Ok) by {}
}

/// The leading axes of an array are its first ones, as many as its type has, or all of them where
/// it has fewer.
pub proof fn leading_axes_come_first(
    kind: TimeSeriesType,
    array: TypedArray,
    axes: usize,
    r: Vec<usize>,
)
    requires
        call_ensures(leading_shape, (kind, &array), r),
        call_ensures(TimeSeriesType::leading_dims, (kind,), axes),
    ensures
        r@.len() <= array.shape@.len(),
        axes <= array.shape@.len() ==> r@.len() == axes,
        axes > array.shape@.len() ==> r@ == array.shape@,
        forall|i: int| 0 <= i < r@.len() ==> #[trigger] r@[i] == array.shape@[i],
{
}

} // verus!
