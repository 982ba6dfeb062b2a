//! The files of a directory: which of them are partitions, and which stand in the way of an
//! export.
use crate::filename::{lower_text, same_folded};
use crate::partition::{series_name, values_name};
use crate::series::opt_text;
use crate::text::{
    before, before_irreflexive, before_total, before_transitive, chars_of, decimal, decimal_text,
    join, joined, same_text, text_less, text_of, texts,
};
use vstd::prelude::*;

verus! {

/// How the name of a series half ends.
pub const SERIES_SUFFIX: &'static str = ".series.parquet";

/// How the name of a values half ends.
pub const VALUES_SUFFIX: &'static str = ".values.parquet";

// ---- Names ------------------------------------------------------------------------------

/// Where the last dot of a name is, if it has one.
pub open spec fn last_dot(name: Seq<char>) -> Option<int>
    decreases name.len(),
{
    if name.len() == 0 {
        None
    } else if name.last() == '.' {
        Some(name.len() - 1)
    } else {
        last_dot(name.drop_last())
    }
}

/// What follows the last dot of a file's name. A dot at the very front makes a hidden file and
/// no extension.
pub open spec fn extension(name: Seq<char>) -> Option<Seq<char>> {
    match last_dot(name) {
        Some(i) => if i == 0 {
            None
        } else {
            Some(name.skip(i + 1))
        },
        None => None,
    }
}

/// Whether a file's name has the extension of a Parquet file, in whatever case.
pub open spec fn is_parquet(name: Seq<char>) -> bool {
    match extension(name) {
        Some(e) => lower_text(e) == lower_text("parquet"@),
        None => false,
    }
}

/// Whether a file's name has the extension of a Parquet file.
pub fn names_parquet(name: &str) -> (r: bool)
    ensures
        r == is_parquet(name@),
{
    let chars = chars_of(name);
    let mut i: usize = chars.len();
    proof {
        assert(chars@.take(i as int) =~= chars@);
    }
    while i > 0
        invariant
            i <= chars.len(),
            chars@ == name@,
            last_dot(name@) == last_dot(name@.take(i as int)),
        decreases i,
    {
        proof {
            assert(name@.take(i as int).drop_last() =~= name@.take(i - 1));
            assert(name@.take(i as int).last() == chars@[i - 1]);
        }
        if chars[i - 1] == '.' {
            if i == 1 {
                return false;
            }
            let mut rest: Vec<char> = Vec::new();
            let mut k: usize = i;
            while k < chars.len()
                invariant
                    1 <= i <= k <= chars.len(),
                    rest@ == chars@.subrange(i as int, k as int),
                decreases chars.len() - k,
            {
                rest.push(chars[k]);
                k += 1;
            }
            proof {
                assert(rest@ =~= name@.skip(i as int));
            }
            return same_folded(text_of(&rest).as_str(), "parquet");
        }
        i -= 1;
    }
    false
}

/// What stands before a suffix, if a name ends with it.
pub open spec fn without(name: Seq<char>, suffix: Seq<char>) -> Option<Seq<char>> {
    if suffix.len() <= name.len() && name.skip(name.len() - suffix.len()) == suffix {
        Some(name.take(name.len() - suffix.len()))
    } else {
        None
    }
}

/// What stands before a suffix, if a name ends with it.
pub fn strip_suffix(name: &str, suffix: &str) -> (r: Option<String>)
    ensures
        opt_text(r) == without(name@, suffix@),
{
    let chars = chars_of(name);
    let end = chars_of(suffix);
    if end.len() > chars.len() {
        return None;
    }
    let n: usize = chars.len() - end.len();
    let mut k: usize = 0;
    while k < end.len()
        invariant
            k <= end.len(),
            n + end.len() == chars.len(),
            chars@ == name@,
            end@ == suffix@,
            forall|j: int| 0 <= j < k ==> chars@[n + j] == end@[j],
        decreases end.len() - k,
    {
        if chars[n + k] != end[k] {
            proof {
                assert(name@.skip(n as int)[k as int] != suffix@[k as int]);
            }
            return None;
        }
        k += 1;
    }
    proof {
        assert(name@.skip(n as int) =~= suffix@);
    }
    let mut out: Vec<char> = Vec::new();
    let mut i: usize = 0;
    while i < n
        invariant
            i <= n <= chars.len(),
            chars@ == name@,
            out@ == name@.take(i as int),
        decreases n - i,
    {
        out.push(chars[i]);
        i += 1;
    }
    Some(text_of(&out))
}

/// The stem of a values half's name, if it is one.
pub fn stem_of(name: &str) -> (r: Option<String>)
    ensures
        opt_text(r) == without(name@, VALUES_SUFFIX@),
{
    strip_suffix(name, VALUES_SUFFIX)
}

/// The name of a half says which partition it is a half of, and no name is a half of both
/// kinds.
pub proof fn halves_name_their_stem(stem: Seq<char>)
    ensures
        without(stem + VALUES_SUFFIX@, VALUES_SUFFIX@) == Some(stem),
        without(stem + SERIES_SUFFIX@, SERIES_SUFFIX@) == Some(stem),
        without(stem + VALUES_SUFFIX@, SERIES_SUFFIX@) is None,
        is_parquet(stem + VALUES_SUFFIX@),
        is_parquet(stem + SERIES_SUFFIX@),
{
    reveal_strlit(".values.parquet");
    reveal_strlit(".series.parquet");
    reveal_strlit("parquet");
    let v = stem + VALUES_SUFFIX@;
    let s = stem + SERIES_SUFFIX@;
    let n = stem.len() as int;
    assert(VALUES_SUFFIX@.len() == 15 && SERIES_SUFFIX@.len() == 15);
    assert(v.skip(n) =~= VALUES_SUFFIX@ && v.take(n) =~= stem);
    assert(s.skip(n) =~= SERIES_SUFFIX@ && s.take(n) =~= stem);
    assert(VALUES_SUFFIX@[1] == 'v' && SERIES_SUFFIX@[1] == 's');
    ends_in_parquet(stem + seq!['.', 'v', 'a', 'l', 'u', 'e', 's']);
    ends_in_parquet(stem + seq!['.', 's', 'e', 'r', 'i', 'e', 's']);
    let tail = seq!['.', 'p', 'a', 'r', 'q', 'u', 'e', 't'];
    assert(v =~= stem + seq!['.', 'v', 'a', 'l', 'u', 'e', 's'] + tail);
    assert(s =~= stem + seq!['.', 's', 'e', 'r', 'i', 'e', 's'] + tail);
}

proof fn ends_in_parquet(front: Seq<char>)
    requires
        front.len() > 0,
    ensures
        is_parquet(front + seq!['.', 'p', 'a', 'r', 'q', 'u', 'e', 't']),
{
    reveal_strlit("parquet");
    let tail = seq!['.', 'p', 'a', 'r', 'q', 'u', 'e', 't'];
    let name = front + tail;
    let n = front.len() as int;
    reveal_with_fuel(last_dot, 9);
    assert(name.drop_last() =~= name.take(n + 7));
    assert(name.drop_last().drop_last() =~= name.take(n + 6));
    assert(name.take(n + 6).drop_last() =~= name.take(n + 5));
    assert(name.take(n + 5).drop_last() =~= name.take(n + 4));
    assert(name.take(n + 4).drop_last() =~= name.take(n + 3));
    assert(name.take(n + 3).drop_last() =~= name.take(n + 2));
    assert(name.take(n + 2).drop_last() =~= name.take(n + 1));
    assert(last_dot(name.take(n + 1)) == Some(n));
    assert(last_dot(name) == Some(n));
    assert(name.skip(n + 1) =~= "parquet"@);
}

// ---- A destination ------------------------------------------------------------------------

/// The names of those files among the first `n` that are Parquet files.
pub open spec fn stale_names(names: Seq<Seq<char>>, n: int) -> Seq<Seq<char>>
    decreases n,
{
    if n <= 0 {
        seq![]
    } else if is_parquet(names[n - 1]) {
        stale_names(names, n - 1).push(names[n - 1])
    } else {
        stale_names(names, n - 1)
    }
}

/// The first three of a list.
pub open spec fn first_three(list: Seq<Seq<char>>) -> Seq<Seq<char>> {
    if list.len() <= 3 {
        list
    } else {
        list.take(3)
    }
}

pub open spec fn occupied_text(dir: Seq<char>, stale: Seq<Seq<char>>) -> Seq<char> {
    dir + " already holds "@ + decimal_text(stale.len()) + " .parquet file(s) ("@ + joined(
        first_three(stale),
        ", "@,
    ) + "); export into an empty directory, since `add --parquet <dir>` imports every partition it finds"@
}

/// Refuses a destination that already holds Parquet files: an import files every partition it
/// finds, so an export over an earlier one would leave the earlier partitions to be filed too.
///
/// `names` is what the directory holds; nothing for one that does not exist yet, which passes.
pub fn check_destination(dir: &str, names: &Vec<String>) -> (r: Result<(), String>)
    ensures
        ({
            let stale = stale_names(texts(names@), names@.len() as int);
            match r {
                Ok(_) => stale.len() == 0,
                Err(e) => stale.len() > 0 && e@ == occupied_text(dir@, stale),
            }
        }),
{
    let ghost all = texts(names@);
    let mut stale: Vec<String> = Vec::new();
    let mut i: usize = 0;
    proof {
        assert(texts(stale@) =~= seq![]);
    }
    while i < names.len()
        invariant
            i <= names.len(),
            all == texts(names@),
            texts(stale@) == stale_names(all, i as int),
        decreases names.len() - i,
    {
        if names_parquet(names[i].as_str()) {
            let ghost was = stale@;
            stale.push(names[i].clone());
            proof {
                assert(texts(stale@) =~= texts(was).push(all[i as int]));
            }
        }
        i += 1;
    }
    proof {
        assert(texts(stale@).len() == stale@.len());
    }
    if stale.len() == 0 {
        return Ok(());
    }
    let mut shown: Vec<String> = Vec::new();
    let mut k: usize = 0;
    proof {
        assert(texts(shown@) =~= texts(stale@).take(0));
    }
    while k < stale.len() && k < 3
        invariant
            k <= stale.len(),
            k <= 3,
            texts(shown@) == texts(stale@).take(k as int),
            texts(stale@).len() == stale@.len(),
        decreases 3 - k,
    {
        let ghost was = shown@;
        shown.push(stale[k].clone());
        proof {
            let all_stale = texts(stale@);
            assert(texts(shown@) =~= texts(was).push(all_stale[k as int]));
            assert(all_stale.take(k + 1) =~= all_stale.take(k as int).push(all_stale[k as int]));
        }
        k += 1;
    }
    proof {
        assert(texts(shown@) =~= first_three(texts(stale@)));
    }
    let mut e = dir.to_string();
    e.append(" already holds ");
    e.append(decimal(stale.len() as u64).as_str());
    e.append(" .parquet file(s) (");
    e.append(join(&shown, ", ").as_str());
    e.append(
        "); export into an empty directory, since `add --parquet <dir>` imports every partition it finds",
    );
    Err(e)
}

// ---- Partitions on disk ---------------------------------------------------------------------

/// A file of a directory: its name, and the path by which it is opened.
#[derive(Debug)]
pub struct Entry {
    pub name: String,
    pub path: String,
}

/// An [`Entry`], with its texts as characters.
pub struct EntryView {
    pub name: Seq<char>,
    pub path: Seq<char>,
}

impl View for Entry {
    type V = EntryView;

    open spec fn view(&self) -> EntryView {
        EntryView { name: self.name@, path: self.path@ }
    }
}

/// The views of a list of files.
pub open spec fn entries(list: Seq<Entry>) -> Seq<EntryView> {
    list.map_values(|e: Entry| e@)
}

/// What there is at a path.
#[derive(Debug)]
pub enum Found {
    /// Nothing: the last component of the path, if it is text, and the files beside it.
    Nothing { name: Option<String>, beside: Vec<Entry> },
    /// A file: its name, if it is text, the path by which it is opened, and the files beside it.
    File { name: Option<String>, path: String, beside: Vec<Entry> },
    /// A directory, with the files in it.
    Directory { files: Vec<Entry> },
    /// Something else.
    Other,
}

/// One partition on disk: its two halves, or a lone values file.
#[derive(Debug, Clone, PartialEq, Eq)]
pub struct PartitionFiles {
    /// The shared stem, or the whole file name for a foreign file.
    pub stem: String,
    /// The path of the values half.
    pub values: String,
    /// The path of the series half. `None` for a foreign file: a values file with no series
    /// file beside it, which carries no catalog rows and needs the inline options instead.
    pub series: Option<String>,
}

/// A [`PartitionFiles`], with its texts as characters.
pub struct FilesView {
    pub stem: Seq<char>,
    pub values: Seq<char>,
    pub series: Option<Seq<char>>,
}

impl View for PartitionFiles {
    type V = FilesView;

    open spec fn view(&self) -> FilesView {
        FilesView { stem: self.stem@, values: self.values@, series: opt_text(self.series) }
    }
}

impl PartitionFiles {
    /// What to call this partition in a message: the stem, or the lone file.
    pub fn label(&self) -> (r: String)
        ensures
            r@ == (match self@.series {
                Some(_) => self@.stem,
                None => self@.values,
            }),
    {
        match &self.series {
            Some(_) => self.stem.clone(),
            None => self.values.clone(),
        }
    }
}

/// The path of the first file with a name, if there is one.
pub open spec fn path_in(list: Seq<EntryView>, name: Seq<char>) -> Option<Seq<char>>
    decreases list.len(),
{
    if list.len() == 0 {
        None
    } else if list[0].name == name {
        Some(list[0].path)
    } else {
        path_in(list.skip(1), name)
    }
}

fn find(list: &Vec<Entry>, name: &str) -> (r: Option<String>)
    ensures
        opt_text(r) == path_in(entries(list@), name@),
{
    let ghost all = entries(list@);
    let mut i: usize = 0;
    proof {
        assert(all.skip(0) =~= all);
    }
    while i < list.len()
        invariant
            i <= list.len(),
            all == entries(list@),
            path_in(all, name@) == path_in(all.skip(i as int), name@),
        decreases list.len() - i,
    {
        proof {
            assert(all.skip(i as int)[0] == list@[i as int]@);
            assert(all.skip(i as int).skip(1) =~= all.skip(i + 1));
        }
        if same_text(list[i].name.as_str(), name) {
            return Some(list[i].path.clone());
        }
        i += 1;
    }
    None
}

pub open spec fn truncated_text(name: Seq<char>, stem: Seq<char>) -> Seq<char> {
    name + " has no "@ + stem + VALUES_SUFFIX@
        + " beside it: its rows name arrays that are not there"@
}

fn truncated(name: &str, stem: &str) -> (r: String)
    ensures
        r@ == truncated_text(name@, stem@),
{
    let mut e = name.to_string();
    e.append(" has no ");
    e.append(stem);
    e.append(VALUES_SUFFIX);
    e.append(" beside it: its rows name arrays that are not there");
    e
}

/// The partition one named file belongs to: with its partner if it has one, else a foreign
/// file.
pub open spec fn partition_at(name: Seq<char>, path: Seq<char>, beside: Seq<EntryView>) -> Result<
    FilesView,
    Seq<char>,
> {
    match without(name, SERIES_SUFFIX@) {
        Some(stem) => match path_in(beside, stem + VALUES_SUFFIX@) {
            Some(values) => Ok(FilesView { stem, values, series: Some(path) }),
            None => Err(truncated_text(name, stem)),
        },
        None => {
            let stem = match without(name, VALUES_SUFFIX@) {
                Some(stem) => stem,
                None => name,
            };
            Ok(FilesView { stem, values: path, series: path_in(beside, stem + SERIES_SUFFIX@) })
        },
    }
}

/// One named file: its partner if it has one, else a foreign file. Naming the series half is
/// naming the partition.
pub fn one_file(name: &str, path: &str, beside: &Vec<Entry>) -> (r: Result<PartitionFiles, String>)
    ensures
        match (r, partition_at(name@, path@, entries(beside@))) {
            (Ok(files), Ok(expected)) => files@ == expected,
            (Err(e), Err(text)) => e@ == text,
            _ => false,
        },
{
    match strip_suffix(name, SERIES_SUFFIX) {
        Some(stem) => match find(beside, values_name(stem.as_str()).as_str()) {
            Some(values) => Ok(PartitionFiles { stem, values, series: Some(path.to_string()) }),
            None => Err(truncated(name, stem.as_str())),
        },
        None => {
            let stem = match stem_of(name) {
                Some(stem) => stem,
                None => name.to_string(),
            };
            let series = find(beside, series_name(stem.as_str()).as_str());
            Ok(PartitionFiles { stem, values: path.to_string(), series })
        },
    }
}

/// `sorted`, with a file after everything its name does not come before.
pub open spec fn filed(sorted: Seq<EntryView>, e: EntryView) -> Seq<EntryView>
    decreases sorted.len(),
{
    if sorted.len() == 0 {
        seq![e]
    } else if before(e.name, sorted.last().name) {
        filed(sorted.drop_last(), e).push(sorted.last())
    } else {
        sorted.push(e)
    }
}

/// The Parquet files among the first `n` of a directory, by name.
pub open spec fn parquet_files(list: Seq<EntryView>, n: int) -> Seq<EntryView>
    decreases n,
{
    if n <= 0 {
        seq![]
    } else if is_parquet(list[n - 1].name) {
        filed(parquet_files(list, n - 1), list[n - 1])
    } else {
        parquet_files(list, n - 1)
    }
}

fn file_entry(sorted: &mut Vec<Entry>, e: Entry)
    ensures
        entries(final(sorted)@) == filed(entries(old(sorted)@), e@),
{
    let ghost was = sorted@;
    let ghost all = entries(sorted@);
    let ghost new = e@;
    let mut i: usize = sorted.len();
    proof {
        assert(all.take(i as int) =~= all);
        assert(filed(all, e@) =~= filed(all.take(i as int), e@) + all.skip(i as int));
    }
    while i > 0 && text_less(e.name.as_str(), sorted[i - 1].name.as_str())
        invariant
            i <= sorted.len(),
            sorted@ == was,
            all == entries(was),
            filed(all, e@) == filed(all.take(i as int), e@) + all.skip(i as int),
        decreases i,
    {
        proof {
            assert(all.take(i as int).drop_last() =~= all.take(i - 1));
            assert(all.take(i as int).last() == all[i - 1]);
            assert(all[i - 1] == sorted@[i - 1]@);
            assert(filed(all.take(i - 1), e@).push(all[i - 1]) + all.skip(i as int) =~= filed(
                all.take(i - 1),
                e@,
            ) + all.skip(i - 1));
        }
        i -= 1;
    }
    proof {
        if i > 0 {
            assert(all.take(i as int).last() == all[i - 1]);
            assert(all[i - 1] == sorted@[i - 1]@);
        }
        assert(filed(all.take(i as int), e@) =~= all.take(i as int).push(e@));
    }
    sorted.insert(i, e);
    proof {
        assert(entries(sorted@) =~= all.take(i as int).push(new) + all.skip(i as int));
    }
}

/// Whether each name comes after the one before it, or is the same.
pub open spec fn by_name(list: Seq<EntryView>) -> bool {
    forall|i: int, j: int| 0 <= i < j < list.len() ==> !before(list[j].name, list[i].name)
}

proof fn filed_stays_sorted(sorted: Seq<EntryView>, e: EntryView)
    requires
        by_name(sorted),
    ensures
        by_name(filed(sorted, e)),
        filed(sorted, e).to_multiset() == sorted.to_multiset().insert(e),
    decreases sorted.len(),
{
    let out = filed(sorted, e);
    broadcast use vstd::seq_lib::group_to_multiset_ensures;

    if sorted.len() == 0 {
        assert(out =~= sorted.push(e));
    } else if before(e.name, sorted.last().name) {
        let rest = sorted.drop_last();
        let inner = filed(rest, e);
        assert(by_name(rest)) by {
            assert forall|i: int, j: int| 0 <= i < j < rest.len() implies !before(
                rest[j].name,
                rest[i].name,
            ) by {
                assert(!before(sorted[j].name, sorted[i].name));
            }
        }
        filed_stays_sorted(rest, e);
        assert(sorted =~= rest.push(sorted.last()));
        assert(out.to_multiset() =~= sorted.to_multiset().insert(e));
        assert forall|i: int, j: int| 0 <= i < j < out.len() implies !before(
            out[j].name,
            out[i].name,
        ) by {
            if j == inner.len() {
                assert(inner.to_multiset().count(inner[i]) > 0) by {
                    assert(inner.contains(inner[i]));
                }
                if inner[i] == e {
                    before_irreflexive(e.name);
                    if before(sorted.last().name, e.name) {
                        before_transitive(e.name, sorted.last().name, e.name);
                    }
                } else {
                    assert(rest.to_multiset().count(inner[i]) > 0);
                    assert(rest.contains(inner[i]));
                    let m = choose|m: int| 0 <= m < rest.len() && rest[m] == inner[i];
                    assert(!before(sorted[sorted.len() - 1].name, sorted[m].name));
                }
            } else {
                assert(!before(inner[j].name, inner[i].name));
            }
        }
    } else {
        assert forall|i: int, j: int| 0 <= i < j < out.len() implies !before(
            out[j].name,
            out[i].name,
        ) by {
            if j == sorted.len() {
                let last = sorted.last().name;
                if i < sorted.len() - 1 && before(e.name, sorted[i].name) {
                    assert(!before(sorted[sorted.len() - 1].name, sorted[i].name));
                    if sorted[i].name != last {
                        before_total(sorted[i].name, last);
                        before_transitive(e.name, sorted[i].name, last);
                    }
                }
            } else {
                assert(!before(sorted[j].name, sorted[i].name));
            }
        }
    }
}

/// A directory's Parquet files come in the order of their names, so that the same directory is
/// read the same way however it was listed.
pub proof fn parquet_files_come_sorted(list: Seq<EntryView>, n: int)
    requires
        0 <= n <= list.len(),
    ensures
        by_name(parquet_files(list, n)),
        parquet_files(list, n).to_multiset() == list.take(n).filter(
            |e: EntryView| is_parquet(e.name),
        ).to_multiset(),
    decreases n,
{
    broadcast use vstd::seq_lib::group_to_multiset_ensures;

    let f = |e: EntryView| is_parquet(e.name);
    reveal(Seq::filter);
    if n > 0 {
        parquet_files_come_sorted(list, n - 1);
        assert(list.take(n).drop_last() =~= list.take(n - 1));
        assert(list.take(n).last() == list[n - 1]);
        if is_parquet(list[n - 1].name) {
            filed_stays_sorted(parquet_files(list, n - 1), list[n - 1]);
        }
    } else {
        assert(list.take(0).filter(f) =~= seq![]);
    }
}

/// The first of some files, from the `i`-th on, that is a series half without its values half.
pub open spec fn first_truncated(sorted: Seq<EntryView>, files: Seq<EntryView>, i: int) -> Option<
    Seq<char>,
>
    decreases sorted.len() - i,
{
    if i < 0 || i >= sorted.len() {
        None
    } else {
        match without(sorted[i].name, SERIES_SUFFIX@) {
            Some(stem) => if path_in(files, stem + VALUES_SUFFIX@) is None {
                Some(truncated_text(sorted[i].name, stem))
            } else {
                first_truncated(sorted, files, i + 1)
            },
            None => first_truncated(sorted, files, i + 1),
        }
    }
}

/// The partitions of the first `n` of some files: one for each that is not a series half.
pub open spec fn paired(sorted: Seq<EntryView>, files: Seq<EntryView>, n: int) -> Seq<FilesView>
    decreases n,
{
    if n <= 0 {
        seq![]
    } else if without(sorted[n - 1].name, SERIES_SUFFIX@) is Some {
        paired(sorted, files, n - 1)
    } else {
        paired(sorted, files, n - 1).push(
            partition_at(sorted[n - 1].name, sorted[n - 1].path, files)->Ok_0,
        )
    }
}

pub open spec fn neither_text(shown: Seq<char>) -> Seq<char> {
    shown + " is neither a Parquet file, a partition stem, nor a directory of them"@
}

pub open spec fn unnamed_text(shown: Seq<char>) -> Seq<char> {
    shown + " has no file name"@
}

pub open spec fn barren_text(shown: Seq<char>) -> Seq<char> {
    shown + " holds no .parquet files"@
}

/// The partitions of a directory.
pub open spec fn partitions_in(shown: Seq<char>, files: Seq<EntryView>) -> Result<
    Seq<FilesView>,
    Seq<char>,
> {
    let sorted = parquet_files(files, files.len() as int);
    match first_truncated(sorted, files, 0) {
        Some(text) => Err(text),
        None => {
            let out = paired(sorted, files, sorted.len() as int);
            if out.len() == 0 {
                Err(barren_text(shown))
            } else {
                Ok(out)
            }
        },
    }
}

/// The partitions at a path.
pub open spec fn partitions_at(shown: Seq<char>, found: Found) -> Result<Seq<FilesView>, Seq<char>> {
    match found {
        Found::Nothing { name, beside } => match name {
            Some(stem) => match path_in(entries(beside@), stem@ + VALUES_SUFFIX@) {
                Some(values) => Ok(
                    seq![
                        FilesView {
                            stem: stem@,
                            values,
                            series: path_in(entries(beside@), stem@ + SERIES_SUFFIX@),
                        },
                    ],
                ),
                None => Err(neither_text(shown)),
            },
            None => Err(neither_text(shown)),
        },
        Found::File { name, path, beside } => match name {
            Some(name) => match partition_at(name@, path@, entries(beside@)) {
                Ok(files) => Ok(seq![files]),
                Err(text) => Err(text),
            },
            None => Err(unnamed_text(shown)),
        },
        Found::Directory { files } => partitions_in(shown, entries(files@)),
        Found::Other => Err(neither_text(shown)),
    }
}

/// The views of a list of partitions.
pub open spec fn files_views(list: Seq<PartitionFiles>) -> Seq<FilesView> {
    list.map_values(|f: PartitionFiles| f@)
}

fn neither(shown: &str) -> (r: String)
    ensures
        r@ == neither_text(shown@),
{
    let mut e = shown.to_string();
    e.append(" is neither a Parquet file, a partition stem, nor a directory of them");
    e
}

fn lone(files: PartitionFiles) -> (r: Vec<PartitionFiles>)
    ensures
        files_views(r@) == seq![files@],
{
    let mut out: Vec<PartitionFiles> = Vec::new();
    out.push(files);
    proof {
        assert(files_views(out@) =~= seq![files@]);
    }
    out
}

fn directory_partitions(shown: &str, files: &Vec<Entry>) -> (r: Result<Vec<PartitionFiles>, String>)
    ensures
        match (r, partitions_in(shown@, entries(files@))) {
            (Ok(list), Ok(expected)) => files_views(list@) == expected,
            (Err(e), Err(text)) => e@ == text,
            _ => false,
        },
{
    let ghost all = entries(files@);
    let mut sorted: Vec<Entry> = Vec::new();
    let mut i: usize = 0;
    proof {
        assert(entries(sorted@) =~= seq![]);
    }
    while i < files.len()
        invariant
            i <= files.len(),
            all == entries(files@),
            entries(sorted@) == parquet_files(all, i as int),
        decreases files.len() - i,
    {
        proof {
            assert(all[i as int] == files@[i as int]@);
        }
        if names_parquet(files[i].name.as_str()) {
            file_entry(
                &mut sorted,
                Entry { name: files[i].name.clone(), path: files[i].path.clone() },
            );
        }
        i += 1;
    }
    let ghost ordered = entries(sorted@);
    proof {
        assert(ordered.len() == sorted@.len());
    }
    let mut k: usize = 0;
    while k < sorted.len()
        invariant
            k <= sorted.len(),
            ordered == entries(sorted@),
            ordered == parquet_files(all, all.len() as int),
            ordered.len() == sorted@.len(),
            all == entries(files@),
            first_truncated(ordered, all, 0) == first_truncated(ordered, all, k as int),
        decreases sorted.len() - k,
    {
        proof {
            assert(ordered[k as int] == sorted@[k as int]@);
        }
        match strip_suffix(sorted[k].name.as_str(), SERIES_SUFFIX) {
            Some(stem) => {
                if find(files, values_name(stem.as_str()).as_str()).is_none() {
                    return Err(truncated(sorted[k].name.as_str(), stem.as_str()));
                }
            },
            None => {},
        }
        k += 1;
    }
    let mut out: Vec<PartitionFiles> = Vec::new();
    let mut m: usize = 0;
    proof {
        assert(files_views(out@) =~= seq![]);
    }
    while m < sorted.len()
        invariant
            m <= sorted.len(),
            ordered == entries(sorted@),
            ordered.len() == sorted@.len(),
            all == entries(files@),
            files_views(out@) == paired(ordered, all, m as int),
        decreases sorted.len() - m,
    {
        proof {
            assert(ordered[m as int] == sorted@[m as int]@);
        }
        if strip_suffix(sorted[m].name.as_str(), SERIES_SUFFIX).is_none() {
            match one_file(sorted[m].name.as_str(), sorted[m].path.as_str(), files) {
                Ok(pair) => {
                    let ghost was = out@;
                    let ghost new = pair@;
                    out.push(pair);
                    proof {
                        assert(files_views(out@) =~= files_views(was).push(new));
                    }
                },
                Err(e) => {
                    proof {
                        assert(false);
                    }
                    return Err(e);
                },
            }
        }
        m += 1;
    }
    proof {
        assert(files_views(out@).len() == out@.len());
    }
    if out.len() == 0 {
        let mut e = shown.to_string();
        e.append(" holds no .parquet files");
        return Err(e);
    }
    Ok(out)
}

/// The partitions at a path, which may be a directory, one file, or a stem. `shown` is how the
/// path is displayed, and `found` what there is at it.
///
/// Sorted, so that a directory import is deterministic. A series half without its values half
/// is an error: its catalog rows name arrays that are not there. A values half alone is not,
/// because that is exactly what a foreign file looks like.
pub fn partitions(shown: &str, found: &Found) -> (r: Result<Vec<PartitionFiles>, String>)
    ensures
        match (r, partitions_at(shown@, *found)) {
            (Ok(list), Ok(expected)) => files_views(list@) == expected,
            (Err(e), Err(text)) => e@ == text,
            _ => false,
        },
{
    match found {
        Found::Nothing { name, beside } => match name {
            Some(stem) => match find(beside, values_name(stem.as_str()).as_str()) {
                Some(values) => {
                    let series = find(beside, series_name(stem.as_str()).as_str());
                    Ok(lone(PartitionFiles { stem: stem.clone(), values, series }))
                },
                None => Err(neither(shown)),
            },
            None => Err(neither(shown)),
        },
        Found::File { name, path, beside } => match name {
            Some(name) => match one_file(name.as_str(), path.as_str(), beside) {
                Ok(files) => Ok(lone(files)),
                Err(e) => Err(e),
            },
            None => {
                let mut e = shown.to_string();
                e.append(" has no file name");
                Err(e)
            },
        },
        Found::Directory { files } => directory_partitions(shown, files),
        Found::Other => Err(neither(shown)),
    }
}

// ---- What is found --------------------------------------------------------------------------

/// A suffix is stripped exactly where the name ends in it, and then what stood before it is left.
pub proof fn suffixes_are_stripped_whole(name: &str, suffix: &str, rest: Seq<char>, r: Option<String>)
    requires
        call_ensures(strip_suffix, (name, suffix), r),
    ensures
        opt_text(r) == Some(rest) <==> name@ == rest + suffix@,
{
    if name@ == rest + suffix@ {
        assert(name@.skip(name@.len() - suffix@.len()) =~= suffix@);
        assert(name@.take(name@.len() - suffix@.len()) =~= rest);
    } else if opt_text(r) == Some(rest) {
        assert(name@ =~= rest + suffix@);
    }
}

/// The stem of a values file is what stands before its suffix.
pub proof fn stems_stand_before_the_suffix(name: &str, stem: Seq<char>, r: Option<String>)
    requires
        call_ensures(stem_of, (name,), r),
    ensures
        opt_text(r) == Some(stem) <==> name@ == stem + VALUES_SUFFIX@,
{
    if name@ == stem + VALUES_SUFFIX@ {
        assert(name@.skip(name@.len() - VALUES_SUFFIX@.len()) =~= VALUES_SUFFIX@);
        assert(name@.take(name@.len() - VALUES_SUFFIX@.len()) =~= stem);
    } else if opt_text(r) == Some(stem) {
        assert(name@ =~= stem + VALUES_SUFFIX@);
    }
}

proof fn dots_are_last(name: Seq<char>)
    ensures
        match last_dot(name) {
            Some(i) => 0 <= i < name.len() && name[i] == '.' && forall|j: int|
                i < j < name.len() ==> #[trigger] name[j] != '.',
            None => forall|j: int| 0 <= j < name.len() ==> #[trigger] name[j] != '.',
        },
    decreases name.len(),
{
    if name.len() > 0 && name.last() != '.' {
        let rest = name.drop_last();
        dots_are_last(rest);
        match last_dot(rest) {
            Some(i) => {
                assert(name[i] == rest[i]);
                assert forall|j: int| i < j < name.len() implies #[trigger] name[j] != '.' by {
                    if j < name.len() - 1 {
                        assert(rest[j] == name[j]);
                    }
                }
            },
            None => {
                assert forall|j: int| 0 <= j < name.len() implies #[trigger] name[j] != '.' by {
                    if j < name.len() - 1 {
                        assert(rest[j] == name[j]);
                    }
                }
            },
        }
    }
}

/// A name is that of a Parquet file where something stands before its last dot and `parquet`, in
/// any case, behind it.
pub proof fn parquet_names_end_in_their_extension(name: &str, stem: Seq<char>, ending: Seq<char>, r: bool)
    requires
        call_ensures(names_parquet, (name,), r),
        name@ == stem + seq!['.'] + ending,
        forall|i: int| 0 <= i < ending.len() ==> #[trigger] ending[i] != '.',
    ensures
        r <==> stem.len() > 0 && lower_text(ending) == lower_text("parquet"@),
{
    dots_are_last(name@);
    let at = last_dot(name@)->0;
    assert(name@[stem.len() as int] == '.');
    assert(last_dot(name@) is Some);
    if at < stem.len() {
        assert(name@[stem.len() as int] != '.');
    } else if at > stem.len() {
        assert(name@[at] == ending[at - stem.len() - 1]);
    }
    assert(name@.skip(at + 1) =~= ending);
}

proof fn stale_names_are_parquet(names: Seq<Seq<char>>, n: int)
    requires
        0 <= n <= names.len(),
    ensures
        stale_names(names, n).len() == 0 <==> forall|i: int|
            0 <= i < n ==> !is_parquet(#[trigger] names[i]),
    decreases n,
{
    if n > 0 {
        stale_names_are_parquet(names, n - 1);
        assert(names[n - 1] == names[n - 1]);
    }
}

/// A directory takes an export exactly where it holds no Parquet file.
pub proof fn destinations_hold_no_parquet(dir: &str, names: Vec<String>, r: Result<(), String>)
    requires
        call_ensures(check_destination, (dir, &names), r),
    ensures
        r is Ok <==> forall|i: int|
            0 <= i < names@.len() ==> !is_parquet((#[trigger] names@[i])@),
{
    let list = texts(names@);
    stale_names_are_parquet(list, names@.len() as int);
    if r is Ok {
        assert forall|i: int| 0 <= i < names@.len() implies !is_parquet((#[trigger] names@[i])@) by {
            assert(!is_parquet(list[i]));
        }
    } else {
        let i = choose|i: int| 0 <= i < names@.len() && is_parquet(#[trigger] list[i]);
        assert(is_parquet(names@[i]@));
    }
}

proof fn paths_are_found(list: Seq<EntryView>, name: Seq<char>)
    ensures
        match path_in(list, name) {
            Some(path) => exists|i: int|
                0 <= i < list.len() && (#[trigger] list[i]).name == name && list[i].path == path,
            None => forall|i: int| 0 <= i < list.len() ==> (#[trigger] list[i]).name != name,
        },
    decreases list.len(),
{
    if list.len() > 0 && list[0].name != name {
        let rest = list.skip(1);
        paths_are_found(rest, name);
        match path_in(rest, name) {
            Some(path) => {
                let i = choose|i: int|
                    0 <= i < rest.len() && (#[trigger] rest[i]).name == name && rest[i].path == path;
                assert(list[i + 1] == rest[i]);
            },
            None => {
                assert forall|i: int| 0 <= i < list.len() implies (#[trigger] list[i]).name
                    != name by {
                    if i > 0 {
                        assert(rest[i - 1] == list[i]);
                    }
                }
            },
        }
    } else if list.len() > 0 {
        assert(list[0].name == name);
    }
}

/// Naming either half of a partition finds both: the values file that the stem names, and the
/// series file beside it where there is one. A series file without its values file is refused.
pub proof fn either_half_finds_both(
    stem: Seq<char>,
    values_name: &str,
    series_name: &str,
    values_path: &str,
    series_path: &str,
    beside: Vec<Entry>,
    from_values: Result<PartitionFiles, String>,
    from_series: Result<PartitionFiles, String>,
)
    requires
        values_name@ == stem + VALUES_SUFFIX@,
        series_name@ == stem + SERIES_SUFFIX@,
        call_ensures(one_file, (values_name, values_path, &beside), from_values),
        call_ensures(one_file, (series_name, series_path, &beside), from_series),
    ensures
        from_values matches Ok(f) && f.stem@ == stem && f.values@ == values_path@ && match f.series {
            Some(path) => exists|i: int|
                0 <= i < beside@.len() && (#[trigger] beside@[i]).name@ == series_name@
                    && beside@[i].path@ == path@,
            None => forall|i: int|
                0 <= i < beside@.len() ==> (#[trigger] beside@[i]).name@ != series_name@,
        },
        match from_series {
            Ok(f) => f.stem@ == stem && opt_text(f.series) == Some(series_path@) && exists|i: int|
                0 <= i < beside@.len() && (#[trigger] beside@[i]).name@ == values_name@
                    && beside@[i].path@ == f.values@,
            Err(_) => forall|i: int|
                0 <= i < beside@.len() ==> (#[trigger] beside@[i]).name@ != values_name@,
        },
{
    let list = entries(beside@);
    halves_name_their_stem(stem);
    paths_are_found(list, stem + VALUES_SUFFIX@);
    paths_are_found(list, stem + SERIES_SUFFIX@);
    assert forall|i: int| 0 <= i < beside@.len() implies (#[trigger] list[i]).name
        == beside@[i].name@ && list[i].path == beside@[i].path@ by {}
    if let Some(path) = path_in(list, stem + VALUES_SUFFIX@) {
        let i = choose|i: int|
            0 <= i < list.len() && (#[trigger] list[i]).name == stem + VALUES_SUFFIX@
                && list[i].path == path;
        assert(beside@[i].name@ == values_name@);
    } else {
        assert forall|i: int| 0 <= i < beside@.len() implies (#[trigger] beside@[i]).name@
            != values_name@ by {
            assert(list[i].name != stem + VALUES_SUFFIX@);
        }
    }
    if let Some(path) = path_in(list, stem + SERIES_SUFFIX@) {
        let i = choose|i: int|
            0 <= i < list.len() && (#[trigger] list[i]).name == stem + SERIES_SUFFIX@
                && list[i].path == path;
        assert(beside@[i].name@ == series_name@);
    } else {
        assert forall|i: int| 0 <= i < beside@.len() implies (#[trigger] beside@[i]).name@
            != series_name@ by {
            assert(list[i].name != stem + SERIES_SUFFIX@);
        }
    }
}

proof fn filed_holds_both(sorted: Seq<EntryView>, e: EntryView, x: EntryView)
    requires
        sorted.contains(x) || x == e,
    ensures
        filed(sorted, e).contains(x),
    decreases sorted.len(),
{
    let out = filed(sorted, e);
    if sorted.len() == 0 {
        assert(out[0] == e);
    } else if before(e.name, sorted.last().name) {
        let rest = sorted.drop_last();
        if x == sorted.last() {
            assert(out.last() == x);
            assert(out[out.len() - 1] == x);
        } else {
            if sorted.contains(x) {
                let i = choose|i: int| 0 <= i < sorted.len() && sorted[i] == x;
                assert(rest[i] == x);
            }
            filed_holds_both(rest, e, x);
            let i = choose|i: int| 0 <= i < filed(rest, e).len() && filed(rest, e)[i] == x;
            assert(out[i] == x);
        }
    } else {
        if x == e {
            assert(out[out.len() - 1] == x);
        } else {
            let i = choose|i: int| 0 <= i < sorted.len() && sorted[i] == x;
            assert(out[i] == x);
        }
    }
}

proof fn parquet_files_hold_all(list: Seq<EntryView>, n: int, i: int)
    requires
        0 <= i < n <= list.len(),
        is_parquet(list[i].name),
    ensures
        parquet_files(list, n).contains(list[i]),
    decreases n,
{
    if i < n - 1 {
        parquet_files_hold_all(list, n - 1, i);
    }
    if is_parquet(list[n - 1].name) {
        filed_holds_both(parquet_files(list, n - 1), list[n - 1], list[i]);
    }
}

proof fn pairs_hold_all(sorted: Seq<EntryView>, files: Seq<EntryView>, n: int, i: int)
    requires
        0 <= i < n <= sorted.len(),
        without(sorted[i].name, SERIES_SUFFIX@) is None,
    ensures
        paired(sorted, files, n).contains(
            partition_at(sorted[i].name, sorted[i].path, files)->Ok_0,
        ),
    decreases n,
{
    let f = partition_at(sorted[i].name, sorted[i].path, files)->Ok_0;
    let out = paired(sorted, files, n);
    if i == n - 1 {
        assert(out[out.len() - 1] == f);
    } else {
        pairs_hold_all(sorted, files, n - 1, i);
        let rest = paired(sorted, files, n - 1);
        let k = choose|k: int| 0 <= k < rest.len() && rest[k] == f;
        assert(out[k] == f);
    }
}

proof fn none_is_truncated(sorted: Seq<EntryView>, files: Seq<EntryView>, i: int, k: int)
    requires
        0 <= i <= k < sorted.len(),
        first_truncated(sorted, files, i) is None,
    ensures
        without(sorted[k].name, SERIES_SUFFIX@) matches Some(stem) ==> path_in(
            files,
            stem + VALUES_SUFFIX@,
        ) is Some,
    decreases k - i,
{
    if i < k {
        none_is_truncated(sorted, files, i + 1, k);
    }
}

/// A directory is read whole: every Parquet file in it that is not the series half of something
/// is the values of a partition, with the series half of the same stem if that is there, and no
/// series half stands alone.
pub proof fn directories_are_read_whole(
    shown: &str,
    files: Vec<Entry>,
    i: int,
    r: Result<Vec<PartitionFiles>, String>,
)
    requires
        call_ensures(partitions, (shown, &Found::Directory { files }), r),
        0 <= i < files@.len(),
        is_parquet(files@[i].name@),
        r is Ok,
    ensures
        without(files@[i].name@, SERIES_SUFFIX@) is None ==> exists|p: int|
            0 <= p < r->Ok_0@.len() && (#[trigger] r->Ok_0@[p]).values@ == files@[i].path@
                && opt_text(r->Ok_0@[p].series) == path_in(
                entries(files@),
                r->Ok_0@[p].stem@ + SERIES_SUFFIX@,
            ),
        without(files@[i].name@, SERIES_SUFFIX@) matches Some(stem) ==> path_in(
            entries(files@),
            stem + VALUES_SUFFIX@,
        ) is Some,
{
    let all = entries(files@);
    let n = all.len() as int;
    let sorted = parquet_files(all, n);
    assert(all[i] == files@[i]@);
    parquet_files_hold_all(all, n, i);
    let k = choose|k: int| 0 <= k < sorted.len() && sorted[k] == all[i];
    none_is_truncated(sorted, all, 0, k);
    if without(files@[i].name@, SERIES_SUFFIX@) is None {
        pairs_hold_all(sorted, all, sorted.len() as int, k);
        let f = partition_at(sorted[k].name, sorted[k].path, all)->Ok_0;
        let list = files_views(r->Ok_0@);
        assert(list == paired(sorted, all, sorted.len() as int));
        let p = choose|p: int| 0 <= p < list.len() && list[p] == f;
        assert(r->Ok_0@[p]@ == f);
    }
}

} // verus!
