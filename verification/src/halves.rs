//! What a partition's two files must say of themselves before either is read.
use crate::footer::{entry, filled_entry, Footer};
use crate::kinds::{type_spelling_reads_back, TimeSeriesType};
use crate::partition::PartitionView;
use crate::schema;
use crate::schema::{decode_time_series_type, type_in};
use crate::table::{
    column_names, footer_of, partition_keys, required_columns, required_names, series_columns,
    values_columns, written_columns_suffice, ColumnTypeView, FORMAT, FORMAT_V1, ROLE, ROLE_SERIES,
    ROLE_VALUES,
};
use crate::text::{join, joined, quoted, quoted_text, same_text, texts};
use vstd::prelude::*;

verus! {

/// A footer, as texts by key.
pub type FooterView = Map<Seq<char>, Seq<char>>;

pub open spec fn other_format_text(path: Seq<char>, format: Seq<char>) -> Seq<char> {
    path + " is "@ + format + ", which this build does not read (it reads "@ + FORMAT_V1@ + ")"@
}

/// Why a file cannot be read by its version, if it cannot.
pub open spec fn format_fault(footer: FooterView, path: Seq<char>) -> Option<Seq<char>> {
    match entry(footer, FORMAT@) {
        None => None,
        Some(v) => if v == FORMAT_V1@ {
            None
        } else {
            Some(other_format_text(path, v))
        },
    }
}

/// Refuses a file this build cannot read, by version rather than by whichever column it turns
/// out to be missing. A file without a marker is foreign, and allowed.
pub fn check_format(footer: &Footer, path: &str) -> (r: Result<(), String>)
    ensures
        match (r, format_fault(footer@, path@)) {
            (Ok(_), None) => true,
            (Err(e), Some(text)) => e@ == text,
            _ => false,
        },
{
    match footer.get(FORMAT) {
        None => Ok(()),
        Some(v) => {
            if same_text(v.as_str(), FORMAT_V1) {
                return Ok(());
            }
            let mut e = path.to_string();
            e.append(" is ");
            e.append(v.as_str());
            e.append(", which this build does not read (it reads ");
            e.append(FORMAT_V1);
            e.append(")");
            Err(e)
        },
    }
}

pub open spec fn unpaired_text(with: Seq<char>, lacking: Seq<char>) -> Seq<char> {
    with + " is an infrastore partition file and "@ + lacking
        + " is not; a partition's two halves are written together, so this pair was assembled by hand"@
}

pub open spec fn role_text(path: Seq<char>, role: Seq<char>, expected: Seq<char>) -> Seq<char> {
    path + " says it is the `"@ + role + "` half of a partition, but it is being read as the `"@
        + expected + "` half"@
}

/// Why a half does not play the role it is read in, if it does not.
pub open spec fn role_fault(footer: FooterView, expected: Seq<char>, path: Seq<char>) -> Option<
    Seq<char>,
> {
    match entry(footer, ROLE@) {
        Some(role) => if role == expected {
            None
        } else {
            Some(role_text(path, role, expected))
        },
        None => Some(role_text(path, "unnamed"@, expected)),
    }
}

fn check_role(footer: &Footer, expected: &str, path: &str) -> (r: Result<(), String>)
    ensures
        match (r, role_fault(footer@, expected@, path@)) {
            (Ok(_), None) => true,
            (Err(e), Some(text)) => e@ == text,
            _ => false,
        },
{
    let role = match footer.get(ROLE) {
        Some(role) => {
            if same_text(role.as_str(), expected) {
                return Ok(());
            }
            role
        },
        None => "unnamed".to_string(),
    };
    let mut e = path.to_string();
    e.append(" says it is the `");
    e.append(role.as_str());
    e.append("` half of a partition, but it is being read as the `");
    e.append(expected);
    e.append("` half");
    Err(e)
}

/// The text under a key, or the empty one.
pub open spec fn entry_or_empty(footer: FooterView, key: Seq<char>) -> Seq<char> {
    match entry(footer, key) {
        Some(text) => text,
        None => seq![],
    }
}

pub open spec fn disagree_text(
    key: Seq<char>,
    values_path: Seq<char>,
    mine: Seq<char>,
    series_path: Seq<char>,
    theirs: Seq<char>,
) -> Seq<char> {
    "the two halves disagree about `"@ + key + "`: "@ + values_path + " says "@ + quoted_text(mine)
        + " and "@ + series_path + " says "@ + quoted_text(theirs)
        + ". A partition's halves are one export's, so these came from two."@
}

/// The first key, from the `i`-th on, in which two footers disagree.
pub open spec fn first_disagreement(
    keys: Seq<Seq<char>>,
    values: FooterView,
    series: FooterView,
    values_path: Seq<char>,
    series_path: Seq<char>,
    i: int,
) -> Option<Seq<char>>
    decreases keys.len() - i,
{
    if i < 0 || i >= keys.len() {
        None
    } else {
        let mine = entry_or_empty(values, keys[i]);
        let theirs = entry_or_empty(series, keys[i]);
        if mine != theirs {
            Some(disagree_text(keys[i], values_path, mine, series_path, theirs))
        } else {
            first_disagreement(keys, values, series, values_path, series_path, i + 1)
        }
    }
}

/// Why two files are not the halves of one partition, if they are not. Two unmarked files are
/// left alone: a pair of foreign files named as a partition is nothing this format has opinions
/// about.
pub open spec fn pair_fault(
    values: FooterView,
    series: FooterView,
    values_path: Seq<char>,
    series_path: Seq<char>,
) -> Option<Seq<char>> {
    match (entry(values, FORMAT@), entry(series, FORMAT@)) {
        (None, None) => None,
        (Some(_), None) => Some(unpaired_text(values_path, series_path)),
        (None, Some(_)) => Some(unpaired_text(series_path, values_path)),
        (Some(_), Some(_)) => match role_fault(values, ROLE_VALUES@, values_path) {
            Some(text) => Some(text),
            None => match role_fault(series, ROLE_SERIES@, series_path) {
                Some(text) => Some(text),
                None => first_disagreement(
                    partition_keys(),
                    values,
                    series,
                    values_path,
                    series_path,
                    0,
                ),
            },
        },
    }
}

fn unpaired(with: &str, lacking: &str) -> (r: String)
    ensures
        r@ == unpaired_text(with@, lacking@),
{
    let mut e = with.to_string();
    e.append(" is an infrastore partition file and ");
    e.append(lacking);
    e.append(
        " is not; a partition's two halves are written together, so this pair was assembled by hand",
    );
    e
}

fn text_or_none(footer: &Footer, key: &str) -> (r: String)
    ensures
        r@ == entry_or_empty(footer@, key@),
{
    match footer.get(key) {
        Some(text) => text,
        None => String::new(),
    }
}

/// Refuses two files that are not the halves of one partition.
///
/// The halves are paired by name, and a name is easy to arrange by accident: if two halves of
/// two exports share array keys the join succeeds, while every catalog field comes from the
/// wrong export. So the footers are compared first.
pub fn check_pair(values: &Footer, series: &Footer, values_path: &str, series_path: &str) -> (r:
    Result<(), String>)
    ensures
        match (r, pair_fault(values@, series@, values_path@, series_path@)) {
            (Ok(_), None) => true,
            (Err(e), Some(text)) => e@ == text,
            _ => false,
        },
{
    match (values.get(FORMAT), series.get(FORMAT)) {
        (None, None) => {
            return Ok(());
        },
        (Some(_), None) => {
            return Err(unpaired(values_path, series_path));
        },
        (None, Some(_)) => {
            return Err(unpaired(series_path, values_path));
        },
        (Some(_), Some(_)) => {},
    }
    match check_role(values, ROLE_VALUES, values_path) {
        Ok(_) => {},
        Err(e) => {
            return Err(e);
        },
    }
    match check_role(series, ROLE_SERIES, series_path) {
        Ok(_) => {},
        Err(e) => {
            return Err(e);
        },
    }
    let keys: [&str; 4] = [
        schema::TIME_SERIES_TYPE,
        schema::ELEMENT_TYPE,
        schema::ELEMENT_SHAPE,
        schema::TIME_REFERENCE,
    ];
    let mut i: usize = 0;
    while i < 4
        invariant
            i <= 4,
            keys@.len() == 4,
            forall|j: int| 0 <= j < 4 ==> (#[trigger] keys@[j])@ == partition_keys()[j],
            pair_fault(values@, series@, values_path@, series_path@) == first_disagreement(
                partition_keys(),
                values@,
                series@,
                values_path@,
                series_path@,
                i as int,
            ),
        decreases 4 - i,
    {
        let key = keys[i];
        let mine = text_or_none(values, key);
        let theirs = text_or_none(series, key);
        proof {
            assert(key@ == partition_keys()[i as int]);
        }
        if !same_text(mine.as_str(), theirs.as_str()) {
            let mut e = "the two halves disagree about `".to_string();
            e.append(key);
            e.append("`: ");
            e.append(values_path);
            e.append(" says ");
            e.append(quoted(mine.as_str()).as_str());
            e.append(" and ");
            e.append(series_path);
            e.append(" says ");
            e.append(quoted(theirs.as_str()).as_str());
            e.append(". A partition's halves are one export's, so these came from two.");
            return Err(e);
        }
        i += 1;
    }
    Ok(())
}

/// What an export writes is a pair its import accepts: the two footers of a partition pass
/// both checks, wherever the files are.
pub proof fn written_halves_pair(
    key: PartitionView,
    width: Option<usize>,
    values_path: Seq<char>,
    series_path: Seq<char>,
)
    ensures
        format_fault(footer_of(key, width, ROLE_VALUES@), values_path) is None,
        format_fault(footer_of(key, width, ROLE_SERIES@), series_path) is None,
        pair_fault(
            footer_of(key, width, ROLE_VALUES@),
            footer_of(key, width, ROLE_SERIES@),
            values_path,
            series_path,
        ) is None,
{
    footer_names_apart();
    let v = footer_of(key, width, ROLE_VALUES@);
    let s = footer_of(key, width, ROLE_SERIES@);
    assert(entry(v, FORMAT@) == Some(FORMAT_V1@));
    assert(entry(s, FORMAT@) == Some(FORMAT_V1@));
    assert(entry(v, ROLE@) == Some(ROLE_VALUES@));
    assert(entry(s, ROLE@) == Some(ROLE_SERIES@));
    let keys = partition_keys();
    reveal_with_fuel(first_disagreement, 5);
    assert(entry(v, keys[0]) == entry(s, keys[0]));
    assert(entry(v, keys[1]) == entry(s, keys[1]));
    assert(entry(v, keys[2]) == entry(s, keys[2]));
    assert(entry(v, keys[3]) == entry(s, keys[3]));
}

/// The keys of a footer differ from each other.
pub proof fn footer_names_apart()
    ensures
        FORMAT@ != ROLE@,
        FORMAT@ != crate::table::ROWS_CONTIGUOUS@,
        FORMAT@ != schema::TIME_SERIES_TYPE@,
        FORMAT@ != schema::ELEMENT_TYPE@,
        FORMAT@ != schema::ELEMENT_SHAPE@,
        FORMAT@ != schema::TIME_REFERENCE@,
        ROLE@ != crate::table::ROWS_CONTIGUOUS@,
        ROLE@ != schema::TIME_SERIES_TYPE@,
        ROLE@ != schema::ELEMENT_TYPE@,
        ROLE@ != schema::ELEMENT_SHAPE@,
        ROLE@ != schema::TIME_REFERENCE@,
        schema::TIME_SERIES_TYPE@ != schema::ELEMENT_TYPE@,
        schema::TIME_SERIES_TYPE@ != schema::ELEMENT_SHAPE@,
        schema::TIME_SERIES_TYPE@ != schema::TIME_REFERENCE@,
        schema::ELEMENT_TYPE@ != schema::ELEMENT_SHAPE@,
        schema::ELEMENT_TYPE@ != schema::TIME_REFERENCE@,
        schema::ELEMENT_SHAPE@ != schema::TIME_REFERENCE@,
{
    reveal_strlit("infrastore.format");
    reveal_strlit("infrastore.role");
    reveal_strlit("rows_contiguous_by_key");
    reveal_strlit("time_series_type");
    reveal_strlit("element_type");
    reveal_strlit("element_shape");
    reveal_strlit("time_reference");
    assert(FORMAT@.len() == 17 && ROLE@.len() == 15);
    assert(crate::table::ROWS_CONTIGUOUS@.len() == 22);
    assert(schema::TIME_SERIES_TYPE@.len() == 16 && schema::ELEMENT_TYPE@.len() == 12);
    assert(schema::ELEMENT_SHAPE@.len() == 13 && schema::TIME_REFERENCE@.len() == 14);
}

// ---- Columns ----------------------------------------------------------------------------------

pub open spec fn undeclared_text(path: Seq<char>) -> Seq<char> {
    path + " is an infrastore partition file with no `"@ + schema::TIME_SERIES_TYPE@
        + "` in its footer, so there is no telling which columns it should have"@
}

/// Those of the first `n` required columns that a file does not have, in backquotes.
pub open spec fn missing_columns(
    required: Seq<Seq<char>>,
    present: Seq<Seq<char>>,
    n: int,
) -> Seq<Seq<char>>
    decreases n,
{
    if n <= 0 {
        seq![]
    } else if present.contains(required[n - 1]) {
        missing_columns(required, present, n - 1)
    } else {
        missing_columns(required, present, n - 1).push("`"@ + required[n - 1] + "`"@)
    }
}

/// Which half of a partition a file is.
pub open spec fn half_name(series_half: bool) -> Seq<char> {
    if series_half {
        ROLE_SERIES@
    } else {
        ROLE_VALUES@
    }
}

pub open spec fn missing_text(
    path: Seq<char>,
    half: Seq<char>,
    kind: TimeSeriesType,
    missing: Seq<Seq<char>>,
) -> Seq<char> {
    path + " is the "@ + half + " half of a "@ + kind.spelling() + " partition and is missing "@
        + joined(missing, ", "@)
        + ": every column of this format is required, so a reader never has to guess what an absent one meant"@
}

/// Why a file's columns are not those of its half, if they are not. Only files that carry the
/// format's marker are held to it.
pub open spec fn columns_fault(
    present: Seq<Seq<char>>,
    footer: FooterView,
    path: Seq<char>,
    series_half: bool,
) -> Option<Seq<char>> {
    if entry(footer, FORMAT@) is None {
        None
    } else {
        match filled_entry(footer, schema::TIME_SERIES_TYPE@) {
            None => Some(undeclared_text(path)),
            Some(declared) => match type_in(declared) {
                Err(text) => Some(text),
                Ok(kind) => {
                    let required = required_names(kind, series_half);
                    let missing = missing_columns(required, present, required.len() as int);
                    if missing.len() > 0 {
                        Some(missing_text(path, half_name(series_half), kind, missing))
                    } else {
                        None
                    }
                },
            },
        }
    }
}

fn holds_text(list: &Vec<String>, name: &str) -> (r: bool)
    ensures
        r == texts(list@).contains(name@),
{
    let mut i: usize = 0;
    while i < list.len()
        invariant
            i <= list.len(),
            forall|j: int| 0 <= j < i ==> (#[trigger] list@[j])@ != name@,
        decreases list.len() - i,
    {
        if same_text(list[i].as_str(), name) {
            proof {
                assert(texts(list@)[i as int] == name@);
            }
            return true;
        }
        i += 1;
    }
    proof {
        if texts(list@).contains(name@) {
            let j = choose|j: int| 0 <= j < texts(list@).len() && texts(list@)[j] == name@;
            assert(list@[j]@ == name@);
        }
    }
    false
}

/// Refuses a file of this format that is missing a column the format requires: a series file
/// without its features would otherwise import an empty feature set, and so another series.
pub fn check_columns(present: &Vec<String>, footer: &Footer, path: &str, series_half: bool) -> (r:
    Result<(), String>)
    ensures
        match (r, columns_fault(texts(present@), footer@, path@, series_half)) {
            (Ok(_), None) => true,
            (Err(e), Some(text)) => e@ == text,
            _ => false,
        },
{
    if footer.get(FORMAT).is_none() {
        return Ok(());
    }
    let declared = match footer.get_filled(schema::TIME_SERIES_TYPE) {
        Some(declared) => declared,
        None => {
            let mut e = path.to_string();
            e.append(" is an infrastore partition file with no `");
            e.append(schema::TIME_SERIES_TYPE);
            e.append("` in its footer, so there is no telling which columns it should have");
            return Err(e);
        },
    };
    let kind = match decode_time_series_type(declared.as_str()) {
        Ok(kind) => kind,
        Err(e) => {
            return Err(e);
        },
    };
    let required = required_columns(kind, series_half);
    let ghost wanted = required_names(kind, series_half);
    proof {
        assert(crate::table::names(required@).len() == required@.len());
    }
    let mut missing: Vec<String> = Vec::new();
    let mut i: usize = 0;
    proof {
        assert(texts(missing@) =~= seq![]);
    }
    while i < required.len()
        invariant
            i <= required.len(),
            wanted == crate::table::names(required@),
            wanted.len() == required@.len(),
            texts(missing@) == missing_columns(wanted, texts(present@), i as int),
        decreases required.len() - i,
    {
        let name = required[i];
        proof {
            assert(wanted[i as int] == name@);
        }
        if !holds_text(present, name) {
            let mut text = "`".to_string();
            text.append(name);
            text.append("`");
            let ghost was = missing@;
            let ghost new = text@;
            missing.push(text);
            proof {
                assert(texts(missing@) =~= texts(was).push(new));
            }
        }
        i += 1;
    }
    proof {
        assert(texts(missing@).len() == missing@.len());
    }
    if missing.len() == 0 {
        return Ok(());
    }
    let mut e = path.to_string();
    e.append(" is the ");
    if series_half {
        e.append(ROLE_SERIES);
    } else {
        e.append(ROLE_VALUES);
    }
    e.append(" half of a ");
    e.append(kind.as_str());
    e.append(" partition and is missing ");
    e.append(join(&missing, ", ").as_str());
    e.append(
        ": every column of this format is required, so a reader never has to guess what an absent one meant",
    );
    Err(e)
}

proof fn nothing_missing(required: Seq<Seq<char>>, n: int)
    requires
        0 <= n <= required.len(),
    ensures
        missing_columns(required, required, n).len() == 0,
    decreases n,
{
    if n > 0 {
        nothing_missing(required, n - 1);
        assert(required.contains(required[n - 1]));
    }
}

/// What an export writes has every column its import requires, in both halves.
pub proof fn written_columns_pass(
    key: PartitionView,
    width: Option<usize>,
    zone: Option<Seq<char>>,
    value: ColumnTypeView,
    path: Seq<char>,
)
    ensures
        columns_fault(
            column_names(values_columns(key.kind, zone, value)),
            footer_of(key, width, ROLE_VALUES@),
            path,
            false,
        ) is None,
        columns_fault(
            column_names(series_columns(key.kind, zone)),
            footer_of(key, width, ROLE_SERIES@),
            path,
            true,
        ) is None,
{
    footer_names_apart();
    written_columns_suffice(key.kind, zone, value);
    type_spelling_reads_back(key.kind);
    let v = footer_of(key, width, ROLE_VALUES@);
    let s = footer_of(key, width, ROLE_SERIES@);
    assert(entry(v, FORMAT@) == Some(FORMAT_V1@));
    assert(entry(s, FORMAT@) == Some(FORMAT_V1@));
    assert(entry(v, schema::TIME_SERIES_TYPE@) == Some(key.kind.spelling()));
    assert(entry(s, schema::TIME_SERIES_TYPE@) == Some(key.kind.spelling()));
    let first = required_names(key.kind, false);
    let second = required_names(key.kind, true);
    nothing_missing(first, first.len() as int);
    nothing_missing(second, second.len() as int);
    reveal_strlit("SingleTimeSeries");
    reveal_strlit("NonSequentialTimeSeries");
    reveal_strlit("PersistentTimeSeries");
    reveal_strlit("Deterministic");
    reveal_strlit("DeterministicSingleTimeSeries");
    reveal_strlit("Probabilistic");
    reveal_strlit("Scenarios");
    assert(key.kind.spelling().len() > 0);
}

// ---- What passes ---------------------------------------------------------------------------

proof fn agreement_everywhere(
    keys: Seq<Seq<char>>,
    values: FooterView,
    series: FooterView,
    values_path: Seq<char>,
    series_path: Seq<char>,
    i: int,
)
    requires
        0 <= i <= keys.len(),
    ensures
        first_disagreement(keys, values, series, values_path, series_path, i) is None <==> forall|
            j: int,
        |
            i <= j < keys.len() ==> entry_or_empty(values, #[trigger] keys[j]) == entry_or_empty(
                series,
                keys[j],
            ),
    decreases keys.len() - i,
{
    if i < keys.len() {
        agreement_everywhere(keys, values, series, values_path, series_path, i + 1);
        assert(keys[i] == keys[i]);
        if first_disagreement(keys, values, series, values_path, series_path, i) is None {
            assert forall|j: int| i <= j < keys.len() implies entry_or_empty(
                values,
                #[trigger] keys[j],
            ) == entry_or_empty(series, keys[j]) by {
                if j > i {
                    assert(keys[j] == keys[j]);
                }
            }
        }
    }
}

/// Two files pass as the halves of one partition exactly where neither claims to be one, or where
/// the first says it is the values half, the second says it is the series half, and they agree on
/// the type, the element type, the shape and the time reference.
pub proof fn halves_pass_where_they_agree(
    values: Footer,
    series: Footer,
    values_path: &str,
    series_path: &str,
    r: Result<(), String>,
)
    requires
        call_ensures(check_pair, (&values, &series, values_path, series_path), r),
    ensures
        r is Ok <==> (!values@.contains_key(FORMAT@) && !series@.contains_key(FORMAT@)) || {
            &&& values@.contains_key(FORMAT@) && series@.contains_key(FORMAT@)
            &&& entry(values@, ROLE@) == Some(ROLE_VALUES@)
            &&& entry(series@, ROLE@) == Some(ROLE_SERIES@)
            &&& entry_or_empty(values@, schema::TIME_SERIES_TYPE@) == entry_or_empty(
                series@,
                schema::TIME_SERIES_TYPE@,
            )
            &&& entry_or_empty(values@, schema::ELEMENT_TYPE@) == entry_or_empty(
                series@,
                schema::ELEMENT_TYPE@,
            )
            &&& entry_or_empty(values@, schema::ELEMENT_SHAPE@) == entry_or_empty(
                series@,
                schema::ELEMENT_SHAPE@,
            )
            &&& entry_or_empty(values@, schema::TIME_REFERENCE@) == entry_or_empty(
                series@,
                schema::TIME_REFERENCE@,
            )
        },
{
    let keys = partition_keys();
    agreement_everywhere(keys, values@, series@, values_path@, series_path@, 0);
    assert(keys[0] == schema::TIME_SERIES_TYPE@);
    assert(keys[1] == schema::ELEMENT_TYPE@);
    assert(keys[2] == schema::ELEMENT_SHAPE@);
    assert(keys[3] == schema::TIME_REFERENCE@);
    if r is Ok && values@.contains_key(FORMAT@) {
        assert(entry_or_empty(values@, keys[0]) == entry_or_empty(series@, keys[0]));
        assert(entry_or_empty(values@, keys[1]) == entry_or_empty(series@, keys[1]));
        assert(entry_or_empty(values@, keys[2]) == entry_or_empty(series@, keys[2]));
        assert(entry_or_empty(values@, keys[3]) == entry_or_empty(series@, keys[3]));
    }
}

/// A file passes where it claims no format, or the one that is read here.
pub proof fn formats_pass_where_they_are_read(footer: Footer, path: &str, r: Result<(), String>)
    requires
        call_ensures(check_format, (&footer, path), r),
    ensures
        r is Ok <==> (footer@.contains_key(FORMAT@) ==> footer@[FORMAT@] == FORMAT_V1@),
{
}

proof fn none_missing(required: Seq<Seq<char>>, present: Seq<Seq<char>>, n: int)
    requires
        0 <= n <= required.len(),
    ensures
        missing_columns(required, present, n).len() == 0 <==> forall|i: int|
            0 <= i < n ==> present.contains(#[trigger] required[i]),
    decreases n,
{
    if n > 0 {
        none_missing(required, present, n - 1);
        assert(required[n - 1] == required[n - 1]);
    }
}

/// A partition's file passes exactly where it names a type and has every column that a file of
/// that half and that type is written with.
pub proof fn files_pass_with_all_their_columns(
    present: Vec<String>,
    footer: Footer,
    path: &str,
    series_half: bool,
    kind: TimeSeriesType,
    r: Result<(), String>,
)
    requires
        call_ensures(check_columns, (&present, &footer, path, series_half), r),
        footer@.contains_key(FORMAT@),
        entry(footer@, schema::TIME_SERIES_TYPE@) == Some(kind.spelling()),
    ensures
        r is Ok <==> forall|i: int|
            0 <= i < required_names(kind, series_half).len() ==> texts(present@).contains(
                #[trigger] required_names(kind, series_half)[i],
            ),
{
    let required = required_names(kind, series_half);
    crate::kinds::type_spelling_reads_back(kind);
    none_missing(required, texts(present@), required.len() as int);
    assert(kind.spelling().len() > 0) by {
        reveal_strlit("");
        if kind.spelling().len() == 0 {
            reveal_strlit("SingleTimeSeries");
            reveal_strlit("NonSequentialTimeSeries");
            reveal_strlit("Deterministic");
            reveal_strlit("DeterministicSingleTimeSeries");
            reveal_strlit("Probabilistic");
            reveal_strlit("Scenarios");
            reveal_strlit("PersistentTimeSeries");
        }
    }
}

/// A partition's file that names no type is refused, and a file that claims no format has nothing
/// required of it.
pub proof fn foreign_files_have_nothing_required(
    present: Vec<String>,
    footer: Footer,
    path: &str,
    series_half: bool,
    r: Result<(), String>,
)
    requires
        call_ensures(check_columns, (&present, &footer, path, series_half), r),
    ensures
        !footer@.contains_key(FORMAT@) ==> r is Ok,
        footer@.contains_key(FORMAT@) && !footer@.contains_key(schema::TIME_SERIES_TYPE@)
            ==> r is Err,
{
}

} // verus!
