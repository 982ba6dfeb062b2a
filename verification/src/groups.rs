//! Reading a partition's two files, one array at a time.
//!
//! Both files are sorted by the array key, so they are walked together: the next array of the
//! values file, every series row that carries its key, and on. A key that comes back after
//! another key's rows is refused rather than stitched together, because allowing it would mean
//! holding a whole file in memory.
use crate::array::{
    cell, cell_inside, element_count, product, product_of_both, product_of_one, ArrayView,
    TypedArray,
};
use crate::batch::{
    arrow_zone, batch_values, lanes_in, level_dims, opt_lanes, opt_texts, read_lanes,
    read_timestamps, stamps_in, text_column, text_of_column, values_in, zone_in, ReadBatch,
};
use crate::cube::LaneValue;
use crate::instant::is_instant;
use crate::kinds::Dtype;
use crate::partition::{copy_sizes, same_sizes};
use crate::series::opt_text;
use crate::table::{
    key_before, key_order, ArrayKey, ArrayKeyView, DATA_HASH, ISSUE_TIME, TIMESTAMP, TIME_AXIS,
};
use crate::text::{chars_of, text_of};
use crate::values::append_bytes;
use std::collections::VecDeque;
use vstd::prelude::*;

verus! {

// ---- Keys -------------------------------------------------------------------------------------

/// A set of array keys.
#[derive(Debug)]
pub struct KeySet {
    keys: Vec<ArrayKey>,
}

impl KeySet {
    /// Whether a key is one of them.
    pub closed spec fn contains(self, key: ArrayKeyView) -> bool {
        exists|i: int| 0 <= i < self.keys@.len() && (#[trigger] self.keys@[i])@ == key
    }

    /// Whether the keys are in their order.
    pub closed spec fn wf(self) -> bool {
        forall|i: int, j: int|
            #![trigger self.keys@[i], self.keys@[j]]
            0 <= i < j < self.keys@.len() ==> key_before(self.keys@[i]@, self.keys@[j]@)
    }

    /// No keys.
    pub fn new() -> (r: KeySet)
        ensures
            r.wf(),
            forall|k: ArrayKeyView| !#[trigger] r.contains(k),
    {
        KeySet { keys: Vec::new() }
    }

    /// Adds a key, and says whether it is new.
    pub fn insert(&mut self, key: &ArrayKey) -> (r: bool)
        requires
            old(self).wf(),
        ensures
            final(self).wf(),
            r == !old(self).contains(key@),
            forall|k: ArrayKeyView| #[trigger]
                final(self).contains(k) <==> old(self).contains(k) || k == key@,
    {
        let mut low: usize = 0;
        let mut high: usize = self.keys.len();
        while low < high
            invariant
                low <= high <= self.keys@.len(),
                self.wf(),
                *self == *old(self),
                forall|i: int| 0 <= i < low ==> key_before((#[trigger] self.keys@[i])@, key@),
                forall|i: int|
                    high <= i < self.keys@.len() ==> !key_before((#[trigger] self.keys@[i])@, key@),
            decreases high - low,
        {
            let mid: usize = low + (high - low) / 2;
            if self.keys[mid].less(key) {
                proof {
                    assert forall|i: int| 0 <= i <= mid implies key_before(
                        (#[trigger] self.keys@[i])@,
                        key@,
                    ) by {
                        if i < mid {
                            assert(key_before(self.keys@[i]@, self.keys@[mid as int]@));
                            key_order(self.keys@[i]@, self.keys@[mid as int]@, key@);
                        }
                    }
                }
                low = mid + 1;
            } else {
                proof {
                    assert forall|i: int| mid <= i < self.keys@.len() implies !key_before(
                        (#[trigger] self.keys@[i])@,
                        key@,
                    ) by {
                        if i > mid {
                            assert(key_before(self.keys@[mid as int]@, self.keys@[i]@));
                            key_order(self.keys@[mid as int]@, self.keys@[i]@, key@);
                        }
                    }
                }
                high = mid;
            }
        }
        if low < self.keys.len() && self.keys[low].same(key) {
            proof {
                assert(self.keys@[low as int]@ == key@);
            }
            return false;
        }
        let ghost was = self.keys@;
        proof {
            assert forall|i: int| low <= i < was.len() implies key_before(
                key@,
                (#[trigger] was[i])@,
            ) by {
                key_order(was[i]@, key@, was[i]@);
                if i > low {
                    assert(key_before(was[low as int]@, was[i]@));
                    key_order(was[low as int]@, key@, was[i]@);
                    key_order(key@, was[low as int]@, was[i]@);
                }
            }
            key_order(key@, key@, key@);
            assert(!old(self).contains(key@)) by {
                if old(self).contains(key@) {
                    let i = choose|i: int| 0 <= i < was.len() && (#[trigger] was[i])@ == key@;
                    assert(was[i]@ == key@);
                }
            }
        }
        self.keys.insert(low, key.copied());
        proof {
            let now = self.keys@;
            assert forall|i: int, j: int|
                #![trigger now[i], now[j]]
                0 <= i < j < now.len() implies key_before(now[i]@, now[j]@) by {
                let x = if i < low {
                    i
                } else {
                    i - 1
                };
                let y = if j < low {
                    j
                } else {
                    j - 1
                };
                if i != low {
                    assert(now[i] == was[x]);
                }
                if j != low {
                    assert(now[j] == was[y]);
                }
                if i != low && j != low {
                    assert(key_before(was[x]@, was[y]@));
                }
            }
            assert forall|k: ArrayKeyView| #[trigger] self.contains(k) <==> old(self).contains(k)
                || k == key@ by {
                if self.contains(k) {
                    let i = choose|i: int| 0 <= i < now.len() && (#[trigger] now[i])@ == k;
                    if i < low {
                        assert(was[i]@ == k);
                    } else if i > low {
                        assert(was[i - 1]@ == k);
                    }
                }
                if old(self).contains(k) {
                    let i = choose|i: int| 0 <= i < was.len() && (#[trigger] was[i])@ == k;
                    if i < low {
                        assert(now[i]@ == k);
                    } else {
                        assert(now[i + 1]@ == k);
                    }
                }
                if k == key@ {
                    assert(now[low as int]@ == k);
                }
            }
        }
        true
    }
}

/// A key shortened for a message: the first twelve characters of the hash, and the axis.
pub open spec fn short_text(key: ArrayKeyView) -> Seq<char> {
    (if key.data_hash.len() <= 12 {
        key.data_hash
    } else {
        key.data_hash.take(12)
    }) + ", "@ + key.time_axis
}

fn short(key: &ArrayKey) -> (r: String)
    ensures
        r@ == short_text(key@),
{
    let chars = chars_of(key.data_hash.as_str());
    let mut front: Vec<char> = Vec::new();
    let mut i: usize = 0;
    while i < chars.len() && i < 12
        invariant
            i <= chars.len(),
            i <= 12,
            chars@ == key@.data_hash,
            front@ == chars@.take(i as int),
        decreases 12 - i,
    {
        front.push(chars[i]);
        i += 1;
    }
    proof {
        if chars@.len() <= 12 {
            assert(chars@.take(i as int) =~= chars@);
        }
    }
    let mut out = text_of(&front);
    out.append(", ");
    out.append(key.time_axis.as_str());
    out
}

pub open spec fn unclaimed_text(key: ArrayKeyView) -> Seq<char> {
    "the values file holds an array ("@ + short_text(key)
        + ") that no series row names; a partition's two halves come from one export and must describe the same arrays"@
}

pub(crate) fn unclaimed(key: &ArrayKey) -> (r: String)
    ensures
        r@ == unclaimed_text(key@),
{
    let mut e = "the values file holds an array (".to_string();
    e.append(short(key).as_str());
    e.append(
        ") that no series row names; a partition's two halves come from one export and must describe the same arrays",
    );
    e
}

pub open spec fn unbacked_text(key: ArrayKeyView) -> Seq<char> {
    "a series row names an array ("@ + short_text(key)
        + ") the values file does not hold; a partition's two halves come from one export and must describe the same arrays"@
}

pub(crate) fn unbacked(key: &ArrayKey) -> (r: String)
    ensures
        r@ == unbacked_text(key@),
{
    let mut e = "a series row names an array (".to_string();
    e.append(short(key).as_str());
    e.append(
        ") the values file does not hold; a partition's two halves come from one export and must describe the same arrays",
    );
    e
}

pub open spec fn reappeared_text(key: ArrayKeyView, half: Seq<char>) -> Seq<char> {
    "the "@ + half + " file returns to array ("@ + short_text(key)
        + ") after another key's rows; both halves must be sorted by `"@ + DATA_HASH@ + "`, `"@
        + TIME_AXIS@ + "`"@
}

pub(crate) fn reappeared(key: &ArrayKey, half: &str) -> (r: String)
    ensures
        r@ == reappeared_text(key@, half@),
{
    let mut e = "the ".to_string();
    e.append(half);
    e.append(" file returns to array (");
    e.append(short(key).as_str());
    e.append(") after another key's rows; both halves must be sorted by `");
    e.append(DATA_HASH);
    e.append("`, `");
    e.append(TIME_AXIS);
    e.append("`");
    e
}

// ---- Values -----------------------------------------------------------------------------------

/// One array's rows, as the values file holds them.
#[derive(Debug)]
pub struct ValuesGroup {
    pub key: ArrayKey,
    pub timestamps: Vec<i64>,
    /// Empty where the file has no issue times.
    pub issue: Vec<i64>,
    /// Empty where the file has no lane column.
    pub lanes: Vec<LaneValue>,
    /// The per-step shape, from the nesting of the value column.
    pub dims: Vec<usize>,
    pub dtype: Dtype,
    pub bytes: Vec<u8>,
    /// The zone of the time column, the last resort for a foreign file that names no time
    /// reference anywhere.
    pub zone: Option<String>,
}

/// A [`ValuesGroup`], with its lists as sequences.
pub struct GroupView {
    pub key: ArrayKeyView,
    pub timestamps: Seq<i64>,
    pub issue: Seq<i64>,
    pub lanes: Seq<LaneValue>,
    pub dims: Seq<usize>,
    pub dtype: Dtype,
    pub bytes: Seq<u8>,
    pub zone: Option<Seq<char>>,
}

impl View for ValuesGroup {
    type V = GroupView;

    open spec fn view(&self) -> GroupView {
        GroupView {
            key: self.key@,
            timestamps: self.timestamps@,
            issue: self.issue@,
            lanes: self.lanes@,
            dims: self.dims@,
            dtype: self.dtype,
            bytes: self.bytes@,
            zone: opt_text(self.zone),
        }
    }
}

impl GroupView {
    /// Whether the instants are on the calendar and the columns as long as each other.
    pub open spec fn wf(self) -> bool {
        &&& forall|k: int|
            0 <= k < self.timestamps.len() ==> is_instant(#[trigger] self.timestamps[k] as int)
        &&& forall|k: int| 0 <= k < self.issue.len() ==> is_instant(#[trigger] self.issue[k] as int)
        &&& 0 < product(self.dims) <= usize::MAX
        &&& self.bytes.len() == self.timestamps.len() * (product(self.dims) * self.dtype.bytes())
    }

    /// The array the rows make up.
    pub open spec fn array(self) -> ArrayView {
        ArrayView {
            dtype: self.dtype,
            shape: seq![self.timestamps.len() as usize] + self.dims,
            bytes: self.bytes,
        }
    }
}

impl ValuesGroup {
    /// The array the rows make up.
    pub fn array(&self) -> (r: TypedArray)
        requires
            self@.wf(),
        ensures
            r@ == self@.array(),
            r@.fits(),
    {
        let n: usize = self.timestamps.len();
        let mut shape: Vec<usize> = Vec::new();
        shape.push(n);
        let mut rest = copy_sizes(&self.dims);
        shape.append(&mut rest);
        proof {
            assert(shape@ =~= seq![n] + self.dims@);
            product_of_both(seq![n], self.dims@);
            product_of_one(n);
            let one = product(self.dims@);
            let size = self.dtype.bytes();
            assert((n * one) * size == n * (one * size)) by (nonlinear_arith);
        }
        TypedArray { dtype: self.dtype, shape, bytes: self.bytes.clone() }
    }
}

/// One row of a values file, as it is read.
pub struct ReadLine {
    pub key: ArrayKeyView,
    pub target: i64,
    pub issue: Option<i64>,
    pub lane: Option<LaneValue>,
    pub dims: Seq<usize>,
    pub dtype: Dtype,
    pub value: Seq<u8>,
}

/// A text column's text in a row, empty where there is no such column.
pub open spec fn cell_text(column: Option<Seq<Seq<char>>>, k: int) -> Seq<char> {
    match column {
        Some(v) => v[k],
        None => seq![],
    }
}

/// The columns of a batch of a values file, as far as they are read.
pub struct BatchView {
    pub hashes: Option<Seq<Seq<char>>>,
    pub axes: Option<Seq<Seq<char>>>,
    pub stamps: Seq<i64>,
    pub issued: Option<Seq<i64>>,
    pub lanes: Option<Seq<LaneValue>>,
    pub dims: Seq<usize>,
    pub values: ArrayView,
}

impl BatchView {
    /// One row of the batch.
    pub open spec fn line(self, k: int) -> ReadLine {
        ReadLine {
            key: ArrayKeyView {
                data_hash: cell_text(self.hashes, k),
                time_axis: cell_text(self.axes, k),
            },
            target: self.stamps[k],
            issue: match self.issued {
                Some(v) => Some(v[k]),
                None => None,
            },
            lane: match self.lanes {
                Some(v) => Some(v[k]),
                None => None,
            },
            dims: self.dims,
            dtype: self.values.dtype,
            value: cell(
                self.values.bytes,
                k,
                (product(self.dims) * self.values.dtype.bytes()) as int,
            ),
        }
    }
}

impl BatchView {
    /// The first `n` rows of the batch.
    pub open spec fn lines(self, n: nat) -> Seq<ReadLine> {
        Seq::new(n, |k: int| self.line(k))
    }
}

/// What a batch of a values file says, or the first column that says nothing.
pub open spec fn batch_view(b: ReadBatch) -> Result<BatchView, Seq<char>> {
    match text_of_column(b, DATA_HASH@) {
        Err(text) => Err(text),
        Ok(hashes) => match text_of_column(b, TIME_AXIS@) {
            Err(text) => Err(text),
            Ok(axes) => match stamps_in(b, TIMESTAMP@) {
                Err(text) => Err(text),
                Ok(stamps) => match issued_in(b) {
                    Err(text) => Err(text),
                    Ok(issued) => match lanes_in(b) {
                        Err(text) => Err(text),
                        Ok(lanes) => match values_in(b) {
                            Err(text) => Err(text),
                            Ok((dims, values)) => Ok(
                                BatchView { hashes, axes, stamps, issued, lanes, dims, values },
                            ),
                        },
                    },
                },
            },
        },
    }
}

/// The issue times of a batch, nothing where it has no such column.
pub open spec fn issued_in(b: ReadBatch) -> Result<Option<Seq<i64>>, Seq<char>> {
    if b.column(ISSUE_TIME@) is None {
        Ok(None)
    } else {
        match stamps_in(b, ISSUE_TIME@) {
            Ok(v) => Ok(Some(v)),
            Err(text) => Err(text),
        }
    }
}

/// What a reader holds: the arrays that are complete, the one that is open, every key that was
/// opened, and the zone of the time column.
pub struct ReaderView {
    pub ready: Seq<GroupView>,
    pub open: Option<GroupView>,
    pub opened: Seq<ArrayKeyView>,
    pub zone: Option<Seq<char>>,
}

pub open spec fn retyped_text() -> Seq<char> {
    "two row groups disagree about the value column's type"@
}

/// A group without rows.
pub open spec fn opened_group(line: ReadLine, zone: Option<Seq<char>>) -> GroupView {
    GroupView {
        key: line.key,
        timestamps: seq![],
        issue: seq![],
        lanes: seq![],
        dims: line.dims,
        dtype: line.dtype,
        bytes: seq![],
        zone,
    }
}

/// A group with one row more.
pub open spec fn with_line(g: GroupView, line: ReadLine) -> GroupView {
    GroupView {
        timestamps: g.timestamps.push(line.target),
        issue: match line.issue {
            Some(at) => g.issue.push(at),
            None => g.issue,
        },
        lanes: match line.lane {
            Some(lane) => g.lanes.push(lane),
            None => g.lanes,
        },
        bytes: g.bytes + line.value,
        ..g
    }
}

/// A reader that has turned to the array of a row: the same one, or a new one unless its key
/// was opened before.
pub open spec fn turned(s: ReaderView, line: ReadLine) -> Result<ReaderView, Seq<char>> {
    if s.open is Some && s.open->0.key == line.key {
        Ok(s)
    } else if s.opened.contains(line.key) {
        Err(reappeared_text(line.key, "values"@))
    } else {
        Ok(
            ReaderView {
                ready: match s.open {
                    Some(g) => s.ready.push(g),
                    None => s.ready,
                },
                open: Some(opened_group(line, s.zone)),
                opened: s.opened.push(line.key),
                zone: s.zone,
            },
        )
    }
}

/// A reader after one row more.
pub open spec fn read_line(s: ReaderView, line: ReadLine) -> Result<ReaderView, Seq<char>> {
    match turned(s, line) {
        Err(text) => Err(text),
        Ok(t) => {
            let g = t.open->0;
            if g.dims != line.dims || g.dtype != line.dtype {
                Err(retyped_text())
            } else {
                Ok(ReaderView { open: Some(with_line(g, line)), ..t })
            }
        },
    }
}

/// A reader after the first `n` of some rows.
pub open spec fn read_lines(s: ReaderView, lines: Seq<ReadLine>, n: int) -> Result<
    ReaderView,
    Seq<char>,
>
    decreases n,
{
    if n <= 0 {
        Ok(s)
    } else {
        match read_lines(s, lines, n - 1) {
            Err(text) => Err(text),
            Ok(t) => read_line(t, lines[n - 1]),
        }
    }
}

/// A reader after one batch more.
pub open spec fn read_batch(s: ReaderView, b: ReadBatch) -> Result<ReaderView, Seq<char>> {
    if b.rows == 0 {
        Ok(s)
    } else {
        match (if s.zone is None {
            zone_in(b, TIMESTAMP@)
        } else {
            Ok(s.zone)
        }) {
            Err(text) => Err(text),
            Ok(zone) => match batch_view(b) {
                Err(text) => Err(text),
                Ok(view) => read_lines(
                    ReaderView { zone, ..s },
                    view.lines(b.rows as nat),
                    b.rows as int,
                ),
            },
        }
    }
}

proof fn read_fault_persists(s: ReaderView, lines: Seq<ReadLine>, n: int, m: int)
    requires
        0 <= n <= m,
        read_lines(s, lines, n) is Err,
    ensures
        read_lines(s, lines, m) == read_lines(s, lines, n),
    decreases m - n,
{
    if n < m {
        read_fault_persists(s, lines, n, m - 1);
    }
}

/// Whether no level of a batch's value column has lists without items.
pub open spec fn solid(b: ReadBatch) -> bool {
    b.value matches Some(v) ==> product(level_dims(v.levels@)) > 0
}

/// Reads a values file batch by batch, and hands out one array at a time.
pub struct ValuesReader {
    zone: Option<String>,
    open: Option<ValuesGroup>,
    ready: VecDeque<ValuesGroup>,
    seen: KeySet,
    done: bool,
    opened: Ghost<Seq<ArrayKeyView>>,
}

/// The views of groups.
pub open spec fn group_views(list: Seq<ValuesGroup>) -> Seq<GroupView> {
    list.map_values(|g: ValuesGroup| g@)
}

/// What there is to do next.
#[derive(Debug)]
pub enum NextValues {
    /// An array is complete.
    Group(ValuesGroup),
    /// The file has no further array.
    Finished,
    /// Another batch has to be read first.
    Batch,
}

impl View for ValuesReader {
    type V = ReaderView;

    closed spec fn view(&self) -> ReaderView {
        ReaderView {
            ready: group_views(self.ready@),
            open: match self.open {
                Some(g) => Some(g@),
                None => None,
            },
            opened: self.opened@,
            zone: opt_text(self.zone),
        }
    }
}

impl ValuesReader {
    /// Whether the whole file was read.
    pub closed spec fn ended(self) -> bool {
        self.done
    }

    /// Whether every group is sound, and the keys seen are those that were opened.
    pub closed spec fn wf(self) -> bool {
        &&& self.seen.wf()
        &&& forall|k: ArrayKeyView| #[trigger] self.seen.contains(k) <==> self.opened@.contains(k)
        &&& forall|i: int| 0 <= i < self.ready@.len() ==> (#[trigger] self.ready@[i])@.wf()
        &&& self.open is Some ==> self.open->0@.wf()
    }

    /// A reader that has read nothing.
    pub fn new() -> (r: ValuesReader)
        ensures
            r.wf(),
            !r.ended(),
            r@ == (ReaderView { ready: seq![], open: None, opened: seq![], zone: None }),
    {
        let r = ValuesReader {
            zone: None,
            open: None,
            ready: VecDeque::new(),
            seen: KeySet::new(),
            done: false,
            opened: Ghost(Seq::empty()),
        };
        proof {
            assert(r@.ready =~= seq![]);
        }
        r
    }

    /// Says that the file has no further batch.
    pub fn end(&mut self)
        requires
            old(self).wf(),
        ensures
            final(self).wf(),
            final(self).ended(),
            final(self)@ == old(self)@,
    {
        self.done = true;
    }

    /// The next array, if one is complete.
    pub fn poll(&mut self) -> (r: NextValues)
        requires
            old(self).wf(),
        ensures
            final(self).wf(),
            final(self).ended() == old(self).ended(),
            final(self)@.opened == old(self)@.opened,
            final(self)@.zone == old(self)@.zone,
            match r {
                NextValues::Group(g) => {
                    &&& g@.wf()
                    &&& if old(self)@.ready.len() > 0 {
                        &&& g@ == old(self)@.ready[0]
                        &&& final(self)@.ready == old(self)@.ready.skip(1)
                        &&& final(self)@.open == old(self)@.open
                    } else {
                        &&& old(self).ended()
                        &&& old(self)@.open == Some(g@)
                        &&& final(self)@.open is None
                        &&& final(self)@.ready == old(self)@.ready
                    }
                },
                NextValues::Finished => {
                    &&& old(self)@.ready.len() == 0 && old(self).ended() && old(self)@.open is None
                    &&& final(self)@ == old(self)@
                },
                NextValues::Batch => {
                    &&& old(self)@.ready.len() == 0 && !old(self).ended()
                    &&& final(self)@ == old(self)@
                },
            },
    {
        let ghost was = self.ready@;
        match self.ready.pop_front() {
            Some(g) => {
                proof {
                    assert(self@.ready =~= old(self)@.ready.skip(1));
                    assert(was[0]@.wf());
                    assert forall|i: int| 0 <= i < self.ready@.len() implies (
                    #[trigger] self.ready@[i])@.wf() by {
                        assert(self.ready@[i] == was[i + 1]);
                    }
                }
                NextValues::Group(g)
            },
            None => {
                proof {
                    assert(self@.ready =~= old(self)@.ready);
                }
                if !self.done {
                    return NextValues::Batch;
                }
                match self.open.take() {
                    Some(g) => NextValues::Group(g),
                    None => NextValues::Finished,
                }
            },
        }
    }

    fn take_line(
        &mut self,
        key: ArrayKey,
        target: i64,
        issue: Option<i64>,
        lane: Option<LaneValue>,
        dims: &Vec<usize>,
        values: &TypedArray,
        row: usize,
        width: usize,
    ) -> (r: Result<(), String>)
        requires
            old(self).wf(),
            is_instant(target as int),
            issue is Some ==> is_instant(issue->0 as int),
            0 < product(dims@) <= usize::MAX,
            width == product(dims@) * values.dtype.bytes(),
            (row + 1) * width <= values.bytes@.len(),
        ensures
            ({
                let line = ReadLine {
                    key: key@,
                    target,
                    issue,
                    lane,
                    dims: dims@,
                    dtype: values.dtype,
                    value: cell(values.bytes@, row as int, width as int),
                };
                match (r, read_line(old(self)@, line)) {
                    (Ok(_), Ok(expected)) => final(self).wf() && final(self)@ == expected
                        && final(self).ended() == old(self).ended(),
                    (Err(e), Err(text)) => e@ == text,
                    _ => false,
                }
            }),
    {
        let ghost line = ReadLine {
            key: key@,
            target,
            issue,
            lane,
            dims: dims@,
            dtype: values.dtype,
            value: cell(values.bytes@, row as int, width as int),
        };
        let ghost start_view = self@;
        let same = match &self.open {
            Some(g) => g.key.same(&key),
            None => false,
        };
        if !same {
            if !self.seen.insert(&key) {
                return Err(reappeared(&key, "values"));
            }
            match self.open.take() {
                Some(g) => {
                    let ghost was = self.ready@;
                    self.ready.push_back(g);
                    proof {
                        assert(group_views(self.ready@) =~= group_views(was).push(g@));
                    }
                },
                None => {},
            }
            let zone = match &self.zone {
                Some(z) => Some(z.clone()),
                None => None,
            };
            let ghost key_view = key@;
            self.open = Some(
                ValuesGroup {
                    key,
                    timestamps: Vec::new(),
                    issue: Vec::new(),
                    lanes: Vec::new(),
                    dims: copy_sizes(dims),
                    dtype: values.dtype,
                    bytes: Vec::new(),
                    zone,
                },
            );
            let ghost opened_before = self.opened@;
            self.opened = Ghost(opened_before.push(key_view));
            proof {
                assert forall|k: ArrayKeyView| #[trigger] self.seen.contains(k)
                    <==> self.opened@.contains(k) by {
                    if opened_before.contains(k) {
                        let i = choose|i: int|
                            0 <= i < opened_before.len() && opened_before[i] == k;
                        assert(self.opened@[i] == k);
                    }
                    if k == key_view {
                        assert(self.opened@[opened_before.len() as int] == k);
                    }
                    if self.opened@.contains(k) {
                        let i = choose|i: int| 0 <= i < self.opened@.len() && self.opened@[i] == k;
                        if i < opened_before.len() {
                            assert(opened_before[i] == k);
                        }
                    }
                }
                assert(self.open->0@ == opened_group(line, self@.zone));
                assert(0 * (product(dims@) * values.dtype.bytes()) == 0);
            }
        }
        proof {
            assert(turned(start_view, line) is Ok);
            assert(turned(start_view, line)->Ok_0 == self@);
            assert(self.wf());
        }
        let mut group = match self.open.take() {
            Some(g) => g,
            None => {
                proof {
                    assert(false);
                }
                return Ok(());
            },
        };
        let ghost before = group@;
        if !same_sizes(&group.dims, dims) || group.dtype != values.dtype {
            return Err("two row groups disagree about the value column's type".to_string());
        }
        group.timestamps.push(target);
        match issue {
            Some(at) => {
                group.issue.push(at);
            },
            None => {},
        }
        match lane {
            Some(lane) => {
                group.lanes.push(lane);
            },
            None => {},
        }
        let length: usize = values.bytes.len();
        proof {
            cell_inside(row as int, row + 1, width as int);
            assert(row * width <= length);
        }
        append_bytes(&mut group.bytes, &values.bytes, row * width, width);
        proof {
            let n = before.timestamps.len() as int;
            assert((n + 1) * width == n * width + width) by (nonlinear_arith);
            assert(group@.bytes.len() == before.bytes.len() + width);
            assert(group@ == with_line(before, line));
            assert forall|k: int| 0 <= k < group@.timestamps.len() implies is_instant(
                #[trigger] group@.timestamps[k] as int,
            ) by {
                if k < n {
                    assert(group@.timestamps[k] == before.timestamps[k]);
                }
            }
            assert forall|k: int| 0 <= k < group@.issue.len() implies is_instant(
                #[trigger] group@.issue[k] as int,
            ) by {
                if k < before.issue.len() {
                    assert(group@.issue[k] == before.issue[k]);
                }
            }
            assert(group@.wf());
        }
        self.open = Some(group);
        Ok(())
    }

    /// Takes one batch up.
    pub fn push_batch(&mut self, b: &ReadBatch) -> (r: Result<(), String>)
        requires
            old(self).wf(),
            b.wf(),
            solid(*b),
        ensures
            match (r, read_batch(old(self)@, *b)) {
                (Ok(_), Ok(expected)) => final(self).wf() && final(self)@ == expected
                    && final(self).ended() == old(self).ended(),
                (Err(e), Err(text)) => e@ == text,
                _ => false,
            },
    {
        if b.rows == 0 {
            return Ok(());
        }
        if self.zone.is_none() {
            match arrow_zone(b, TIMESTAMP) {
                Ok(zone) => {
                    self.zone = zone;
                },
                Err(e) => {
                    return Err(e);
                },
            }
        }
        let ghost start = self@;
        proof {
            assert(start.ready == old(self)@.ready);
        }
        let hashes = match text_column(b, DATA_HASH) {
            Ok(column) => column,
            Err(e) => {
                return Err(e);
            },
        };
        let axes = match text_column(b, TIME_AXIS) {
            Ok(column) => column,
            Err(e) => {
                return Err(e);
            },
        };
        let stamps = match read_timestamps(b, TIMESTAMP) {
            Ok(stamps) => stamps,
            Err(e) => {
                return Err(e);
            },
        };
        let issued: Option<Vec<i64>> = if b.column_by_name(ISSUE_TIME).is_none() {
            None
        } else {
            match read_timestamps(b, ISSUE_TIME) {
                Ok(issued) => Some(issued),
                Err(e) => {
                    return Err(e);
                },
            }
        };
        let lanes = match read_lanes(b) {
            Ok(lanes) => lanes,
            Err(e) => {
                return Err(e);
            },
        };
        let (dims, values) = match batch_values(b) {
            Ok(both) => both,
            Err(e) => {
                return Err(e);
            },
        };
        let ghost view = batch_view(*b)->Ok_0;
        let ghost lines = view.lines(b.rows as nat);
        let ghost one = product(dims@) * values.dtype.bytes();
        proof {
            let n = b.rows;
            product_of_both(seq![n], dims@);
            product_of_one(n);
            let each = product(dims@);
            let size = values.dtype.bytes();
            assert((n * each) * size == n * (each * size)) by (nonlinear_arith);
            assert(n * one == values.bytes@.len());
            assert(one <= n * one) by (nonlinear_arith)
                requires
                    n >= 1,
                    one >= 0,
            ;
            assert(each <= each * size) by (nonlinear_arith)
                requires
                    size >= 1,
                    each >= 0,
            ;
        }
        let length: usize = values.bytes.len();
        let count: usize = match element_count(&dims) {
            Some(count) => count,
            None => {
                proof {
                    assert(false);
                }
                1
            },
        };
        let width: usize = count * values.dtype.size();
        let mut row: usize = 0;
        while row < b.rows
            invariant
                row <= b.rows,
                self.wf(),
                self.ended() == old(self).ended(),
                view.hashes == opt_texts(hashes),
                view.axes == opt_texts(axes),
                view.stamps == stamps@,
                issued matches Some(v) ==> view.issued == Some(v@) && v@.len() == b.rows,
                issued is None ==> view.issued is None,
                view.lanes == opt_lanes(lanes),
                view.dims == dims@,
                view.values == values@,
                hashes is Some ==> hashes->0@.len() == b.rows,
                axes is Some ==> axes->0@.len() == b.rows,
                lanes is Some ==> lanes->0@.len() == b.rows,
                stamps@.len() == b.rows,
                forall|k: int| 0 <= k < stamps@.len() ==> is_instant(#[trigger] stamps@[k] as int),
                issued matches Some(v) ==> forall|k: int|
                    0 <= k < v@.len() ==> is_instant(#[trigger] v@[k] as int),
                0 < product(dims@) <= usize::MAX,
                width == product(dims@) * values.dtype.bytes(),
                b.rows * width == values.bytes@.len(),
                lines == view.lines(b.rows as nat),
                read_batch(old(self)@, *b) == read_lines(start, lines, b.rows as int),
                read_lines(start, lines, row as int) == Ok::<_, Seq<char>>(self@),
            decreases b.rows - row,
        {
            let key = ArrayKey {
                data_hash: text_at(&hashes, row),
                time_axis: text_at(&axes, row),
            };
            let issue: Option<i64> = match &issued {
                Some(v) => Some(v[row]),
                None => None,
            };
            let lane: Option<LaneValue> = match &lanes {
                Some(v) => Some(v[row]),
                None => None,
            };
            proof {
                cell_inside(row as int, b.rows as int, width as int);
                assert(is_instant(stamps@[row as int] as int));
                if issued is Some {
                    assert(is_instant(issued->0@[row as int] as int));
                }
            }
            match self.take_line(key, stamps[row], issue, lane, &dims, &values, row, width) {
                Ok(_) => {},
                Err(e) => {
                    proof {
                        read_fault_persists(start, lines, row + 1, b.rows as int);
                    }
                    return Err(e);
                },
            }
            row += 1;
        }
        Ok(())
    }
}

/// A text column's text in a row, empty where there is no such column.
pub(crate) fn text_at(column: &Option<Vec<String>>, row: usize) -> (r: String)
    requires
        column is Some ==> row < column->0@.len(),
    ensures
        r@ == cell_text(opt_texts(*column), row as int),
{
    match column {
        Some(v) => v[row].clone(),
        None => String::new(),
    }
}

// ---- What reading keeps ---------------------------------------------------------------------

impl ReaderView {
    /// Every array held, the open one last.
    pub open spec fn groups(self) -> Seq<GroupView> {
        match self.open {
            Some(g) => self.ready.push(g),
            None => self.ready,
        }
    }

    /// Whether every key that was opened is that of an array handed out or of one held, in
    /// order, and no two are the same.
    pub open spec fn follows(self, handed: Seq<ArrayKeyView>) -> bool {
        &&& self.opened == handed + group_keys(self.groups())
        &&& self.opened.no_duplicates()
    }
}

/// The keys of arrays.
pub open spec fn group_keys(groups: Seq<GroupView>) -> Seq<ArrayKeyView> {
    groups.map_values(|g: GroupView| g.key)
}

/// The key and the instant of every row of arrays, one array after the other.
pub open spec fn flat_rows(groups: Seq<GroupView>) -> Seq<(ArrayKeyView, i64)>
    decreases groups.len(),
{
    if groups.len() == 0 {
        seq![]
    } else {
        flat_rows(groups.drop_last()) + groups.last().timestamps.map_values(
            |t: i64| (groups.last().key, t),
        )
    }
}

/// The bytes of every row of arrays, one array after the other.
pub open spec fn flat_bytes(groups: Seq<GroupView>) -> Seq<u8>
    decreases groups.len(),
{
    if groups.len() == 0 {
        seq![]
    } else {
        flat_bytes(groups.drop_last()) + groups.last().bytes
    }
}

proof fn line_is_kept(s: ReaderView, line: ReadLine, handed: Seq<ArrayKeyView>)
    requires
        s.follows(handed),
        read_line(s, line) is Ok,
    ensures
        read_line(s, line)->Ok_0.follows(handed),
        flat_rows(read_line(s, line)->Ok_0.groups()) == flat_rows(s.groups()).push(
            (line.key, line.target),
        ),
        flat_bytes(read_line(s, line)->Ok_0.groups()) == flat_bytes(s.groups()) + line.value,
{
    let t = turned(s, line)->Ok_0;
    let r = read_line(s, line)->Ok_0;
    let g = t.open->0;
    let h = r.open->0;
    assert(t.groups().drop_last() =~= t.ready);
    assert(r.groups().drop_last() =~= t.ready);
    assert(t.groups().last() == g);
    assert(r.groups().last() == h);
    assert(h.timestamps.map_values(|x: i64| (h.key, x)) =~= g.timestamps.map_values(
        |x: i64| (g.key, x),
    ).push((line.key, line.target)));
    assert(flat_rows(r.groups()) =~= flat_rows(t.groups()).push((line.key, line.target)));
    assert(flat_bytes(r.groups()) =~= flat_bytes(t.groups()) + line.value);
    assert(group_keys(r.groups()) =~= group_keys(t.groups()));
    if !(s.open is Some && s.open->0.key == line.key) {
        assert(t.ready =~= s.groups());
        assert(g.timestamps.map_values(|x: i64| (g.key, x)) =~= seq![]);
        assert(flat_rows(t.groups()) =~= flat_rows(s.groups()));
        assert(flat_bytes(t.groups()) =~= flat_bytes(s.groups()));
        assert(group_keys(t.groups()) =~= group_keys(s.groups()).push(line.key));
        assert(t.opened =~= handed + group_keys(t.groups()));
    }
}

/// The bytes of the first `n` of some rows.
pub open spec fn line_bytes(lines: Seq<ReadLine>, n: int) -> Seq<u8>
    decreases n,
{
    if n <= 0 {
        seq![]
    } else {
        line_bytes(lines, n - 1) + lines[n - 1].value
    }
}

/// Reading loses no row and moves none: the arrays held hold exactly the rows they held and
/// those that were read, in the order of the file, each under its own key; and no key is that
/// of two arrays.
pub proof fn reading_keeps_every_row(
    s: ReaderView,
    lines: Seq<ReadLine>,
    n: int,
    handed: Seq<ArrayKeyView>,
)
    requires
        s.follows(handed),
        0 <= n <= lines.len(),
        read_lines(s, lines, n) is Ok,
    ensures
        read_lines(s, lines, n)->Ok_0.follows(handed),
        flat_rows(read_lines(s, lines, n)->Ok_0.groups()) == flat_rows(s.groups()) + lines.take(
            n,
        ).map_values(|l: ReadLine| (l.key, l.target)),
        flat_bytes(read_lines(s, lines, n)->Ok_0.groups()) == flat_bytes(s.groups()) + line_bytes(
            lines,
            n,
        ),
    decreases n,
{
    let both = |l: ReadLine| (l.key, l.target);
    if n == 0 {
        assert(flat_bytes(s.groups()) + line_bytes(lines, 0) =~= flat_bytes(s.groups()));
        assert(flat_rows(s.groups()) + lines.take(0).map_values(both) =~= flat_rows(s.groups()));
    } else {
        reading_keeps_every_row(s, lines, n - 1, handed);
        let t = read_lines(s, lines, n - 1)->Ok_0;
        let line = lines[n - 1];
        line_is_kept(t, line, handed);
        assert(flat_bytes(s.groups()) + line_bytes(lines, n - 1) + line.value =~= flat_bytes(
            s.groups(),
        ) + line_bytes(lines, n));
        assert(lines.take(n).map_values(both) =~= lines.take(n - 1).map_values(both).push(
            (line.key, line.target),
        ));
        assert((flat_rows(s.groups()) + lines.take(n - 1).map_values(both)).push(
            (line.key, line.target),
        ) =~= flat_rows(s.groups()) + lines.take(n).map_values(both));
    }
}

/// How a file is cut into batches does not matter: reading some rows and then others is
/// reading them all.
pub proof fn batches_do_not_matter(
    s: ReaderView,
    first: Seq<ReadLine>,
    second: Seq<ReadLine>,
    n: int,
)
    requires
        0 <= n <= second.len(),
    ensures
        read_lines(s, first + second, first.len() + n) == (match read_lines(
            s,
            first,
            first.len() as int,
        ) {
            Err(text) => Err(text),
            Ok(t) => read_lines(t, second, n),
        }),
    decreases n,
{
    if n > 0 {
        batches_do_not_matter(s, first, second, n - 1);
        assert((first + second)[first.len() + n - 1] == second[n - 1]);
    } else {
        same_lines_read_the_same(s, first, first + second, first.len() as int);
    }
}

proof fn same_lines_read_the_same(s: ReaderView, a: Seq<ReadLine>, b: Seq<ReadLine>, n: int)
    requires
        0 <= n <= a.len(),
        n <= b.len(),
        forall|k: int| 0 <= k < n ==> a[k] == b[k],
    ensures
        read_lines(s, a, n) == read_lines(s, b, n),
    decreases n,
{
    if n > 0 {
        same_lines_read_the_same(s, a, b, n - 1);
        assert(a[n - 1] == b[n - 1]);
    }
}

/// A row joins the group of its own key, which it opens if it is the first of it: what the group
/// held stays in front, and the row's target, issue time, lane and value come last. A group that
/// it closes waits behind those that were closed before.
pub proof fn rows_join_their_group(s: ReaderView, line: ReadLine)
    requires
        read_line(s, line) is Ok,
    ensures
        ({
            let t = read_line(s, line)->Ok_0;
            let g = t.open->0;
            let joins = s.open is Some && s.open->0.key == line.key;
            let of_issue = match line.issue {
                Some(at) => seq![at],
                None => seq![],
            };
            let of_lane = match line.lane {
                Some(lane) => seq![lane],
                None => seq![],
            };
            &&& t.open is Some
            &&& t.zone == s.zone
            &&& g.key == line.key
            &&& g.dims == line.dims
            &&& g.dtype == line.dtype
            &&& joins ==> {
                let h = s.open->0;
                &&& t.ready == s.ready
                &&& t.opened == s.opened
                &&& g.zone == h.zone
                &&& g.timestamps == h.timestamps + seq![line.target]
                &&& g.issue == h.issue + of_issue
                &&& g.lanes == h.lanes + of_lane
                &&& g.bytes == h.bytes + line.value
            }
            &&& !joins ==> {
                &&& t.ready == s.ready + (if s.open is Some {
                    seq![s.open->0]
                } else {
                    seq![]
                })
                &&& !s.opened.contains(line.key)
                &&& t.opened == s.opened + seq![line.key]
                &&& g.zone == s.zone
                &&& g.timestamps == seq![line.target]
                &&& g.issue == of_issue
                &&& g.lanes == of_lane
                &&& g.bytes == line.value
            }
        }),
{
}

/// A row is refused exactly where its key was left before, or where its elements are not those of
/// its group.
pub proof fn rows_are_refused_out_of_turn(s: ReaderView, line: ReadLine)
    ensures
        ({
            let joins = s.open is Some && s.open->0.key == line.key;
            read_line(s, line) is Err <==> (!joins && s.opened.contains(line.key)) || (joins && (
            s.open->0.dims != line.dims || s.open->0.dtype != line.dtype))
        }),
{
}

} // verus!
