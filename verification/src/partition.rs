//! What decides which file a series' rows go in, and what that file is called.
//!
//! Three things cannot vary within one table: the set of key columns, the type of `value`,
//! and the zone of `timestamp`. So a selection is partitioned by the triple of series type,
//! value kind and time reference.
use crate::filename::{
    folded, legal_component, lower_text, safe, sanitize, sanitized, sanitized_is_legal,
    stem_ends_at_a_dot,
};
use crate::kinds::{
    abs_minutes, magnitude, reference_view, Dtype, ElementType, ElementTypeView, TimeReference,
    TimeReferenceView, TimeSeriesType,
};
use crate::text::{
    before, before_irreflexive, before_total, before_transitive, decimal, decimal_text, digit,
    join, joined, padded, same_text, text_less, texts, two_digits,
};
use vstd::prelude::*;

verus! {

/// The `value` column's identity: what decides its type.
///
/// The function-data kinds are keyed by kind alone and not by width: every row of one in a
/// file is padded to the widest series of the file.
#[derive(Debug)]
pub enum ValueKind {
    /// A dtype plus the per-step element shape, empty for a plain scalar.
    Dense { dtype: Dtype, shape: Vec<usize> },
    /// A fixed-arity homogeneous tuple.
    Tuple { arity: usize, dtype: Dtype },
    /// One of the function-data kinds, by its spelling.
    Composite(String),
}

/// A [`ValueKind`], with its list and text as sequences.
pub enum KindView {
    Dense(Dtype, Seq<usize>),
    Tuple(nat, Dtype),
    Composite(Seq<char>),
}

impl View for ValueKind {
    type V = KindView;

    open spec fn view(&self) -> KindView {
        match *self {
            ValueKind::Dense { dtype, shape } => KindView::Dense(dtype, shape@),
            ValueKind::Tuple { arity, dtype } => KindView::Tuple(arity as nat, dtype),
            ValueKind::Composite(kind) => KindView::Composite(kind@),
        }
    }
}

/// Each size in decimal.
pub open spec fn size_texts(shape: Seq<usize>) -> Seq<Seq<char>> {
    shape.map_values(|d: usize| decimal_text(d as nat))
}

impl KindView {
    /// The kind a stored row belongs to.
    pub open spec fn of(element_type: ElementTypeView, shape: Seq<usize>) -> KindView {
        match element_type {
            ElementTypeView::Scalar(dtype) => KindView::Dense(dtype, shape),
            ElementTypeView::Tuple(arity, dtype) => KindView::Tuple(arity, dtype),
            ElementTypeView::Composite(kind) => KindView::Composite(kind),
        }
    }

    /// The element type a file of this kind names.
    pub open spec fn element_type(self) -> ElementTypeView {
        match self {
            KindView::Dense(dtype, _) => ElementTypeView::Scalar(dtype),
            KindView::Tuple(arity, dtype) => ElementTypeView::Tuple(arity, dtype),
            KindView::Composite(kind) => ElementTypeView::Composite(kind),
        }
    }

    /// The filename fragment of the kind: `f64`, `f64_2x3`, `tuple3_f64`, or its name.
    pub open spec fn slug(self) -> Seq<char> {
        match self {
            KindView::Dense(dtype, shape) => if shape.len() == 0 {
                dtype.spelling()
            } else {
                dtype.spelling() + "_"@ + joined(size_texts(shape), "x"@)
            },
            KindView::Tuple(arity, dtype) => "tuple"@ + decimal_text(arity) + "_"@
                + dtype.spelling(),
            KindView::Composite(kind) => kind,
        }
    }

    /// The dtype the `value` column is made of.
    pub open spec fn leaf(self) -> Dtype {
        match self {
            KindView::Dense(dtype, _) => dtype,
            KindView::Tuple(_, dtype) => dtype,
            KindView::Composite(_) => Dtype::F64,
        }
    }

    /// The place of the variant among the variants.
    pub open spec fn variant(self) -> int {
        match self {
            KindView::Dense(..) => 0,
            KindView::Tuple(..) => 1,
            KindView::Composite(_) => 2,
        }
    }
}

/// Each size in decimal.
fn show_sizes(shape: &Vec<usize>) -> (r: Vec<String>)
    ensures
        texts(r@) == size_texts(shape@),
{
    let mut out: Vec<String> = Vec::new();
    let mut i: usize = 0;
    while i < shape.len()
        invariant
            i <= shape.len(),
            texts(out@) == size_texts(shape@.take(i as int)),
        decreases shape.len() - i,
    {
        let shown = decimal(shape[i] as u64);
        let ghost was = out@;
        out.push(shown);
        proof {
            assert(texts(out@) =~= texts(was).push(shown@));
            assert(size_texts(shape@.take(i + 1)) =~= size_texts(shape@.take(i as int)).push(
                decimal_text(shape@[i as int] as nat),
            ));
        }
        i += 1;
    }
    proof {
        assert(shape@.take(i as int) =~= shape@);
    }
    out
}

pub(crate) fn copy_sizes(shape: &Vec<usize>) -> (r: Vec<usize>)
    ensures
        r@ == shape@,
{
    let mut out: Vec<usize> = Vec::new();
    let mut i: usize = 0;
    while i < shape.len()
        invariant
            i <= shape.len(),
            out@ == shape@.take(i as int),
        decreases shape.len() - i,
    {
        out.push(shape[i]);
        i += 1;
    }
    out
}

impl ValueKind {
    /// The kind a stored row belongs to.
    pub fn of(element_type: &ElementType, element_shape: &Vec<usize>) -> (r: ValueKind)
        ensures
            r@ == KindView::of(element_type@, element_shape@),
    {
        match element_type {
            ElementType::Scalar(dtype) => ValueKind::Dense {
                dtype: *dtype,
                shape: copy_sizes(element_shape),
            },
            ElementType::Tuple { arity, dtype } => ValueKind::Tuple {
                arity: *arity,
                dtype: *dtype,
            },
            ElementType::Composite(kind) => ValueKind::Composite(kind.clone()),
        }
    }

    /// Whether rows of this kind may need padding to share a file.
    pub fn is_composite(&self) -> (r: bool)
        ensures
            r == (self@ is Composite),
    {
        match self {
            ValueKind::Composite(_) => true,
            _ => false,
        }
    }

    /// The element type a file of this kind names.
    pub fn element_type(&self) -> (r: ElementType)
        ensures
            r@ == self@.element_type(),
    {
        match self {
            ValueKind::Dense { dtype, .. } => ElementType::Scalar(*dtype),
            ValueKind::Tuple { arity, dtype } => ElementType::Tuple {
                arity: *arity,
                dtype: *dtype,
            },
            ValueKind::Composite(kind) => ElementType::Composite(kind.clone()),
        }
    }

    /// The filename fragment of the kind.
    pub fn slug(&self) -> (r: String)
        ensures
            r@ == self@.slug(),
    {
        match self {
            ValueKind::Dense { dtype, shape } => {
                let mut out = dtype.as_str().to_string();
                if shape.len() == 0 {
                    return out;
                }
                out.append("_");
                out.append(join(&show_sizes(shape), "x").as_str());
                out
            },
            ValueKind::Tuple { arity, dtype } => {
                let mut out = "tuple".to_string();
                out.append(decimal(*arity as u64).as_str());
                out.append("_");
                out.append(dtype.as_str());
                out
            },
            ValueKind::Composite(kind) => kind.clone(),
        }
    }

    /// The dtype the `value` column is made of.
    pub fn leaf_dtype(&self) -> (r: Dtype)
        ensures
            r == self@.leaf(),
    {
        match self {
            ValueKind::Dense { dtype, .. } => *dtype,
            ValueKind::Tuple { dtype, .. } => *dtype,
            ValueKind::Composite(_) => Dtype::F64,
        }
    }

    /// The same kind again.
    pub fn copied(&self) -> (r: ValueKind)
        ensures
            r@ == self@,
    {
        match self {
            ValueKind::Dense { dtype, shape } => ValueKind::Dense {
                dtype: *dtype,
                shape: copy_sizes(shape),
            },
            ValueKind::Tuple { arity, dtype } => ValueKind::Tuple {
                arity: *arity,
                dtype: *dtype,
            },
            ValueKind::Composite(kind) => ValueKind::Composite(kind.clone()),
        }
    }
}

// ---- Order ------------------------------------------------------------------------

/// The lexicographic order of two lists of sizes.
pub open spec fn sizes_before(a: Seq<usize>, b: Seq<usize>) -> bool
    decreases a.len(),
{
    if b.len() == 0 {
        false
    } else if a.len() == 0 {
        true
    } else if a[0] == b[0] {
        sizes_before(a.drop_first(), b.drop_first())
    } else {
        a[0] < b[0]
    }
}

proof fn sizes_irreflexive(a: Seq<usize>)
    ensures
        !sizes_before(a, a),
    decreases a.len(),
{
    if a.len() > 0 {
        sizes_irreflexive(a.drop_first());
    }
}

proof fn sizes_total(a: Seq<usize>, b: Seq<usize>)
    requires
        a != b,
    ensures
        sizes_before(a, b) || sizes_before(b, a),
    decreases a.len(),
{
    if a.len() > 0 && b.len() > 0 {
        if a[0] == b[0] {
            if a.drop_first() == b.drop_first() {
                assert(a =~= seq![a[0]] + a.drop_first());
                assert(b =~= seq![b[0]] + b.drop_first());
            }
            sizes_total(a.drop_first(), b.drop_first());
        }
    } else if a.len() == 0 && b.len() == 0 {
        assert(a =~= b);
    }
}

proof fn sizes_transitive(a: Seq<usize>, b: Seq<usize>, c: Seq<usize>)
    requires
        sizes_before(a, b),
        sizes_before(b, c),
    ensures
        sizes_before(a, c),
    decreases a.len(),
{
    if a.len() > 0 && b.len() > 0 && c.len() > 0 && a[0] == b[0] && b[0] == c[0] {
        sizes_transitive(a.drop_first(), b.drop_first(), c.drop_first());
    }
}

fn sizes_less(a: &Vec<usize>, b: &Vec<usize>) -> (r: bool)
    ensures
        r == sizes_before(a@, b@),
{
    let mut i: usize = 0;
    proof {
        assert(a@.skip(0) =~= a@);
        assert(b@.skip(0) =~= b@);
    }
    while i < a.len() && i < b.len() && a[i] == b[i]
        invariant
            i <= a.len(),
            i <= b.len(),
            sizes_before(a@, b@) == sizes_before(a@.skip(i as int), b@.skip(i as int)),
        ensures
            i <= a.len(),
            i <= b.len(),
            i >= a.len() || i >= b.len() || a[i as int] != b[i as int],
            sizes_before(a@, b@) == sizes_before(a@.skip(i as int), b@.skip(i as int)),
        decreases a.len() - i,
    {
        proof {
            assert(a@.skip(i as int).drop_first() =~= a@.skip(i + 1));
            assert(b@.skip(i as int).drop_first() =~= b@.skip(i + 1));
        }
        i += 1;
    }
    if i >= b.len() {
        false
    } else if i >= a.len() {
        true
    } else {
        a[i] < b[i]
    }
}

pub(crate) fn same_sizes(a: &Vec<usize>, b: &Vec<usize>) -> (r: bool)
    ensures
        r == (a@ == b@),
{
    if a.len() != b.len() {
        return false;
    }
    let mut i: usize = 0;
    while i < a.len()
        invariant
            i <= a.len(),
            a@.len() == b@.len(),
            forall|j: int| 0 <= j < i ==> a@[j] == b@[j],
        decreases a.len() - i,
    {
        if a[i] != b[i] {
            return false;
        }
        i += 1;
    }
    proof {
        assert(a@ =~= b@);
    }
    true
}

/// The order of two value kinds: dense before tuple before function data, and within each by
/// its fields in turn.
pub open spec fn kind_before(a: KindView, b: KindView) -> bool {
    match (a, b) {
        (KindView::Dense(c, s), KindView::Dense(d, t)) => c.rank() < d.rank() || (c.rank()
            == d.rank() && sizes_before(s, t)),
        (KindView::Tuple(m, c), KindView::Tuple(n, d)) => m < n || (m == n && c.rank() < d.rank()),
        (KindView::Composite(s), KindView::Composite(t)) => before(s, t),
        _ => a.variant() < b.variant(),
    }
}

/// One partition: everything that must be constant within a file.
#[derive(Debug)]
pub struct PartitionKey {
    pub time_series_type: TimeSeriesType,
    pub value_kind: ValueKind,
    /// `None` is unspecified, a partition of its own: a series that declared no spelling is
    /// not pooled with one that declared UTC.
    pub time_reference: Option<TimeReference>,
}

/// A [`PartitionKey`], with its parts as views.
pub struct PartitionView {
    pub kind: TimeSeriesType,
    pub value: KindView,
    pub reference: Option<TimeReferenceView>,
}

impl View for PartitionKey {
    type V = PartitionView;

    open spec fn view(&self) -> PartitionView {
        PartitionView {
            kind: self.time_series_type,
            value: self.value_kind@,
            reference: reference_view(self.time_reference),
        }
    }
}

/// The filename fragment of a time reference: an offset is spelled out in words, because a
/// `:` is forbidden on Windows and a leading `-` reads as a flag.
pub open spec fn reference_fragment(reference: Option<TimeReferenceView>) -> Seq<char> {
    match reference {
        None => "unspecified"@,
        Some(TimeReferenceView::Utc) => "utc"@,
        Some(TimeReferenceView::Zoneless) => "zoneless"@,
        Some(TimeReferenceView::Zone(name)) => name,
        Some(TimeReferenceView::FixedOffset(minutes)) => (if minutes < 0 {
            "offset_minus"@
        } else {
            "offset_plus"@
        }) + two_digits(magnitude(minutes) / 60) + "_"@ + two_digits(magnitude(minutes) % 60),
    }
}

/// The filename fragment of a time reference.
pub fn reference_slug(reference: &Option<TimeReference>) -> (r: String)
    ensures
        r@ == reference_fragment(reference_view(*reference)),
{
    match reference {
        None => "unspecified".to_string(),
        Some(TimeReference::Utc) => "utc".to_string(),
        Some(TimeReference::Zoneless) => "zoneless".to_string(),
        Some(TimeReference::Zone(name)) => name.clone(),
        Some(TimeReference::FixedOffset(minutes)) => {
            let abs: u64 = abs_minutes(*minutes);
            let mut out = if *minutes < 0 {
                "offset_minus".to_string()
            } else {
                "offset_plus".to_string()
            };
            out.append(padded(abs / 60).as_str());
            out.append("_");
            out.append(padded(abs % 60).as_str());
            out
        },
    }
}

/// The order of two partitions: by the type's number, then the value kind, then the fragment
/// of the reference. Some total order is all that is needed, so that the same export names
/// its files the same way twice.
pub open spec fn partition_before(a: PartitionView, b: PartitionView) -> bool {
    a.kind.number() < b.kind.number() || (a.kind == b.kind && (kind_before(a.value, b.value) || (
    a.value == b.value && before(
        reference_fragment(a.reference),
        reference_fragment(b.reference),
    ))))
}

proof fn kind_order(a: KindView, b: KindView, c: KindView)
    ensures
        !kind_before(a, a),
        a != b ==> kind_before(a, b) || kind_before(b, a),
        kind_before(a, b) && kind_before(b, c) ==> kind_before(a, c),
{
    match a {
        KindView::Dense(_, s) => {
            sizes_irreflexive(s);
            match b {
                KindView::Dense(_, t) => {
                    if s != t {
                        sizes_total(s, t);
                    }
                    match c {
                        KindView::Dense(_, u) => {
                            if sizes_before(s, t) && sizes_before(t, u) {
                                sizes_transitive(s, t, u);
                            }
                        },
                        _ => {},
                    }
                },
                _ => {},
            }
        },
        KindView::Composite(s) => {
            before_irreflexive(s);
            match b {
                KindView::Composite(t) => {
                    if s != t {
                        before_total(s, t);
                    }
                    match c {
                        KindView::Composite(u) => {
                            if before(s, t) && before(t, u) {
                                before_transitive(s, t, u);
                            }
                        },
                        _ => {},
                    }
                },
                _ => {},
            }
        },
        _ => {},
    }
}

/// The order of partitions is a strict order.
pub proof fn partition_order(a: PartitionView, b: PartitionView, c: PartitionView)
    ensures
        !partition_before(a, a),
        partition_before(a, b) && partition_before(b, c) ==> partition_before(a, c),
        a.kind != b.kind || a.value != b.value || reference_fragment(a.reference)
            != reference_fragment(b.reference) ==> partition_before(a, b) || partition_before(b, a),
{
    kind_order(a.value, b.value, c.value);
    let x = reference_fragment(a.reference);
    let y = reference_fragment(b.reference);
    let z = reference_fragment(c.reference);
    before_irreflexive(x);
    if x != y {
        before_total(x, y);
    }
    if before(x, y) && before(y, z) {
        before_transitive(x, y, z);
    }
}

fn kind_less(a: &ValueKind, b: &ValueKind) -> (r: bool)
    ensures
        r == kind_before(a@, b@),
{
    match (a, b) {
        (ValueKind::Dense { dtype: c, shape: s }, ValueKind::Dense { dtype: d, shape: t }) => {
            let m: u8 = c.place();
            let n: u8 = d.place();
            m < n || (m == n && sizes_less(s, t))
        },
        (ValueKind::Dense { .. }, _) => true,
        (ValueKind::Tuple { .. }, ValueKind::Dense { .. }) => false,
        (ValueKind::Tuple { arity: m, dtype: c }, ValueKind::Tuple { arity: n, dtype: d }) => {
            *m < *n || (*m == *n && c.place() < d.place())
        },
        (ValueKind::Tuple { .. }, ValueKind::Composite(_)) => true,
        (ValueKind::Composite(s), ValueKind::Composite(t)) => text_less(s.as_str(), t.as_str()),
        (ValueKind::Composite(_), _) => false,
    }
}

fn same_kind(a: &ValueKind, b: &ValueKind) -> (r: bool)
    ensures
        r == (a@ == b@),
{
    match (a, b) {
        (ValueKind::Dense { dtype: c, shape: s }, ValueKind::Dense { dtype: d, shape: t }) => *c
            == *d && same_sizes(s, t),
        (ValueKind::Tuple { arity: m, dtype: c }, ValueKind::Tuple { arity: n, dtype: d }) => *m
            == *n && *c == *d,
        (ValueKind::Composite(s), ValueKind::Composite(t)) => same_text(s.as_str(), t.as_str()),
        _ => false,
    }
}

fn same_reference(a: &Option<TimeReference>, b: &Option<TimeReference>) -> (r: bool)
    ensures
        r == (reference_view(*a) == reference_view(*b)),
{
    match (a, b) {
        (None, None) => true,
        (Some(x), Some(y)) => x.same(y),
        _ => false,
    }
}

/// The name a partition's file would like.
pub open spec fn wanted_name(key: PartitionView) -> Seq<char> {
    wanted_stem(key) + ".parquet"@
}

/// The name a partition's file would like, without its extension.
pub open spec fn wanted_stem(key: PartitionView) -> Seq<char> {
    sanitized(key.kind.spelling()) + "."@ + sanitized(key.value.slug()) + "."@ + sanitized(
        reference_fragment(key.reference),
    )
}

impl PartitionKey {
    /// Whether this key comes before another.
    pub fn less(&self, other: &PartitionKey) -> (r: bool)
        ensures
            r == partition_before(self@, other@),
    {
        let m: i64 = self.time_series_type.code();
        let n: i64 = other.time_series_type.code();
        if m != n {
            return m < n;
        }
        if kind_less(&self.value_kind, &other.value_kind) {
            return true;
        }
        same_kind(&self.value_kind, &other.value_kind) && text_less(
            reference_slug(&self.time_reference).as_str(),
            reference_slug(&other.time_reference).as_str(),
        )
    }

    /// Whether two keys are the same partition.
    pub fn same(&self, other: &PartitionKey) -> (r: bool)
        ensures
            r == (self@ == other@),
    {
        self.time_series_type == other.time_series_type && same_kind(
            &self.value_kind,
            &other.value_kind,
        ) && same_reference(&self.time_reference, &other.time_reference)
    }

    /// The same key again.
    pub fn copied(&self) -> (r: PartitionKey)
        ensures
            r@ == self@,
    {
        PartitionKey {
            time_series_type: self.time_series_type,
            value_kind: self.value_kind.copied(),
            time_reference: match &self.time_reference {
                None => None,
                Some(reference) => Some(reference.copied()),
            },
        }
    }

    /// `<type>.<value-slug>.<reference-slug>`, each fragment sanitized.
    fn stem(&self) -> (r: String)
        ensures
            r@ == wanted_stem(self@),
    {
        let mut out = sanitize(self.time_series_type.as_str());
        out.append(".");
        out.append(sanitize(self.value_kind.slug().as_str()).as_str());
        out.append(".");
        out.append(sanitize(reference_slug(&self.time_reference).as_str()).as_str());
        out
    }

    /// `<type>.<value-slug>.<reference-slug>.parquet`.
    ///
    /// A convenience and not the truth: the fragments are flattened one way, so the footer
    /// carries the exact key, and [`disambiguate`] keeps two partitions off one path.
    pub fn file_name(&self) -> (r: String)
        ensures
            r@ == wanted_name(self@),
    {
        let mut out = self.stem();
        out.append(".parquet");
        out
    }
}

/// The name a partition's file would like is a legal path component on every platform.
pub proof fn wanted_name_is_legal(key: PartitionView)
    ensures
        legal_component(wanted_name(key)),
        wanted_name(key).len() > 8,
{
    let a = sanitized(key.kind.spelling());
    let b = sanitized(key.value.slug());
    let c = sanitized(reference_fragment(key.reference));
    sanitized_is_legal(key.kind.spelling());
    sanitized_is_legal(key.value.slug());
    sanitized_is_legal(reference_fragment(key.reference));
    reveal_strlit(".");
    reveal_strlit(".parquet");
    let name = wanted_name(key);
    let dot = "."@;
    let end = ".parquet"@;
    assert(dot.len() == 1 && end.len() == 8);
    assert(dot[0] == '.');
    assert(end =~= seq!['.', 'p', 'a', 'r', 'q', 'u', 'e', 't']);
    assert forall|i: int| 0 <= i < name.len() implies safe(#[trigger] name[i]) by {
        let m = a.len() as int;
        let n = b.len() as int;
        let p = c.len() as int;
        if i < m {
            assert(name[i] == a[i]);
        } else if i == m {
            assert(name[i] == dot[0]);
        } else if i < m + 1 + n {
            assert(name[i] == b[i - m - 1]);
        } else if i == m + 1 + n {
            assert(name[i] == dot[0]);
        } else if i < m + n + p + 2 {
            assert(name[i] == c[i - m - n - 2]);
        } else {
            assert(name[i] == end[i - (m + n + p + 2)]);
        }
    }
    assert(name[0] == a[0]);
    assert(name.last() == end[7]);
    let rest = dot + b + dot + c + end;
    assert(rest[0] == '.');
    assert(name =~= a + rest);
    stem_ends_at_a_dot(a, rest);
}

// ---- Names ------------------------------------------------------------------------

/// `sorted`, with `key` after everything it does not come before.
pub open spec fn placed(sorted: Seq<PartitionView>, key: PartitionView) -> Seq<PartitionView>
    decreases sorted.len(),
{
    if sorted.len() == 0 {
        seq![key]
    } else if partition_before(key, sorted.last()) {
        placed(sorted.drop_last(), key).push(sorted.last())
    } else {
        sorted.push(key)
    }
}

/// The distinct keys of a list, in their own order.
pub open spec fn ordered(keys: Seq<PartitionView>) -> Seq<PartitionView>
    decreases keys.len(),
{
    if keys.len() == 0 {
        seq![]
    } else {
        let rest = ordered(keys.drop_last());
        if rest.contains(keys.last()) {
            rest
        } else {
            placed(rest, keys.last())
        }
    }
}

/// Whether no key comes before one that stands before it, and no key stands twice.
pub open spec fn in_order(keys: Seq<PartitionView>) -> bool {
    forall|i: int, j: int|
        #![trigger keys[i], keys[j]]
        0 <= i < j < keys.len() ==> keys[i] != keys[j] && !partition_before(keys[j], keys[i])
}

/// What does not come before a key that does not come before a third, does not come before the
/// third.
proof fn not_before(a: PartitionView, b: PartitionView, c: PartitionView)
    requires
        !partition_before(b, a),
        !partition_before(c, b),
    ensures
        !partition_before(c, a),
{
    partition_order(a, b, c);
    partition_order(c, a, b);
    partition_order(b, c, a);
}

proof fn placed_in_order(sorted: Seq<PartitionView>, key: PartitionView)
    requires
        in_order(sorted),
        !sorted.contains(key),
    ensures
        in_order(placed(sorted, key)),
        forall|k: PartitionView| #[trigger]
            placed(sorted, key).contains(k) <==> sorted.contains(k) || k == key,
    decreases sorted.len(),
{
    let out = placed(sorted, key);
    if sorted.len() == 0 {
        assert(out =~= seq![key]);
        assert(out[0] == key);
    } else if partition_before(key, sorted.last()) {
        let rest = sorted.drop_last();
        let last = sorted.last();
        let inner = placed(rest, key);
        assert(!rest.contains(key)) by {
            if rest.contains(key) {
                let m = choose|m: int| 0 <= m < rest.len() && rest[m] == key;
                assert(sorted[m] == key);
            }
        }
        assert(in_order(rest)) by {
            assert forall|i: int, j: int|
                #![trigger rest[i], rest[j]]
                0 <= i < j < rest.len() implies rest[i] != rest[j] && !partition_before(
                rest[j],
                rest[i],
            ) by {
                assert(!partition_before(sorted[j], sorted[i]));
            }
        }
        placed_in_order(rest, key);
        assert(sorted[sorted.len() - 1] == last);
        assert(sorted.contains(last));
        assert forall|i: int, j: int|
            #![trigger out[i], out[j]]
            0 <= i < j < out.len() implies out[i] != out[j] && !partition_before(
            out[j],
            out[i],
        ) by {
            if j == inner.len() {
                assert(inner.contains(inner[i]));
                if inner[i] != key {
                    let m = choose|m: int| 0 <= m < rest.len() && rest[m] == inner[i];
                    assert(sorted[m] != sorted[sorted.len() - 1]);
                    assert(!partition_before(sorted[sorted.len() - 1], sorted[m]));
                } else {
                    partition_order(key, last, key);
                    partition_order(key, key, key);
                }
            } else {
                assert(!partition_before(inner[j], inner[i]));
            }
        }
        assert forall|k: PartitionView| #[trigger] out.contains(k) <==> sorted.contains(k) || k
            == key by {
            if out.contains(k) {
                let m = choose|m: int| 0 <= m < out.len() && out[m] == k;
                if m < inner.len() {
                    assert(inner[m] == k);
                    assert(inner.contains(k));
                    if k != key {
                        let p = choose|p: int| 0 <= p < rest.len() && rest[p] == k;
                        assert(sorted[p] == k);
                    }
                } else {
                    assert(sorted[sorted.len() - 1] == k);
                }
            }
            if sorted.contains(k) || k == key {
                if k == key {
                    assert(inner.contains(k));
                } else {
                    let p = choose|p: int| 0 <= p < sorted.len() && sorted[p] == k;
                    if p < rest.len() {
                        assert(rest[p] == k);
                        assert(rest.contains(k));
                    } else {
                        assert(out[inner.len() as int] == k);
                    }
                }
                if inner.contains(k) {
                    let q = choose|q: int| 0 <= q < inner.len() && inner[q] == k;
                    assert(out[q] == k);
                }
            }
        }
    } else {
        let last = sorted.last();
        assert(sorted[sorted.len() - 1] == last);
        assert forall|i: int, j: int|
            #![trigger out[i], out[j]]
            0 <= i < j < out.len() implies out[i] != out[j] && !partition_before(
            out[j],
            out[i],
        ) by {
            if j == sorted.len() {
                assert(sorted.contains(sorted[i]));
                if i < sorted.len() - 1 {
                    assert(!partition_before(sorted[sorted.len() - 1], sorted[i]));
                    not_before(sorted[i], last, key);
                }
            } else {
                assert(!partition_before(sorted[j], sorted[i]));
            }
        }
        assert forall|k: PartitionView| #[trigger] out.contains(k) <==> sorted.contains(k) || k
            == key by {
            if sorted.contains(k) {
                let m = choose|m: int| 0 <= m < sorted.len() && sorted[m] == k;
                assert(out[m] == k);
            }
            if k == key {
                assert(out[sorted.len() as int] == k);
            }
        }
    }
}

/// The distinct keys of a list come in their own order, and every key of the list is one of
/// them.
pub proof fn keys_come_sorted(keys: Seq<PartitionView>)
    ensures
        in_order(ordered(keys)),
        forall|k: PartitionView| #[trigger] ordered(keys).contains(k) <==> keys.contains(k),
    decreases keys.len(),
{
    if keys.len() > 0 {
        let rest = keys.drop_last();
        let sorted = ordered(rest);
        keys_come_sorted(rest);
        if !sorted.contains(keys.last()) {
            placed_in_order(sorted, keys.last());
        }
        assert forall|k: PartitionView| #[trigger] ordered(keys).contains(k) <==> keys.contains(
            k,
        ) by {
            if keys.contains(k) {
                let m = choose|m: int| 0 <= m < keys.len() && keys[m] == k;
                if m < rest.len() {
                    assert(rest[m] == k);
                    assert(rest.contains(k));
                    assert(sorted.contains(k));
                }
            }
            if rest.contains(k) {
                let m = choose|m: int| 0 <= m < rest.len() && rest[m] == k;
                assert(keys[m] == k);
            }
            assert(keys[keys.len() - 1] == keys.last());
        }
    }
}

/// Whether a name is one of those given out already, but for the case of its letters: macOS
/// and Windows take two names differing only in case for one path.
pub open spec fn taken(names: Seq<Seq<char>>, name: Seq<char>) -> bool {
    exists|j: int| 0 <= j < names.len() && lower_text(#[trigger] names[j]) == lower_text(name)
}

/// How many keys want the name that `key` wants, but for the case of its letters.
pub open spec fn rivals(keys: Seq<PartitionView>, key: PartitionView) -> nat
    decreases keys.len(),
{
    if keys.len() == 0 {
        0
    } else {
        rivals(keys.drop_last(), key) + (if lower_text(wanted_name(keys.last())) == lower_text(
            wanted_name(key),
        ) {
            1nat
        } else {
            0nat
        })
    }
}

/// A stem with a number.
pub open spec fn numbered(stem: Seq<char>, n: nat) -> Seq<char> {
    stem + "_"@ + decimal_text(n) + ".parquet"@
}

/// The first number from `n` on, among `fuel + 1`, that makes a name not given out already.
pub open spec fn free_number(names: Seq<Seq<char>>, stem: Seq<char>, n: nat, fuel: nat) -> nat
    decreases fuel,
{
    if fuel == 0 || !taken(names, numbered(stem, n)) {
        n
    } else {
        free_number(names, stem, n + 1, (fuel - 1) as nat)
    }
}

/// The name a key gets after the keys before it got theirs: the one it wants, or the first
/// free numbered one, counting from how many want the same.
pub open spec fn name_after(
    names: Seq<Seq<char>>,
    earlier: Seq<PartitionView>,
    key: PartitionView,
) -> Seq<char> {
    if !taken(names, wanted_name(key)) {
        wanted_name(key)
    } else {
        let seen = rivals(earlier, key);
        let first = if seen < 1 {
            2nat
        } else {
            seen + 1
        };
        numbered(wanted_stem(key), free_number(names, wanted_stem(key), first, names.len()))
    }
}

/// The names of keys in order.
pub open spec fn names_for(keys: Seq<PartitionView>) -> Seq<Seq<char>>
    decreases keys.len(),
{
    if keys.len() == 0 {
        seq![]
    } else {
        let names = names_for(keys.drop_last());
        names.push(name_after(names, keys.drop_last(), keys.last()))
    }
}

/// Digits tell numbers apart.
proof fn digits_apart(a: nat, b: nat)
    requires
        a < 10,
        b < 10,
        digit(a) == digit(b),
    ensures
        a == b,
{
}

/// Decimal spellings tell numbers apart.
pub proof fn decimals_apart(a: nat, b: nat)
    requires
        decimal_text(a) == decimal_text(b),
    ensures
        a == b,
    decreases a,
{
    decimal_not_empty(a / 10);
    decimal_not_empty(b / 10);
    let x = decimal_text(a);
    let y = decimal_text(b);
    if a < 10 && b < 10 {
        assert(x[0] == digit(a) && y[0] == digit(b));
        digits_apart(a, b);
    } else if a < 10 {
        assert(x.len() == 1 && y.len() >= 2);
    } else if b < 10 {
        assert(y.len() == 1 && x.len() >= 2);
    } else {
        assert(x.last() == digit(a % 10) && y.last() == digit(b % 10));
        digits_apart(a % 10, b % 10);
        assert(x.drop_last() =~= decimal_text(a / 10));
        assert(y.drop_last() =~= decimal_text(b / 10));
        decimals_apart(a / 10, b / 10);
    }
}

proof fn decimal_not_empty(n: nat)
    ensures
        decimal_text(n).len() > 0,
{
}

proof fn decimal_is_lower(n: nat)
    ensures
        lower_text(decimal_text(n)) == decimal_text(n),
    decreases n,
{
    let x = decimal_text(n);
    if n >= 10 {
        decimal_is_lower(n / 10);
        assert(lower_text(x) =~= lower_text(decimal_text(n / 10)).push(digit(n % 10)));
    } else {
        assert(lower_text(x) =~= x);
    }
}

/// Two numbers make two names.
proof fn numbered_apart(stem: Seq<char>, a: nat, b: nat)
    requires
        lower_text(numbered(stem, a)) == lower_text(numbered(stem, b)),
    ensures
        a == b,
{
    decimal_is_lower(a);
    decimal_is_lower(b);
    let head = lower_text(stem + "_"@);
    let tail = lower_text(".parquet"@);
    let x = decimal_text(a);
    let y = decimal_text(b);
    assert(lower_text(numbered(stem, a)) =~= head + x + tail);
    assert(lower_text(numbered(stem, b)) =~= head + y + tail);
    assert((head + x + tail).len() == (head + y + tail).len());
    assert(x =~= y) by {
        assert forall|i: int| 0 <= i < x.len() implies x[i] == y[i] by {
            assert((head + x + tail)[head.len() + i] == x[i]);
            assert((head + y + tail)[head.len() + i] == y[i]);
        }
    }
    decimals_apart(a, b);
}

/// The number found makes a name not given out already.
proof fn free_number_is_free(names: Seq<Seq<char>>, stem: Seq<char>, n: nat)
    ensures
        !taken(names, numbered(stem, free_number(names, stem, n, names.len()))),
{
    let len = names.len();
    if taken(names, numbered(stem, free_number(names, stem, n, len))) {
        all_were_taken(names, stem, n, len);
        let holder = Seq::new(
            len + 1,
            |i: int|
                choose|j: int|
                    0 <= j < names.len() && lower_text(#[trigger] names[j]) == lower_text(
                        numbered(stem, (n + i) as nat),
                    ),
        );
        assert forall|i: int| 0 <= i < holder.len() implies 0 <= #[trigger] holder[i] < len
            && lower_text(names[holder[i]]) == lower_text(numbered(stem, (n + i) as nat)) by {
            assert(taken(names, numbered(stem, (n + i) as nat)));
        }
        assert forall|i: int, j: int|
            0 <= i < holder.len() && 0 <= j < holder.len() && i != j implies holder[i]
            != holder[j] by {
            if holder[i] == holder[j] {
                numbered_apart(stem, (n + i) as nat, (n + j) as nat);
            }
        }
        holder.unique_seq_to_set();
        vstd::set_lib::lemma_int_range(0, len as int);
        let range = vstd::set_lib::set_int_range(0, len as int);
        assert(holder.to_set().subset_of(range)) by {
            assert forall|x: int| holder.to_set().contains(x) implies range.contains(x) by {
                let i = choose|i: int| 0 <= i < holder.len() && holder[i] == x;
                assert(0 <= holder[i] < len);
            }
        }
        vstd::set_lib::lemma_len_subset(holder.to_set(), range);
    }
}

proof fn all_were_taken(names: Seq<Seq<char>>, stem: Seq<char>, n: nat, fuel: nat)
    requires
        taken(names, numbered(stem, free_number(names, stem, n, fuel))),
    ensures
        forall|i: int|
            0 <= i <= fuel ==> taken(names, #[trigger] numbered(stem, (n + i) as nat)),
    decreases fuel,
{
    if fuel > 0 {
        assert(taken(names, numbered(stem, n)));
        all_were_taken(names, stem, n + 1, (fuel - 1) as nat);
        assert forall|i: int| 0 <= i <= fuel implies taken(
            names,
            #[trigger] numbered(stem, (n + i) as nat),
        ) by {
            if i > 0 {
                assert((n + i) as nat == ((n + 1) + (i - 1)) as nat);
                assert(taken(names, numbered(stem, ((n + 1) + (i - 1)) as nat)));
            }
        }
    }
}

/// Two partitions never land on one path, not even where a file system ignores case.
pub proof fn names_are_distinct(keys: Seq<PartitionView>)
    ensures
        names_for(keys).len() == keys.len(),
        forall|i: int, j: int|
            #![trigger names_for(keys)[i], names_for(keys)[j]]
            0 <= i < j < keys.len() ==> lower_text(names_for(keys)[i]) != lower_text(
                names_for(keys)[j],
            ),
    decreases keys.len(),
{
    if keys.len() > 0 {
        let rest = keys.drop_last();
        let key = keys.last();
        let names = names_for(rest);
        names_are_distinct(rest);
        let all = names_for(keys);
        let name = name_after(names, rest, key);
        let seen = rivals(rest, key);
        let first = if seen < 1 {
            2nat
        } else {
            seen + 1
        };
        free_number_is_free(names, wanted_stem(key), first);
        assert(!taken(names, name));
        assert forall|i: int, j: int|
            #![trigger all[i], all[j]]
            0 <= i < j < keys.len() implies lower_text(all[i]) != lower_text(all[j]) by {
            assert(all[i] == names[i]);
            if j == rest.len() {
                assert(all[j] == name);
            } else {
                assert(all[j] == names[j]);
            }
        }
    }
}

/// One partition and the name its file gets.
#[derive(Debug)]
pub struct NamedPartition {
    pub key: PartitionKey,
    pub name: String,
}

/// The keys of named partitions.
pub open spec fn keys_of(named: Seq<NamedPartition>) -> Seq<PartitionView> {
    named.map_values(|n: NamedPartition| n.key@)
}

/// The names of named partitions.
pub open spec fn names_of(named: Seq<NamedPartition>) -> Seq<Seq<char>> {
    named.map_values(|n: NamedPartition| n.name@)
}

/// The views of a list of keys.
pub open spec fn key_views(keys: Seq<PartitionKey>) -> Seq<PartitionView> {
    keys.map_values(|k: PartitionKey| k@)
}

fn insert_key(sorted: &mut Vec<PartitionKey>, key: PartitionKey)
    ensures
        key_views(final(sorted)@) == placed(key_views(old(sorted)@), key@),
{
    let ghost whole = key_views(sorted@);
    let mut at: usize = sorted.len();
    proof {
        assert(whole.take(at as int) =~= whole);
        assert(placed(whole, key@) + whole.skip(at as int) =~= placed(whole, key@));
    }
    while at > 0 && key.less(&sorted[at - 1])
        invariant
            at <= sorted.len(),
            key_views(sorted@) == whole,
            placed(whole, key@) == placed(whole.take(at as int), key@) + whole.skip(at as int),
        ensures
            at <= sorted.len(),
            key_views(sorted@) == whole,
            at == 0 || !partition_before(key@, whole[at - 1]),
            placed(whole, key@) == placed(whole.take(at as int), key@) + whole.skip(at as int),
        decreases at,
    {
        proof {
            let shorter = whole.take(at as int);
            assert(shorter.drop_last() =~= whole.take(at - 1));
            assert(shorter.last() == whole[at - 1]);
            let inner = placed(whole.take(at - 1), key@);
            assert(inner.push(whole[at - 1]) + whole.skip(at as int) =~= inner + whole.skip(at - 1));
        }
        at -= 1;
    }
    let ghost was = sorted@;
    let ghost view = key@;
    sorted.insert(at, key);
    proof {
        assert(key_views(sorted@) =~= whole.insert(at as int, view));
        if at == 0 {
            assert(whole.take(0) =~= seq![]);
            assert(whole.insert(0, view) =~= seq![view] + whole.skip(0));
        } else {
            let shorter = whole.take(at as int);
            assert(shorter.last() == whole[at - 1]);
            assert(placed(shorter, view) == shorter.push(view));
            assert(whole.insert(at as int, view) =~= shorter.push(view) + whole.skip(at as int));
        }
    }
}

fn holds_key(keys: &Vec<PartitionKey>, key: &PartitionKey) -> (r: bool)
    ensures
        r == key_views(keys@).contains(key@),
{
    let mut i: usize = 0;
    while i < keys.len()
        invariant
            i <= keys.len(),
            forall|j: int| 0 <= j < i ==> key_views(keys@)[j] != key@,
        decreases keys.len() - i,
    {
        if keys[i].same(key) {
            proof {
                assert(key_views(keys@)[i as int] == key@);
            }
            return true;
        }
        i += 1;
    }
    false
}

fn is_taken(named: &Vec<NamedPartition>, name: &str) -> (r: bool)
    ensures
        r == taken(names_of(named@), name@),
{
    let lowered = folded(name);
    let mut i: usize = 0;
    while i < named.len()
        invariant
            i <= named.len(),
            lowered@ == lower_text(name@),
            forall|j: int|
                0 <= j < i ==> lower_text(#[trigger] names_of(named@)[j]) != lower_text(name@),
        decreases named.len() - i,
    {
        if same_text(folded(named[i].name.as_str()).as_str(), lowered.as_str()) {
            proof {
                assert(lower_text(names_of(named@)[i as int]) == lower_text(name@));
            }
            return true;
        }
        i += 1;
    }
    false
}

fn count_rivals(named: &Vec<NamedPartition>, key: &PartitionKey) -> (r: usize)
    ensures
        r == rivals(keys_of(named@), key@),
        r <= named@.len(),
{
    let wanted = folded(key.file_name().as_str());
    let mut seen: usize = 0;
    let mut i: usize = 0;
    while i < named.len()
        invariant
            i <= named.len(),
            seen <= i,
            wanted@ == lower_text(wanted_name(key@)),
            seen == rivals(keys_of(named@).take(i as int), key@),
        decreases named.len() - i,
    {
        proof {
            let all = keys_of(named@);
            assert(all.take(i + 1).drop_last() =~= all.take(i as int));
            assert(all.take(i + 1).last() == all[i as int]);
        }
        if same_text(folded(named[i].key.file_name().as_str()).as_str(), wanted.as_str()) {
            seen += 1;
        }
        i += 1;
    }
    proof {
        assert(keys_of(named@).take(i as int) =~= keys_of(named@));
    }
    seen
}

fn number_name(stem: &str, n: u64) -> (r: String)
    ensures
        r@ == numbered(stem@, n as nat),
{
    let mut out = stem.to_string();
    out.append("_");
    out.append(decimal(n).as_str());
    out.append(".parquet");
    out
}

fn choose_name(named: &Vec<NamedPartition>, key: &PartitionKey) -> (r: String)
    requires
        named@.len() < 0x1000_0000_0000_0000,
    ensures
        r@ == name_after(names_of(named@), keys_of(named@), key@),
{
    let base = key.file_name();
    if !is_taken(named, base.as_str()) {
        return base;
    }
    let stem = key.stem();
    let seen: usize = count_rivals(named, key);
    let first: u64 = if seen < 1 {
        2
    } else {
        seen as u64 + 1
    };
    let mut n: u64 = first;
    let mut fuel: usize = named.len();
    let mut name = number_name(stem.as_str(), n);
    while fuel > 0 && is_taken(named, name.as_str())
        invariant
            fuel <= named@.len() < 0x1000_0000_0000_0000,
            n + fuel == first + named@.len(),
            first <= named@.len() + 2,
            stem@ == wanted_stem(key@),
            name@ == numbered(stem@, n as nat),
            free_number(names_of(named@), stem@, first as nat, named@.len()) == free_number(
                names_of(named@),
                stem@,
                n as nat,
                fuel as nat,
            ),
        ensures
            name@ == numbered(
                stem@,
                free_number(names_of(named@), stem@, first as nat, named@.len()),
            ),
        decreases fuel,
    {
        n += 1;
        fuel -= 1;
        name = number_name(stem.as_str(), n);
    }
    proof {
        assert(names_of(named@).len() == named@.len());
    }
    name
}

/// Assigns every partition a file name of its own.
///
/// [`sanitize`] is many-to-one, so two partitions really can want one path, and the second
/// would overwrite the first. Collisions get a number, in the keys' own order, so the same
/// export names its files the same way twice.
pub fn disambiguate(keys: &Vec<PartitionKey>) -> (r: Vec<NamedPartition>)
    requires
        keys@.len() < 0x1000_0000_0000_0000,
    ensures
        keys_of(r@) == ordered(key_views(keys@)),
        names_of(r@) == names_for(ordered(key_views(keys@))),
{
    let mut sorted: Vec<PartitionKey> = Vec::new();
    let mut i: usize = 0;
    proof {
        assert(key_views(sorted@) =~= seq![]);
    }
    while i < keys.len()
        invariant
            i <= keys.len(),
            sorted@.len() <= i,
            key_views(sorted@) == ordered(key_views(keys@).take(i as int)),
        decreases keys.len() - i,
    {
        proof {
            let all = key_views(keys@);
            assert(all.take(i + 1).drop_last() =~= all.take(i as int));
            assert(all.take(i + 1).last() == keys[i as int]@);
            placed_length(key_views(sorted@), keys[i as int]@);
        }
        if !holds_key(&sorted, &keys[i]) {
            let ghost was = sorted@;
            insert_key(&mut sorted, keys[i].copied());
            proof {
                assert(key_views(sorted@).len() == sorted@.len());
                assert(key_views(was).len() == was.len());
            }
        }
        i += 1;
    }
    proof {
        assert(key_views(keys@).take(i as int) =~= key_views(keys@));
    }
    let mut named: Vec<NamedPartition> = Vec::new();
    let mut k: usize = 0;
    proof {
        assert(keys_of(named@) =~= seq![]);
        assert(names_of(named@) =~= seq![]);
    }
    while k < sorted.len()
        invariant
            k <= sorted.len(),
            sorted@.len() <= keys@.len() < 0x1000_0000_0000_0000,
            named@.len() == k,
            keys_of(named@) == key_views(sorted@).take(k as int),
            names_of(named@) == names_for(key_views(sorted@).take(k as int)),
        decreases sorted.len() - k,
    {
        let name = choose_name(&named, &sorted[k]);
        let key = sorted[k].copied();
        let ghost was = named@;
        let ghost n = NamedPartition { key, name };
        named.push(NamedPartition { key, name });
        proof {
            let all = key_views(sorted@);
            assert(all.take(k + 1).drop_last() =~= all.take(k as int));
            assert(all.take(k + 1).last() == all[k as int]);
            assert(keys_of(named@) =~= keys_of(was).push(n.key@));
            assert(names_of(named@) =~= names_of(was).push(n.name@));
            assert(all.take(k + 1) =~= all.take(k as int).push(all[k as int]));
        }
        k += 1;
    }
    proof {
        assert(key_views(sorted@).take(k as int) =~= key_views(sorted@));
    }
    named
}

proof fn placed_length(sorted: Seq<PartitionView>, key: PartitionView)
    ensures
        placed(sorted, key).len() == sorted.len() + 1,
    decreases sorted.len(),
{
    if sorted.len() > 0 && partition_before(key, sorted.last()) {
        placed_length(sorted.drop_last(), key);
    }
}

// ---- The two halves of a partition --------------------------------------------------

/// The values half of the partition with this stem.
pub fn values_name(stem: &str) -> (r: String)
    ensures
        r@ == stem@ + ".values.parquet"@,
{
    let mut out = stem.to_string();
    out.append(".values.parquet");
    out
}

/// The series half of the partition with this stem.
pub fn series_name(stem: &str) -> (r: String)
    ensures
        r@ == stem@ + ".series.parquet"@,
{
    let mut out = stem.to_string();
    out.append(".series.parquet");
    out
}

// ---- What a partition is named by -----------------------------------------------------------

/// The kind of a partition's values gives the element type back that it was made from, and keeps
/// the shape of a step for plain elements alone.
pub proof fn kinds_keep_their_element_type(
    element_type: ElementType,
    shape: Vec<usize>,
    kind: ValueKind,
    back: ElementType,
    leaf: Dtype,
    physical: Dtype,
)
    requires
        call_ensures(ValueKind::of, (&element_type, &shape), kind),
        call_ensures(ValueKind::element_type, (&kind,), back),
        call_ensures(ValueKind::leaf_dtype, (&kind,), leaf),
        call_ensures(ElementType::physical_dtype, (&element_type,), physical),
    ensures
        back@ == element_type@,
        leaf == physical,
        element_type is Scalar ==> kind@ == KindView::Dense(physical, shape@),
        !(element_type is Scalar) ==> !(kind@ is Dense),
{
}

/// Partitions are ordered by their type first, in the order of the types' numbers, and then by
/// their kind of value, plain elements before tuples and tuples before function data.
pub proof fn partitions_are_ordered_by_type_first(a: PartitionKey, b: PartitionKey, less: bool, same: bool)
    requires
        call_ensures(PartitionKey::less, (&a, &b), less),
        call_ensures(PartitionKey::same, (&a, &b), same),
    ensures
        a.time_series_type.number() < b.time_series_type.number() ==> less,
        a.time_series_type.number() > b.time_series_type.number() ==> !less,
        a.time_series_type == b.time_series_type && a@.value is Dense && !(b@.value is Dense)
            ==> less,
        a.time_series_type == b.time_series_type && a@.value is Tuple && b@.value is Composite
            ==> less,
        a.time_series_type == b.time_series_type && a@.value == b@.value ==> (less <==> before(
            reference_fragment(a@.reference),
            reference_fragment(b@.reference),
        )),
        same <==> a.time_series_type == b.time_series_type && a@.value == b@.value && a@.reference
            == b@.reference,
        same ==> !less,
{
    partition_order(a@, b@, a@);
    if a.time_series_type == b.time_series_type && a@.value == b@.value {
        kind_is_not_before_itself(a@.value);
    }
}

proof fn sizes_are_not_before_themselves(s: Seq<usize>)
    ensures
        !sizes_before(s, s),
    decreases s.len(),
{
    if s.len() > 0 {
        sizes_are_not_before_themselves(s.drop_first());
    }
}

proof fn kind_is_not_before_itself(k: KindView)
    ensures
        !kind_before(k, k),
{
    match k {
        KindView::Dense(_, s) => sizes_are_not_before_themselves(s),
        KindView::Composite(s) => crate::text::before_irreflexive(s),
        _ => {},
    }
}

/// The halves of a partition are named by its stem, each with its own ending.
pub proof fn halves_are_named_by_their_stem(stem: &str, values: String, series: String)
    requires
        call_ensures(values_name, (stem,), values),
        call_ensures(series_name, (stem,), series),
    ensures
        values@ == stem@ + crate::files::VALUES_SUFFIX@,
        series@ == stem@ + crate::files::SERIES_SUFFIX@,
        values@ != series@,
{
    reveal_strlit(".values.parquet");
    reveal_strlit(".series.parquet");
    assert(values@[stem@.len() as int + 1] == 'v');
    assert(series@[stem@.len() as int + 1] == 's');
}

/// Naming partitions keeps each of them once, in order, and every name is its own whatever the
/// case of its letters.
pub proof fn every_partition_is_named_once(keys: Vec<PartitionKey>, r: Vec<NamedPartition>, i: int, j: int)
    requires
        call_ensures(disambiguate, (&keys,), r),
        keys@.len() < 0x1000_0000_0000_0000,
        0 <= i < j < r@.len(),
    ensures
        r@[i].key@ != r@[j].key@,
        !partition_before(r@[j].key@, r@[i].key@),
        lower_text(r@[i].name@) != lower_text(r@[j].name@),
        forall|k: int|
            0 <= k < keys@.len() ==> exists|n: int|
                0 <= n < r@.len() && (#[trigger] r@[n]).key@ == (#[trigger] keys@[k])@,
{
    let views = key_views(keys@);
    let sorted = ordered(views);
    keys_come_sorted(views);
    names_are_distinct(sorted);
    assert(keys_of(r@)[i] == r@[i].key@);
    assert(keys_of(r@)[j] == r@[j].key@);
    assert(names_of(r@)[i] == r@[i].name@);
    assert(names_of(r@)[j] == r@[j].name@);
    assert(keys_of(r@).len() == r@.len());
    assert forall|k: int| 0 <= k < keys@.len() implies exists|n: int|
        0 <= n < r@.len() && (#[trigger] r@[n]).key@ == (#[trigger] keys@[k])@ by {
        assert(views[k] == keys@[k]@);
        assert(views.contains(views[k]));
        assert(sorted.contains(views[k]));
        let n = choose|n: int| 0 <= n < sorted.len() && sorted[n] == views[k];
        assert(keys_of(r@)[n] == r@[n].key@);
        assert(r@[n].key@ == keys@[k]@);
    }
}

proof fn names_come_one_by_one(keys: Seq<PartitionView>, i: int)
    requires
        0 <= i < keys.len(),
    ensures
        names_for(keys).len() == keys.len(),
        names_for(keys)[i] == name_after(names_for(keys.take(i)), keys.take(i), keys[i]),
        names_for(keys).take(i) == names_for(keys.take(i)),
    decreases keys.len(),
{
    let rest = keys.drop_last();
    names_are_distinct(keys);
    names_are_distinct(rest);
    if i == keys.len() - 1 {
        assert(keys.take(i) =~= rest);
        assert(names_for(keys).take(i) =~= names_for(rest));
    } else {
        names_come_one_by_one(rest, i);
        assert(rest.take(i) =~= keys.take(i));
        assert(names_for(keys).take(i) =~= names_for(rest).take(i));
    }
}

/// A partition has the name its key asks for, unless an earlier one has it already, whatever the
/// case of its letters; it then has a number behind that name.
pub proof fn names_are_as_wanted_where_free(
    keys: Vec<PartitionKey>,
    r: Vec<NamedPartition>,
    i: int,
    wanted: String,
)
    requires
        call_ensures(disambiguate, (&keys,), r),
        keys@.len() < 0x1000_0000_0000_0000,
        0 <= i < r@.len(),
        call_ensures(PartitionKey::file_name, (&r@[i].key,), wanted),
    ensures
        r@[i].name@ == wanted@ || exists|j: int| 0 <= j < i && lower_text(
            (#[trigger] r@[j]).name@,
        ) == lower_text(wanted@),
        r@[i].name@ != wanted@ ==> exists|n: nat|
            n >= 2 && r@[i].name@ == #[trigger] numbered(wanted_stem(r@[i].key@), n),
        r@[i].name@ != wanted@ ==> wanted@ == wanted_stem(r@[i].key@) + ".parquet"@,
{
    let sorted = ordered(key_views(keys@));
    let names = names_of(r@);
    assert(names.len() == r@.len());
    assert(keys_of(r@)[i] == r@[i].key@);
    assert(names[i] == r@[i].name@);
    names_come_one_by_one(sorted, i);
    let before = names_for(sorted.take(i));
    if taken(before, wanted@) {
        let j = choose|j: int| 0 <= j < before.len() && lower_text(#[trigger] before[j])
            == lower_text(wanted@);
        assert(names.take(i)[j] == names[j]);
        assert(names[j] == r@[j].name@);
        let stem = wanted_stem(r@[i].key@);
        let seen = rivals(sorted.take(i), r@[i].key@);
        let first = if seen < 1 {
            2nat
        } else {
            seen + 1
        };
        free_number_is_no_less(before, stem, first, before.len());
        assert(r@[i].name@ == numbered(stem, free_number(before, stem, first, before.len())));
    }
}

proof fn free_number_is_no_less(names: Seq<Seq<char>>, stem: Seq<char>, n: nat, fuel: nat)
    ensures
        free_number(names, stem, n, fuel) >= n,
    decreases fuel,
{
    if fuel > 0 && taken(names, numbered(stem, n)) {
        free_number_is_no_less(names, stem, n + 1, (fuel - 1) as nat);
    }
}

/// A fixed offset is named by its direction, its whole hours and the minutes beyond them; a zone
/// by its own name, and the others by what they are.
pub proof fn references_are_named_as_they_are(
    reference: Option<TimeReference>,
    hours: nat,
    minutes: nat,
    r: String,
)
    requires
        call_ensures(reference_slug, (&reference,), r),
        minutes < 60,
    ensures
        reference is None ==> r@ == "unspecified"@,
        reference matches Some(TimeReference::Utc) ==> r@ == "utc"@,
        reference matches Some(TimeReference::Zoneless) ==> r@ == "zoneless"@,
        reference matches Some(TimeReference::Zone(name)) ==> r@ == name@,
        reference matches Some(TimeReference::FixedOffset(n)) ==> n == 60 * hours + minutes ==> r@
            == "offset_plus"@ + two_digits(hours) + "_"@ + two_digits(minutes),
        reference matches Some(TimeReference::FixedOffset(n)) ==> n < 0 ==> -n == 60 * hours
            + minutes ==> r@ == "offset_minus"@ + two_digits(hours) + "_"@ + two_digits(minutes),
{
}

} // verus!
