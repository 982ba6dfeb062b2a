//! Distinct values in ascending order, and finding one of them again.
use vstd::prelude::*;

verus! {

/// `sorted`, with `x` put where its key belongs, unless that key is there already.
pub open spec fn insert_by<T>(sorted: Seq<T>, x: T, key: spec_fn(T) -> int) -> Seq<T>
    decreases sorted.len(),
{
    if sorted.len() == 0 {
        seq![x]
    } else if key(sorted.last()) < key(x) {
        sorted.push(x)
    } else if key(sorted.last()) == key(x) {
        sorted
    } else {
        insert_by(sorted.drop_last(), x, key).push(sorted.last())
    }
}

/// One value for each distinct key of `values`, the first with that key, ascending.
pub open spec fn ascending_by<T>(values: Seq<T>, key: spec_fn(T) -> int) -> Seq<T>
    decreases values.len(),
{
    if values.len() == 0 {
        seq![]
    } else {
        insert_by(ascending_by(values.drop_last(), key), values.last(), key)
    }
}

/// Each key is greater than the one before it.
pub open spec fn strictly_ascending<T>(values: Seq<T>, key: spec_fn(T) -> int) -> bool {
    forall|i: int, j: int|
        #![trigger values[i], values[j]]
        0 <= i < j < values.len() ==> key(values[i]) < key(values[j])
}

/// Whether some value has the key `k`.
pub open spec fn has_key<T>(values: Seq<T>, key: spec_fn(T) -> int, k: int) -> bool {
    exists|i: int| 0 <= i < values.len() && key(#[trigger] values[i]) == k
}

pub proof fn insert_keeps_order<T>(sorted: Seq<T>, x: T, key: spec_fn(T) -> int)
    requires
        strictly_ascending(sorted, key),
    ensures
        strictly_ascending(insert_by(sorted, x, key), key),
        forall|k: int| #[trigger]
            has_key(insert_by(sorted, x, key), key, k) <==> has_key(sorted, key, k) || k == key(x),
        insert_by(sorted, x, key).len() <= sorted.len() + 1,
        forall|i: int|
            0 <= i < insert_by(sorted, x, key).len() ==> #[trigger] insert_by(sorted, x, key)[i]
                == x || sorted.contains(insert_by(sorted, x, key)[i]),
    decreases sorted.len(),
{
    let out = insert_by(sorted, x, key);
    if sorted.len() == 0 {
        assert(out[0] == x);
        assert forall|k: int| has_key(out, key, k) <==> has_key(sorted, key, k) || k == key(x) by {
            if k == key(x) {
                assert(key(out[0]) == k);
            }
        }
    } else if key(sorted.last()) < key(x) {
        assert forall|i: int, j: int| 0 <= i < j < out.len() implies key(#[trigger] out[i]) < key(
            #[trigger] out[j],
        ) by {
            if j == sorted.len() {
                assert(out[i] == sorted[i]);
                if i < sorted.len() - 1 {
                    assert(key(sorted[i]) < key(sorted[sorted.len() - 1]));
                }
            }
        }
        assert forall|k: int| has_key(out, key, k) <==> has_key(sorted, key, k) || k == key(x) by {
            if has_key(sorted, key, k) {
                let i = choose|i: int| 0 <= i < sorted.len() && key(#[trigger] sorted[i]) == k;
                assert(key(out[i]) == k);
            }
            if k == key(x) {
                assert(key(out[sorted.len() as int]) == k);
            }
            if has_key(out, key, k) {
                let i = choose|i: int| 0 <= i < out.len() && key(#[trigger] out[i]) == k;
                if i < sorted.len() {
                    assert(key(sorted[i]) == k);
                }
            }
        }
    } else if key(sorted.last()) == key(x) {
        assert forall|k: int| has_key(out, key, k) <==> has_key(sorted, key, k) || k == key(x) by {
            if k == key(x) {
                assert(key(sorted[sorted.len() - 1]) == k);
            }
        }
    } else {
        let rest = sorted.drop_last();
        assert forall|i: int, j: int| 0 <= i < j < rest.len() implies key(#[trigger] rest[i]) < key(
            #[trigger] rest[j],
        ) by {
            assert(key(sorted[i]) < key(sorted[j]));
        }
        insert_keeps_order(rest, x, key);
        let inner = insert_by(rest, x, key);
        assert forall|i: int, j: int| 0 <= i < j < out.len() implies key(#[trigger] out[i]) < key(
            #[trigger] out[j],
        ) by {
            if j == inner.len() {
                assert(out[j] == sorted.last());
                assert(has_key(inner, key, key(inner[i])));
                assert(has_key(rest, key, key(inner[i])) || key(inner[i]) == key(x));
                if has_key(rest, key, key(inner[i])) {
                    let m = choose|m: int|
                        0 <= m < rest.len() && key(#[trigger] rest[m]) == key(inner[i]);
                    assert(sorted[m] == rest[m]);
                    assert(key(sorted[m]) < key(sorted[sorted.len() - 1]));
                }
            }
        }
        assert forall|k: int| has_key(out, key, k) <==> has_key(sorted, key, k) || k == key(x) by {
            if has_key(sorted, key, k) {
                let i = choose|i: int| 0 <= i < sorted.len() && key(#[trigger] sorted[i]) == k;
                if i < rest.len() {
                    assert(key(rest[i]) == k);
                    assert(has_key(inner, key, k));
                    let m = choose|m: int| 0 <= m < inner.len() && key(#[trigger] inner[m]) == k;
                    assert(key(out[m]) == k);
                } else {
                    assert(key(out[inner.len() as int]) == k);
                }
            }
            if k == key(x) {
                assert(has_key(inner, key, k));
                let m = choose|m: int| 0 <= m < inner.len() && key(#[trigger] inner[m]) == k;
                assert(key(out[m]) == k);
            }
            if has_key(out, key, k) {
                let i = choose|i: int| 0 <= i < out.len() && key(#[trigger] out[i]) == k;
                if i < inner.len() {
                    assert(key(inner[i]) == k);
                    assert(has_key(inner, key, k));
                    if has_key(rest, key, k) {
                        let m = choose|m: int| 0 <= m < rest.len() && key(#[trigger] rest[m]) == k;
                        assert(key(sorted[m]) == k);
                    }
                } else {
                    assert(key(sorted[sorted.len() - 1]) == k);
                }
            }
        }
        assert forall|i: int| 0 <= i < out.len() implies #[trigger] out[i] == x || sorted.contains(
            out[i],
        ) by {
            if i < inner.len() {
                assert(inner[i] == x || rest.contains(inner[i]));
                if rest.contains(inner[i]) {
                    let m = choose|m: int| 0 <= m < rest.len() && rest[m] == inner[i];
                    assert(sorted[m] == inner[i]);
                }
            } else {
                assert(out[i] == sorted[sorted.len() - 1]);
            }
        }
    }
}

/// The distinct values come out strictly ascending, and have exactly the keys that went in.
pub proof fn ascending_is_sorted<T>(values: Seq<T>, key: spec_fn(T) -> int)
    ensures
        strictly_ascending(ascending_by(values, key), key),
        forall|k: int| #[trigger]
            has_key(ascending_by(values, key), key, k) <==> has_key(values, key, k),
        ascending_by(values, key).len() <= values.len(),
        values.len() > 0 ==> ascending_by(values, key).len() > 0,
        forall|i: int|
            0 <= i < ascending_by(values, key).len() ==> values.contains(
                #[trigger] ascending_by(values, key)[i],
            ),
    decreases values.len(),
{
    if values.len() > 0 {
        let rest = values.drop_last();
        let x = values.last();
        ascending_is_sorted(rest, key);
        insert_keeps_order(ascending_by(rest, key), x, key);
        let out = ascending_by(values, key);
        assert forall|k: int| has_key(out, key, k) <==> has_key(values, key, k) by {
            if has_key(values, key, k) {
                let i = choose|i: int| 0 <= i < values.len() && key(#[trigger] values[i]) == k;
                if i < rest.len() {
                    assert(key(rest[i]) == k);
                    assert(has_key(rest, key, k));
                }
            }
            if has_key(rest, key, k) {
                let i = choose|i: int| 0 <= i < rest.len() && key(#[trigger] rest[i]) == k;
                assert(key(values[i]) == k);
            }
            if k == key(x) {
                assert(key(values[values.len() - 1]) == k);
            }
        }
        assert(has_key(out, key, key(x)));
        assert forall|i: int| 0 <= i < out.len() implies values.contains(#[trigger] out[i]) by {
            if out[i] == x {
                assert(values[values.len() - 1] == x);
            } else {
                let sorted = ascending_by(rest, key);
                assert(sorted.contains(out[i]));
                let m = choose|m: int| 0 <= m < sorted.len() && sorted[m] == out[i];
                assert(rest.contains(sorted[m]));
                let p = choose|p: int| 0 <= p < rest.len() && rest[p] == out[i];
                assert(values[p] == out[i]);
            }
        }
    }
}

/// A strictly ascending list is determined by its keys, when equal keys mean equal values.
pub proof fn ascending_unique<T>(a: Seq<T>, b: Seq<T>, key: spec_fn(T) -> int)
    requires
        strictly_ascending(a, key),
        strictly_ascending(b, key),
        forall|k: int| has_key(a, key, k) <==> has_key(b, key, k),
        forall|i: int, j: int|
            #![trigger a[i], b[j]]
            0 <= i < a.len() && 0 <= j < b.len() && key(a[i]) == key(b[j]) ==> a[i] == b[j],
    ensures
        a == b,
    decreases a.len(),
{
    if a.len() == 0 {
        if b.len() > 0 {
            assert(has_key(b, key, key(b[0])));
        }
        assert(a =~= b);
    } else {
        assert(has_key(a, key, key(a.last())));
        if b.len() == 0 {
            assert(false);
        }
        assert(has_key(b, key, key(b.last())));
        let i = choose|i: int| 0 <= i < b.len() && key(#[trigger] b[i]) == key(a.last());
        let j = choose|j: int| 0 <= j < a.len() && key(#[trigger] a[j]) == key(b.last());
        assert(key(a.last()) == key(b.last())) by {
            if i < b.len() - 1 && j < a.len() - 1 {
                assert(key(b[i]) < key(b[b.len() - 1]));
                assert(key(a[j]) < key(a[a.len() - 1]));
            }
        }
        let ra = a.drop_last();
        let rb = b.drop_last();
        assert forall|k: int| has_key(ra, key, k) <==> has_key(rb, key, k) by {
            if has_key(ra, key, k) {
                let m = choose|m: int| 0 <= m < ra.len() && key(#[trigger] ra[m]) == k;
                assert(key(a[m]) == k && key(a[m]) < key(a[a.len() - 1]));
                assert(has_key(a, key, k));
                let p = choose|p: int| 0 <= p < b.len() && key(#[trigger] b[p]) == k;
                assert(key(rb[p]) == k);
            }
            if has_key(rb, key, k) {
                let m = choose|m: int| 0 <= m < rb.len() && key(#[trigger] rb[m]) == k;
                assert(key(b[m]) == k && key(b[m]) < key(b[b.len() - 1]));
                assert(has_key(b, key, k));
                let p = choose|p: int| 0 <= p < a.len() && key(#[trigger] a[p]) == k;
                assert(key(ra[p]) == k);
            }
        }
        ascending_unique(ra, rb, key);
        assert(a[a.len() - 1] == b[b.len() - 1]);
        assert(a =~= ra.push(a.last()));
        assert(b =~= rb.push(b.last()));
    }
}

/// The value itself, as the key of an instant.
pub open spec fn itself(x: i64) -> int {
    x as int
}

/// The distinct instants of a column, ascending.
pub open spec fn distinct_instants(values: Seq<i64>) -> Seq<i64> {
    ascending_by(values, |x: i64| itself(x))
}

/// Each instant is later than the one before it.
pub open spec fn ascending(values: Seq<i64>) -> bool {
    forall|i: int, j: int| 0 <= i < j < values.len() ==> values[i] < values[j]
}

/// The distinct instants of a column ascend, and are exactly the column's.
pub proof fn instants_come_sorted(values: Seq<i64>)
    ensures
        ascending(distinct_instants(values)),
        forall|x: i64| distinct_instants(values).contains(x) <==> values.contains(x),
        distinct_instants(values).len() <= values.len(),
        values.len() > 0 ==> distinct_instants(values).len() > 0,
{
    let key = |x: i64| itself(x);
    let out = distinct_instants(values);
    ascending_is_sorted(values, key);
    assert forall|i: int, j: int| 0 <= i < j < out.len() implies out[i] < out[j] by {
        assert(key(out[i]) < key(out[j]));
    }
    assert forall|x: i64| out.contains(x) <==> values.contains(x) by {
        if out.contains(x) {
            let i = choose|i: int| 0 <= i < out.len() && out[i] == x;
            assert(values.contains(out[i]));
        }
        if values.contains(x) {
            let i = choose|i: int| 0 <= i < values.len() && values[i] == x;
            assert(has_key(values, key, key(values[i])));
            assert(has_key(out, key, key(x)));
            let j = choose|j: int| 0 <= j < out.len() && key(#[trigger] out[j]) == key(x);
            assert(out[j] == x);
        }
    }
}

/// Ascending instants that are exactly a column's are the column's distinct instants.
pub proof fn instants_determined(values: Seq<i64>, sorted: Seq<i64>)
    requires
        ascending(sorted),
        forall|x: i64| sorted.contains(x) <==> values.contains(x),
    ensures
        distinct_instants(values) == sorted,
{
    let key = |x: i64| itself(x);
    let out = distinct_instants(values);
    instants_come_sorted(values);
    ascending_is_sorted(values, key);
    assert(strictly_ascending(sorted, key));
    assert forall|k: int| has_key(out, key, k) <==> has_key(sorted, key, k) by {
        if has_key(out, key, k) {
            let i = choose|i: int| 0 <= i < out.len() && key(#[trigger] out[i]) == k;
            assert(out.contains(out[i]));
            assert(sorted.contains(out[i]));
            let j = choose|j: int| 0 <= j < sorted.len() && sorted[j] == out[i];
            assert(key(sorted[j]) == k);
        }
        if has_key(sorted, key, k) {
            let i = choose|i: int| 0 <= i < sorted.len() && key(#[trigger] sorted[i]) == k;
            assert(sorted.contains(sorted[i]));
            assert(out.contains(sorted[i]));
            let j = choose|j: int| 0 <= j < out.len() && out[j] == sorted[i];
            assert(key(out[j]) == k);
        }
    }
    ascending_unique(out, sorted, key);
}

fn insert_instant(sorted: &mut Vec<i64>, x: i64)
    ensures
        final(sorted)@ == insert_by(old(sorted)@, x, |v: i64| itself(v)),
{
    let ghost key = |v: i64| itself(v);
    let ghost whole = sorted@;
    let mut at: usize = sorted.len();
    proof {
        assert(whole.take(at as int) =~= whole);
        assert(insert_by(whole, x, key) + whole.skip(at as int) =~= insert_by(whole, x, key));
    }
    while at > 0 && sorted[at - 1] > x
        invariant
            at <= sorted.len(),
            sorted@ == whole,
            key == (|v: i64| itself(v)),
            insert_by(whole, x, key) == insert_by(whole.take(at as int), x, key) + whole.skip(
                at as int,
            ),
        ensures
            at <= sorted.len(),
            sorted@ == whole,
            at == 0 || whole[at - 1] <= x,
            insert_by(whole, x, key) == insert_by(whole.take(at as int), x, key) + whole.skip(
                at as int,
            ),
        decreases at,
    {
        proof {
            let shorter = whole.take(at as int);
            assert(shorter.drop_last() =~= whole.take(at - 1));
            assert(shorter.last() == whole[at - 1]);
            let inner = insert_by(whole.take(at - 1), x, key);
            assert(insert_by(shorter, x, key) == inner.push(whole[at - 1]));
            assert(inner.push(whole[at - 1]) + whole.skip(at as int) =~= inner + whole.skip(at - 1));
        }
        at -= 1;
    }
    if at > 0 && sorted[at - 1] == x {
        proof {
            assert(insert_by(whole.take(at as int), x, key) == whole.take(at as int));
            assert(whole.take(at as int) + whole.skip(at as int) =~= whole);
        }
        return ;
    }
    sorted.insert(at, x);
    proof {
        if at == 0 {
            assert(whole.take(0) =~= seq![]);
            assert(sorted@ =~= seq![x] + whole.skip(0));
        } else {
            assert(insert_by(whole.take(at as int), x, key) == whole.take(at as int).push(x));
            assert(sorted@ =~= whole.take(at as int).push(x) + whole.skip(at as int));
        }
    }
}

/// The distinct values of a column, ascending: sorted rather than in the order of the rows,
/// so that nothing depends on how a file was left.
pub fn distinct_sorted(values: &Vec<i64>) -> (r: Vec<i64>)
    ensures
        r@ == distinct_instants(values@),
        ascending(r@),
        forall|x: i64| r@.contains(x) <==> values@.contains(x),
        r@.len() <= values@.len(),
        values@.len() > 0 ==> r@.len() > 0,
{
    let mut out: Vec<i64> = Vec::new();
    let mut i: usize = 0;
    while i < values.len()
        invariant
            i <= values.len(),
            out@ == distinct_instants(values@.take(i as int)),
        decreases values.len() - i,
    {
        insert_instant(&mut out, values[i]);
        proof {
            assert(values@.take(i + 1).drop_last() =~= values@.take(i as int));
            assert(values@.take(i + 1).last() == values[i as int]);
        }
        i += 1;
    }
    proof {
        assert(values@.take(i as int) =~= values@);
        instants_come_sorted(values@);
    }
    out
}

/// Where an instant stands among distinct ascending ones.
pub fn position_of(sorted: &Vec<i64>, x: i64) -> (r: Option<usize>)
    requires
        ascending(sorted@),
    ensures
        match r {
            Some(i) => i < sorted@.len() && sorted@[i as int] == x,
            None => !sorted@.contains(x),
        },
{
    let mut low: usize = 0;
    let mut high: usize = sorted.len();
    while low < high
        invariant
            low <= high <= sorted.len(),
            ascending(sorted@),
            forall|i: int| 0 <= i < low ==> sorted@[i] < x,
            forall|i: int| high <= i < sorted@.len() ==> x < sorted@[i],
        decreases high - low,
    {
        let middle: usize = low + (high - low) / 2;
        let here: i64 = sorted[middle];
        if here == x {
            return Some(middle);
        }
        if here < x {
            low = middle + 1;
        } else {
            high = middle;
        }
    }
    None
}

/// The integer by which a percentile is ordered and found again: the order of the numbers
/// its IEEE 754 bits stand for, with both zeros alike.
pub open spec fn percentile_rank(bits: u64) -> int {
    if bits >= 0x8000_0000_0000_0000 {
        0x8000_0000_0000_0000 - bits
    } else {
        bits as int
    }
}

/// Whether the bits stand for no number at all.
pub open spec fn is_nan(bits: u64) -> bool {
    percentile_rank(bits) > 0x7ff0_0000_0000_0000 || percentile_rank(bits) < -0x7ff0_0000_0000_0000
}

/// The integer by which a percentile is ordered and found again.
pub fn rank_of(bits: u64) -> (r: i64)
    ensures
        r == percentile_rank(bits),
{
    if bits >= 0x8000_0000_0000_0000 {
        -((bits - 0x8000_0000_0000_0000) as i64)
    } else {
        bits as i64
    }
}

/// Whether the bits stand for no number at all.
pub fn not_a_number(bits: u64) -> (r: bool)
    ensures
        r == is_nan(bits),
{
    let rank: i64 = rank_of(bits);
    rank > 0x7ff0_0000_0000_0000 || rank < -0x7ff0_0000_0000_0000
}

/// The distinct percentiles of a column, ascending.
pub open spec fn distinct_percentiles(values: Seq<u64>) -> Seq<u64> {
    ascending_by(values, |x: u64| percentile_rank(x))
}

fn insert_percentile(sorted: &mut Vec<u64>, x: u64)
    ensures
        final(sorted)@ == insert_by(old(sorted)@, x, |v: u64| percentile_rank(v)),
{
    let ghost key = |v: u64| percentile_rank(v);
    let ghost whole = sorted@;
    let rank: i64 = rank_of(x);
    let mut at: usize = sorted.len();
    proof {
        assert(whole.take(at as int) =~= whole);
        assert(insert_by(whole, x, key) + whole.skip(at as int) =~= insert_by(whole, x, key));
    }
    while at > 0 && rank_of(sorted[at - 1]) > rank
        invariant
            at <= sorted.len(),
            sorted@ == whole,
            rank == percentile_rank(x),
            key == (|v: u64| percentile_rank(v)),
            insert_by(whole, x, key) == insert_by(whole.take(at as int), x, key) + whole.skip(
                at as int,
            ),
        ensures
            at <= sorted.len(),
            sorted@ == whole,
            at == 0 || percentile_rank(whole[at - 1]) <= rank,
            insert_by(whole, x, key) == insert_by(whole.take(at as int), x, key) + whole.skip(
                at as int,
            ),
        decreases at,
    {
        proof {
            let shorter = whole.take(at as int);
            assert(shorter.drop_last() =~= whole.take(at - 1));
            assert(shorter.last() == whole[at - 1]);
            let inner = insert_by(whole.take(at - 1), x, key);
            assert(insert_by(shorter, x, key) == inner.push(whole[at - 1]));
            assert(inner.push(whole[at - 1]) + whole.skip(at as int) =~= inner + whole.skip(at - 1));
        }
        at -= 1;
    }
    if at > 0 && rank_of(sorted[at - 1]) == rank {
        proof {
            assert(insert_by(whole.take(at as int), x, key) == whole.take(at as int));
            assert(whole.take(at as int) + whole.skip(at as int) =~= whole);
        }
        return ;
    }
    sorted.insert(at, x);
    proof {
        if at == 0 {
            assert(whole.take(0) =~= seq![]);
            assert(sorted@ =~= seq![x] + whole.skip(0));
        } else {
            assert(insert_by(whole.take(at as int), x, key) == whole.take(at as int).push(x));
            assert(sorted@ =~= whole.take(at as int).push(x) + whole.skip(at as int));
        }
    }
}

/// The distinct percentiles of a column, ascending.
pub fn percentiles_sorted(values: &Vec<u64>) -> (r: Vec<u64>)
    ensures
        r@ == distinct_percentiles(values@),
        r@.len() <= values@.len(),
{
    let mut out: Vec<u64> = Vec::new();
    let mut i: usize = 0;
    while i < values.len()
        invariant
            i <= values.len(),
            out@ == distinct_percentiles(values@.take(i as int)),
        decreases values.len() - i,
    {
        insert_percentile(&mut out, values[i]);
        proof {
            assert(values@.take(i + 1).drop_last() =~= values@.take(i as int));
            assert(values@.take(i + 1).last() == values[i as int]);
        }
        i += 1;
    }
    proof {
        assert(values@.take(i as int) =~= values@);
        ascending_is_sorted(values@, |x: u64| percentile_rank(x));
    }
    out
}

/// Where the first percentile with the rank of `p` stands in a list.
pub open spec fn percentile_place(labels: Seq<u64>, p: u64) -> Option<int>
    decreases labels.len(),
{
    if labels.len() == 0 {
        None
    } else {
        match percentile_place(labels.drop_last(), p) {
            Some(i) => Some(i),
            None => if percentile_rank(labels.last()) == percentile_rank(p) {
                Some(labels.len() - 1)
            } else {
                None
            },
        }
    }
}

/// Where the first percentile with the rank of `p` stands in a list.
pub fn place_of_percentile(labels: &Vec<u64>, p: u64) -> (r: Option<usize>)
    ensures
        match r {
            Some(i) => i < labels@.len() && percentile_place(labels@, p) == Some(i as int),
            None => percentile_place(labels@, p) is None,
        },
{
    let rank: i64 = rank_of(p);
    let mut i: usize = 0;
    while i < labels.len()
        invariant
            i <= labels.len(),
            rank == percentile_rank(p),
            percentile_place(labels@.take(i as int), p) is None,
        decreases labels.len() - i,
    {
        proof {
            assert(labels@.take(i + 1).drop_last() =~= labels@.take(i as int));
            assert(labels@.take(i + 1).last() == labels[i as int]);
        }
        if rank_of(labels[i]) == rank {
            proof {
                place_extends(labels@, p, i + 1);
            }
            return Some(i);
        }
        i += 1;
    }
    proof {
        assert(labels@.take(i as int) =~= labels@);
    }
    None
}

/// What a prefix of the labels finds, all of them find.
proof fn place_extends(labels: Seq<u64>, p: u64, n: int)
    requires
        0 <= n <= labels.len(),
        percentile_place(labels.take(n), p) is Some,
    ensures
        percentile_place(labels, p) == percentile_place(labels.take(n), p),
    decreases labels.len() - n,
{
    if n == labels.len() {
        assert(labels.take(n) =~= labels);
    } else {
        assert(labels.take(n + 1).drop_last() =~= labels.take(n));
        place_extends(labels, p, n + 1);
    }
}

/// A label of a strictly ascending list stands where it stands.
pub proof fn place_in_ascending(labels: Seq<u64>, i: int)
    requires
        strictly_ascending(labels, |x: u64| percentile_rank(x)),
        0 <= i < labels.len(),
    ensures
        percentile_place(labels, labels[i]) == Some(i),
    decreases labels.len(),
{
    let key = |x: u64| percentile_rank(x);
    let rest = labels.drop_last();
    assert(strictly_ascending(rest, key)) by {
        assert forall|a: int, b: int| 0 <= a < b < rest.len() implies key(#[trigger] rest[a]) < key(
            #[trigger] rest[b],
        ) by {
            assert(key(labels[a]) < key(labels[b]));
        }
    }
    if i < rest.len() {
        place_in_ascending(rest, i);
        assert(rest[i] == labels[i]);
    } else {
        absent_place(rest, labels[i]);
    }
}

proof fn absent_place(labels: Seq<u64>, p: u64)
    requires
        forall|i: int| 0 <= i < labels.len() ==> percentile_rank(#[trigger] labels[i]) != percentile_rank(p),
    ensures
        percentile_place(labels, p) is None,
    decreases labels.len(),
{
    if labels.len() > 0 {
        let rest = labels.drop_last();
        assert forall|i: int| 0 <= i < rest.len() implies percentile_rank(#[trigger] rest[i])
            != percentile_rank(p) by {
            assert(rest[i] == labels[i]);
        }
        absent_place(rest, p);
    }
}

// ---- What is ordered how ------------------------------------------------------------------------

/// The place of an instant among sorted ones is where it stands, and there is one exactly where
/// it is among them.
pub proof fn places_are_where_instants_stand(sorted: Vec<i64>, i: int, r: Option<usize>)
    requires
        ascending(sorted@),
        0 <= i < sorted@.len(),
        call_ensures(position_of, (&sorted, sorted@[i]), r),
    ensures
        r == Some(i as usize),
{
    let at = r->0 as int;
    if at < i {
        assert(sorted@[at] < sorted@[i]);
    } else if i < at {
        assert(sorted@[i] < sorted@[at]);
    }
}

/// Ranks order the bits of finite numbers as the numbers are ordered: below zero by falling
/// magnitude, above it by rising magnitude, and the two zeros are one.
pub proof fn ranks_order_as_numbers(a: u64, b: u64, ra: i64, rb: i64)
    requires
        call_ensures(rank_of, (a,), ra),
        call_ensures(rank_of, (b,), rb),
    ensures
        a < 0x8000_0000_0000_0000 && b < 0x8000_0000_0000_0000 ==> (ra < rb <==> a < b),
        a >= 0x8000_0000_0000_0000 && b >= 0x8000_0000_0000_0000 ==> (ra < rb <==> a > b),
        a > 0x8000_0000_0000_0000 && b < 0x8000_0000_0000_0000 ==> ra < rb,
        a == 0x8000_0000_0000_0000 && b == 0 ==> ra == rb,
{
}

/// What is not a number is told by its exponent and its fraction, whatever its sign.
pub proof fn not_numbers_are_told(bits: u64, r: bool)
    requires
        call_ensures(not_a_number, (bits,), r),
    ensures
        r <==> (if bits >= 0x8000_0000_0000_0000 {
            bits - 0x8000_0000_0000_0000
        } else {
            bits as int
        }) > 0x7ff0_0000_0000_0000,
{
}

/// Percentiles come sorted, none of them twice, and none is lost or made up.
pub proof fn percentiles_come_sorted(values: Vec<u64>, r: Vec<u64>)
    requires
        call_ensures(percentiles_sorted, (&values,), r),
    ensures
        forall|i: int, j: int|
            #![trigger r@[i], r@[j]]
            0 <= i < j < r@.len() ==> percentile_rank(r@[i]) < percentile_rank(r@[j]),
        forall|i: int| 0 <= i < r@.len() ==> values@.contains(#[trigger] r@[i]),
        forall|i: int|
            0 <= i < values@.len() ==> exists|j: int|
                0 <= j < r@.len() && percentile_rank(#[trigger] r@[j]) == percentile_rank(
                    #[trigger] values@[i],
                ),
{
    let key = |x: u64| percentile_rank(x);
    ascending_is_sorted(values@, key);
    assert forall|i: int| 0 <= i < values@.len() implies exists|j: int|
        0 <= j < r@.len() && percentile_rank(#[trigger] r@[j]) == percentile_rank(
            #[trigger] values@[i],
        ) by {
        assert(key(values@[i]) == percentile_rank(values@[i]));
        assert(has_key(values@, key, key(values@[i])));
        assert(has_key(ascending_by(values@, key), key, key(values@[i])));
        let j = choose|j: int|
            0 <= j < r@.len() && key(#[trigger] ascending_by(values@, key)[j]) == key(values@[i]);
        assert(percentile_rank(r@[j]) == percentile_rank(values@[i]));
    }
    assert forall|i: int, j: int|
        #![trigger r@[i], r@[j]]
        0 <= i < j < r@.len() implies percentile_rank(r@[i]) < percentile_rank(r@[j]) by {
        assert(key(r@[i]) < key(r@[j]));
    }
}

/// The place of a percentile is the first that has its rank, and there is one exactly where some
/// label has it.
pub proof fn percentiles_are_placed_by_rank(labels: Vec<u64>, p: u64, r: Option<usize>)
    requires
        call_ensures(place_of_percentile, (&labels, p), r),
    ensures
        match r {
            Some(i) => i < labels@.len() && percentile_rank(labels@[i as int]) == percentile_rank(p)
                && forall|j: int|
                0 <= j < i ==> percentile_rank(#[trigger] labels@[j]) != percentile_rank(p),
            None => forall|j: int|
                0 <= j < labels@.len() ==> percentile_rank(#[trigger] labels@[j])
                    != percentile_rank(p),
        },
{
    place_is_first(labels@, p);
}

proof fn place_is_first(labels: Seq<u64>, p: u64)
    ensures
        match percentile_place(labels, p) {
            Some(i) => 0 <= i < labels.len() && percentile_rank(labels[i]) == percentile_rank(p)
                && forall|j: int|
                0 <= j < i ==> percentile_rank(#[trigger] labels[j]) != percentile_rank(p),
            None => forall|j: int|
                0 <= j < labels.len() ==> percentile_rank(#[trigger] labels[j])
                    != percentile_rank(p),
        },
    decreases labels.len(),
{
    if labels.len() > 0 {
        let rest = labels.drop_last();
        place_is_first(rest, p);
        assert forall|j: int| 0 <= j < rest.len() implies #[trigger] labels[j] == rest[j] by {}
        match percentile_place(rest, p) {
            Some(i) => {
                assert(labels[i] == rest[i]);
            },
            None => {
                assert forall|j: int| 0 <= j < labels.len() - 1 implies percentile_rank(
                    #[trigger] labels[j],
                ) != percentile_rank(p) by {
                    assert(rest[j] == labels[j]);
                }
            },
        }
    }
}

} // verus!
