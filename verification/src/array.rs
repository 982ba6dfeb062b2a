//! Typed arrays: a dtype, a shape, and the flat row-major little-endian bytes.
use crate::kinds::Dtype;
use crate::text::{decimal, decimal_text};
use vstd::prelude::*;

verus! {

/// How many elements a shape holds: one for no dimensions at all.
pub open spec fn product(shape: Seq<usize>) -> nat
    decreases shape.len(),
{
    if shape.len() == 0 {
        1
    } else {
        product(shape.drop_last()) * (shape.last() as nat)
    }
}

/// How many elements one row of a shape holds, never less than one.
pub open spec fn width_of(shape: Seq<usize>) -> nat {
    if product(shape) == 0 {
        1
    } else {
        product(shape)
    }
}

/// A shape with a zero dimension holds nothing.
pub proof fn product_of_zero(shape: Seq<usize>, i: int)
    requires
        0 <= i < shape.len(),
        shape[i] == 0,
    ensures
        product(shape) == 0,
    decreases shape.len(),
{
    if i < shape.len() - 1 {
        product_of_zero(shape.drop_last(), i);
    }
    assert(product(shape.drop_last()) * (shape.last() as nat) == 0) by (nonlinear_arith)
        requires
            product(shape.drop_last()) == 0 || shape.last() == 0,
    ;
}

/// Two shapes one after the other hold the product of what each holds.
pub proof fn product_of_both(a: Seq<usize>, b: Seq<usize>)
    ensures
        product(a + b) == product(a) * product(b),
    decreases b.len(),
{
    if b.len() == 0 {
        assert(a + b =~= a);
        assert(product(b) == 1);
        assert(product(a) * 1 == product(a));
    } else {
        product_of_both(a, b.drop_last());
        assert((a + b).drop_last() =~= a + b.drop_last());
        assert((a + b).last() == b.last());
        let x = product(a);
        let y = product(b.drop_last());
        let z = b.last() as nat;
        assert(product(a + b) == product((a + b).drop_last()) * ((a + b).last() as nat));
        assert(product(b) == y * z);
        assert((x * y) * z == x * (y * z)) by (nonlinear_arith);
    }
}

/// What a shape of a single dimension holds.
pub proof fn product_of_one(n: usize)
    ensures
        product(seq![n]) == n,
{
    let shape = seq![n];
    assert(shape.drop_last() =~= seq![]);
    assert(product(shape.drop_last()) == 1);
    assert(product(shape) == 1 * (n as nat));
}

/// What a shape holds, by its leading axis.
pub proof fn product_by_rows(shape: Seq<usize>)
    requires
        shape.len() > 0,
    ensures
        product(shape) == shape[0] * product(element_dims(shape)),
{
    let head = seq![shape[0]];
    product_of_both(head, shape.skip(1));
    assert(head + shape.skip(1) =~= shape);
    product_of_one(shape[0]);
}

/// A longer shape without zero dimensions never holds less.
proof fn product_grows(shape: Seq<usize>, i: int)
    requires
        0 <= i <= shape.len(),
        forall|j: int| 0 <= j < shape.len() ==> shape[j] > 0,
    ensures
        0 < product(shape.take(i)) <= product(shape),
    decreases shape.len() - i,
{
    if i < shape.len() {
        product_grows(shape, i + 1);
        assert(shape.take(i + 1).drop_last() =~= shape.take(i));
        let before = product(shape.take(i));
        let by = shape[i] as nat;
        assert(product(shape.take(i + 1)) == before * by);
        assert(before * by > 0);
        assert(0 < before <= before * by) by (nonlinear_arith)
            requires
                before >= 0,
                by > 0,
                before * by > 0,
        ;
    } else {
        assert(shape.take(i) =~= shape);
        product_positive(shape);
    }
}

proof fn product_positive(shape: Seq<usize>)
    requires
        forall|j: int| 0 <= j < shape.len() ==> shape[j] > 0,
    ensures
        product(shape) > 0,
    decreases shape.len(),
{
    if shape.len() > 0 {
        product_positive(shape.drop_last());
        assert(product(shape.drop_last()) * (shape.last() as nat) > 0) by (nonlinear_arith)
            requires
                product(shape.drop_last()) > 0,
                shape.last() > 0,
        ;
    }
}

/// `a * b`, if the platform's sizes reach it.
pub(crate) fn times(a: usize, b: usize) -> (r: Option<usize>)
    ensures
        r == (if a * b <= usize::MAX {
            Some((a * b) as usize)
        } else {
            None
        }),
{
    a.checked_mul(b)
}

/// How many elements a shape holds, if the platform's sizes reach it.
pub fn element_count(shape: &Vec<usize>) -> (r: Option<usize>)
    ensures
        r == (if product(shape@) <= usize::MAX {
            Some(product(shape@) as usize)
        } else {
            None
        }),
{
    let mut i: usize = 0;
    while i < shape.len()
        invariant
            i <= shape.len(),
            forall|j: int| 0 <= j < i ==> shape[j] > 0,
        decreases shape.len() - i,
    {
        if shape[i] == 0 {
            proof {
                product_of_zero(shape@, i as int);
            }
            return Some(0);
        }
        i += 1;
    }
    let mut total: usize = 1;
    let mut k: usize = 0;
    while k < shape.len()
        invariant
            k <= shape.len(),
            forall|j: int| 0 <= j < shape.len() ==> shape[j] > 0,
            total == product(shape@.take(k as int)),
        decreases shape.len() - k,
    {
        proof {
            assert(shape@.take(k + 1).drop_last() =~= shape@.take(k as int));
            product_grows(shape@, k + 1);
        }
        match times(total, shape[k]) {
            Some(next) => {
                total = next;
            },
            None => {
                return None;
            },
        }
        k += 1;
    }
    proof {
        assert(shape@.take(k as int) =~= shape@);
    }
    Some(total)
}

/// `[2, 3]`, as a list of sizes is displayed.
pub open spec fn shape_text(shape: Seq<usize>) -> Seq<char> {
    "["@ + sizes_text(shape) + "]"@
}

/// Sizes in decimal, with a comma and a space between each two.
pub open spec fn sizes_text(shape: Seq<usize>) -> Seq<char>
    decreases shape.len(),
{
    if shape.len() == 0 {
        ""@
    } else if shape.len() == 1 {
        ""@ + decimal_text(shape[0] as nat)
    } else {
        sizes_text(shape.drop_last()) + ", "@ + decimal_text(shape.last() as nat)
    }
}

/// `[2, 3]`, as a list of sizes is displayed.
pub fn show_shape(shape: &Vec<usize>) -> (r: String)
    ensures
        r@ == shape_text(shape@),
{
    let mut inner = "".to_string();
    let mut i: usize = 0;
    while i < shape.len()
        invariant
            i <= shape.len(),
            inner@ == sizes_text(shape@.take(i as int)),
        decreases shape.len() - i,
    {
        if i > 0 {
            inner.append(", ");
        }
        inner.append(decimal(shape[i] as u64).as_str());
        proof {
            assert(shape@.take(i + 1).drop_last() =~= shape@.take(i as int));
        }
        i += 1;
    }
    proof {
        assert(shape@.take(i as int) =~= shape@);
    }
    let mut out = "[".to_string();
    out.append(inner.as_str());
    out.append("]");
    out
}

/// A dtype, a shape, and the flat row-major little-endian bytes of the elements.
#[derive(Clone, Debug)]
pub struct TypedArray {
    pub dtype: Dtype,
    pub shape: Vec<usize>,
    pub bytes: Vec<u8>,
}

/// A [`TypedArray`], with its lists as sequences.
pub struct ArrayView {
    pub dtype: Dtype,
    pub shape: Seq<usize>,
    pub bytes: Seq<u8>,
}

impl ArrayView {
    /// Whether the bytes are as many as the shape and the dtype say.
    pub open spec fn fits(self) -> bool {
        product(self.shape) * self.dtype.bytes() == self.bytes.len()
    }
}

impl View for TypedArray {
    type V = ArrayView;

    open spec fn view(&self) -> ArrayView {
        ArrayView { dtype: self.dtype, shape: self.shape@, bytes: self.bytes@ }
    }
}

/// What is said of a buffer whose length contradicts its shape.
pub open spec fn wrong_length_text(a: ArrayView) -> Seq<char> {
    length_text(a.dtype, a.shape, a.bytes.len())
}

/// What is said of so many bytes that contradict a shape.
pub open spec fn length_text(dtype: Dtype, shape: Seq<usize>, length: nat) -> Seq<char> {
    "a "@ + dtype.spelling() + " array of shape "@ + shape_text(shape) + " does not hold "@
        + decimal_text(length) + " bytes"@
}

/// What is said of so many bytes that contradict a shape.
pub(crate) fn wrong_length(dtype: Dtype, shape: &Vec<usize>, length: usize) -> (r: String)
    ensures
        r@ == length_text(dtype, shape@, length as nat),
{
    let mut out = "a ".to_string();
    out.append(dtype.as_str());
    out.append(" array of shape ");
    out.append(show_shape(shape).as_str());
    out.append(" does not hold ");
    out.append(decimal(length as u64).as_str());
    out.append(" bytes");
    out
}

impl TypedArray {
    /// An array, refused when the buffer is not as long as the shape says.
    pub fn new(dtype: Dtype, shape: Vec<usize>, bytes: Vec<u8>) -> (r: Result<TypedArray, String>)
        ensures
            ({
                let a = ArrayView { dtype, shape: shape@, bytes: bytes@ };
                match r {
                    Ok(array) => a.fits() && array@ == a,
                    Err(e) => !a.fits() && e@ == wrong_length_text(a),
                }
            }),
    {
        let size: usize = dtype.size();
        let ghost a = ArrayView { dtype, shape: shape@, bytes: bytes@ };
        let fits = match element_count(&shape) {
            None => {
                proof {
                    assert(product(shape@) * dtype.bytes() >= product(shape@)) by (nonlinear_arith)
                        requires
                            dtype.bytes() >= 1,
                            product(shape@) >= 0,
                    ;
                }
                false
            },
            Some(n) => match times(n, size) {
                None => false,
                Some(length) => length == bytes.len(),
            },
        };
        if fits {
            Ok(TypedArray { dtype, shape, bytes })
        } else {
            Err(wrong_length(dtype, &shape, bytes.len()))
        }
    }

    /// Everything after the leading axis.
    pub fn element_shape(&self) -> (r: Vec<usize>)
        ensures
            r@ == element_dims(self.shape@),
    {
        tail_of(&self.shape, 1)
    }
}

/// Everything after the leading axis of a shape.
pub open spec fn element_dims(shape: Seq<usize>) -> Seq<usize> {
    after(shape, 1)
}

/// What follows the first `skip` dimensions, or nothing if there are not as many.
pub open spec fn after(shape: Seq<usize>, skip: int) -> Seq<usize> {
    if skip <= shape.len() {
        shape.skip(skip)
    } else {
        seq![]
    }
}

/// What follows the first `skip` dimensions, or nothing if there are not as many.
pub fn tail_of(shape: &Vec<usize>, skip: usize) -> (r: Vec<usize>)
    ensures
        r@ == after(shape@, skip as int),
{
    let mut out: Vec<usize> = Vec::new();
    let mut i: usize = skip;
    while i < shape.len()
        invariant
            skip <= i,
            skip <= shape.len() ==> i <= shape.len(),
            skip > shape.len() ==> out@.len() == 0,
            skip <= shape.len() ==> out@ == shape@.subrange(skip as int, i as int),
        decreases shape.len() - i,
    {
        out.push(shape[i]);
        i += 1;
    }
    out
}

/// The first `n` dimensions, or all of them if there are fewer.
pub fn head_of(shape: &Vec<usize>, n: usize) -> (r: Vec<usize>)
    ensures
        r@ == shape@.take(if n <= shape@.len() {
            n as int
        } else {
            shape@.len() as int
        }),
{
    let mut out: Vec<usize> = Vec::new();
    let mut i: usize = 0;
    while i < n && i < shape.len()
        invariant
            i <= n,
            i <= shape.len(),
            out@ == shape@.take(i as int),
        decreases shape.len() - i,
    {
        out.push(shape[i]);
        i += 1;
    }
    out
}

// ---- Cells: the bytes of one row -----------------------------------------------

/// The bytes of the `k`-th row of a buffer whose rows are `width` bytes each.
pub open spec fn cell(bytes: Seq<u8>, k: int, width: int) -> Seq<u8> {
    bytes.subrange(k * width, (k + 1) * width)
}

/// Row `k` lies inside a buffer of `n` rows.
pub proof fn cell_inside(k: int, n: int, width: int)
    requires
        0 <= k < n,
        0 <= width,
    ensures
        0 <= k * width,
        k * width <= (k + 1) * width,
        (k + 1) * width == k * width + width,
        (k + 1) * width <= n * width,
{
    assert(0 <= k * width && (k + 1) * width == k * width + width && (k + 1) * width <= n * width)
        by (nonlinear_arith)
        requires
            0 <= k < n,
            0 <= width,
    ;
}

/// Two different rows of a buffer share no byte.
pub proof fn cells_apart(j: int, k: int, width: int)
    requires
        j != k,
        0 <= width,
    ensures
        (j + 1) * width <= k * width || (k + 1) * width <= j * width,
{
    if j < k {
        assert((j + 1) * width <= k * width) by (nonlinear_arith)
            requires
                j < k,
                0 <= width,
        ;
    } else {
        assert((k + 1) * width <= j * width) by (nonlinear_arith)
            requires
                k < j,
                0 <= width,
        ;
    }
}

/// Copies row `row` of `from` into row `slot` of `bytes`, leaving every other row as it was.
pub fn put_cell(bytes: &mut Vec<u8>, slot: usize, from: &Vec<u8>, row: usize, width: usize)
    requires
        (slot + 1) * width <= old(bytes)@.len(),
        (row + 1) * width <= from@.len(),
    ensures
        final(bytes)@.len() == old(bytes)@.len(),
        cell(final(bytes)@, slot as int, width as int) == cell(from@, row as int, width as int),
        forall|j: int|
            0 <= j && j != slot && (j + 1) * width <= old(bytes)@.len() ==> #[trigger] cell(
                final(bytes)@,
                j,
                width as int,
            ) == cell(old(bytes)@, j, width as int),
{
    proof {
        cell_inside(slot as int, slot + 1, width as int);
        cell_inside(row as int, row + 1, width as int);
    }
    let length: usize = bytes.len();
    let available: usize = from.len();
    let to: usize = slot * width;
    let source: usize = row * width;
    let mut b: usize = 0;
    while b < width
        invariant
            b <= width,
            to == slot * width,
            source == row * width,
            to + width <= bytes@.len(),
            source + width <= from@.len(),
            length == bytes@.len(),
            available == from@.len(),
            bytes@.len() == old(bytes)@.len(),
            forall|i: int| 0 <= i < b ==> #[trigger] bytes@[to + i] == from@[source + i],
            forall|i: int|
                0 <= i < bytes@.len() && (i < to || to + b <= i) ==> bytes@[i] == old(bytes)@[i],
        decreases width - b,
    {
        let ghost was = bytes@;
        bytes.set(to + b, from[source + b]);
        proof {
            assert forall|i: int| 0 <= i < b + 1 implies #[trigger] bytes@[to + i] == from@[source
                + i] by {
                if i < b {
                    assert(was[to + i] == from@[source + i]);
                }
            }
        }
        b += 1;
    }
    proof {
        let done = bytes@;
        assert((slot + 1) * width == to + width) by {
            cell_inside(slot as int, slot + 1, width as int);
        }
        assert((row + 1) * width == source + width) by {
            cell_inside(row as int, row + 1, width as int);
        }
        assert(cell(done, slot as int, width as int) =~= cell(from@, row as int, width as int)) by {
            assert forall|i: int| 0 <= i < width implies cell(
                done,
                slot as int,
                width as int,
            )[i] == cell(from@, row as int, width as int)[i] by {
                assert(done[to + i] == from@[source + i]);
            }
        }
        assert forall|j: int|
            0 <= j && j != slot && (j + 1) * width <= old(bytes)@.len() implies #[trigger] cell(
            done,
            j,
            width as int,
        ) == cell(old(bytes)@, j, width as int) by {
            cells_apart(j, slot as int, width as int);
            cell_inside(j, j + 1, width as int);
            assert(cell(done, j, width as int) =~= cell(old(bytes)@, j, width as int));
        }
    }
}

/// The head and the tail of a shape are the shape.
pub proof fn heads_and_tails_are_the_shape(shape: Vec<usize>, n: usize, head: Vec<usize>, tail: Vec<usize>)
    requires
        call_ensures(head_of, (&shape, n), head),
        call_ensures(tail_of, (&shape, n), tail),
    ensures
        head@ + tail@ == shape@,
        n <= shape@.len() ==> head@.len() == n,
{
    assert(head@ + tail@ =~= shape@);
}

/// An array is made exactly of as many bytes as its shape has elements, times the size of one.
pub proof fn arrays_are_as_long_as_their_shape(
    dtype: Dtype,
    shape: Vec<usize>,
    bytes: Vec<u8>,
    r: Result<TypedArray, String>,
)
    requires
        call_ensures(TypedArray::new, (dtype, shape, bytes), r),
    ensures
        r is Ok <==> product(shape@) * dtype.bytes() == bytes@.len(),
        r matches Ok(a) ==> a.dtype == dtype && a.shape@ == shape@ && a.bytes@ == bytes@,
{
}

/// How many elements a shape has is the product of its sizes, where the platform can hold it.
pub proof fn elements_are_counted(shape: Vec<usize>, last: usize, longer: Vec<usize>, n: Option<usize>, m: Option<usize>)
    requires
        call_ensures(element_count, (&shape,), n),
        call_ensures(element_count, (&longer,), m),
        longer@ == shape@.push(last),
    ensures
        shape@.len() == 0 ==> n == Some(1usize),
        m is Some && n is Some ==> m->0 == n->0 * last,
        n is Some && n->0 * last <= usize::MAX ==> m is Some,
{
    assert(longer@.drop_last() =~= shape@);
}

} // verus!
