//! Row-major layouts and the packing of several tensors into one block of memory.
use vstd::prelude::*;
use vstd::arithmetic::div_mod::{
    lemma_fundamental_div_mod, lemma_fundamental_div_mod_converse, lemma_mod_multiples_basic,
};
use vstd::arithmetic::mul::{
    lemma_mul_is_associative, lemma_mul_is_commutative, lemma_mul_is_distributive_add,
    lemma_mul_is_distributive_sub,
};

verus! {

/// The product of a list of extents; the empty product is one.
pub open spec fn product(extents: Seq<usize>) -> nat
    decreases extents.len(),
{
    if extents.len() == 0 {
        1
    } else {
        extents[0] as nat * product(extents.skip(1))
    }
}

/// The row-major stride of dimension `i`: how many elements one step along it skips.
pub open spec fn row_major_stride(shape: Seq<usize>, i: int) -> nat {
    product(shape.skip(i + 1))
}

/// Whether `strides` are the row-major strides of `shape`.
pub open spec fn is_row_major(shape: Seq<usize>, strides: Seq<usize>) -> bool {
    &&& strides.len() == shape.len()
    &&& forall|i: int| 0 <= i < shape.len() ==> #[trigger] strides[i] == row_major_stride(shape, i)
}

/// Whether `shape` has at least one dimension and row-major strides that a `usize` can hold.
pub open spec fn strides_fit(shape: Seq<usize>) -> bool {
    &&& shape.len() > 0
    &&& forall|i: int| 0 <= i < shape.len() ==> #[trigger] row_major_stride(shape, i) <= usize::MAX
}

/// The strides of a tensor of the given shape that is laid out row by row, without padding.
pub fn contiguous_strides(shape: &[usize]) -> (strides: Vec<usize>)
    requires
        strides_fit(shape@),
    ensures
        is_row_major(shape@, strides@),
{
    let rank: usize = shape.len();
    let mut strides: Vec<usize> = vec![1; rank];
    let mut i: usize = rank - 1;
    assert(shape@.skip(rank as int).len() == 0);
    while i > 0
        invariant
            rank == shape.len(),
            strides.len() == rank,
            i < rank,
            strides_fit(shape@),
            forall|j: int| i <= j < rank ==> #[trigger] strides@[j] == row_major_stride(shape@, j),
        decreases i,
    {
        proof {
            assert(shape@.skip(i as int).skip(1) =~= shape@.skip(i + 1));
            assert(row_major_stride(shape@, i - 1) == shape@[i as int] * row_major_stride(shape@, i as int));
            lemma_mul_is_commutative(shape@[i as int] as int, row_major_stride(shape@, i as int) as int);
        }
        strides[i - 1] = strides[i] * shape[i];
        i = i - 1;
    }
    strides
}

/// Whether the row-major strides of `shape` can be computed: it has a dimension, and no stride
/// is too large for a `usize`.
pub fn strides_representable(shape: &[usize]) -> (fit: bool)
    ensures
        fit == strides_fit(shape@),
{
    let rank: usize = shape.len();
    if rank == 0 {
        return false;
    }
    let mut stride: usize = 1;
    let mut i: usize = rank - 1;
    assert(shape@.skip(rank as int).len() == 0);
    while i > 0
        invariant
            rank == shape.len(),
            i < rank,
            stride == row_major_stride(shape@, i as int),
            forall|j: int| i <= j < rank ==> #[trigger] row_major_stride(shape@, j) <= usize::MAX,
        decreases i,
    {
        proof {
            assert(shape@.skip(i as int).skip(1) =~= shape@.skip(i + 1));
            assert(row_major_stride(shape@, i - 1) == shape@[i as int] * row_major_stride(shape@, i as int));
            lemma_mul_is_commutative(shape@[i as int] as int, row_major_stride(shape@, i as int) as int);
        }
        match stride.checked_mul(shape[i]) {
            Some(next) => {
                stride = next;
            },
            None => {
                return false;
            },
        }
        i = i - 1;
    }
    true
}

/// Whether `strides` are the row-major strides of `shape`.
pub fn has_contiguous_strides(shape: &[usize], strides: &[usize]) -> (same: bool)
    requires
        strides_fit(shape@),
    ensures
        same == is_row_major(shape@, strides@),
{
    let expected: Vec<usize> = contiguous_strides(shape);
    if strides.len() != expected.len() {
        return false;
    }
    let mut i: usize = 0;
    while i < expected.len()
        invariant
            i <= expected.len(),
            strides.len() == expected.len(),
            is_row_major(shape@, expected@),
            forall|j: int| 0 <= j < i ==> #[trigger] strides@[j] == expected@[j],
        decreases expected.len() - i,
    {
        if strides[i] != expected[i] {
            assert(strides@[i as int] != row_major_stride(shape@, i as int));
            return false;
        }
        i = i + 1;
    }
    assert forall|j: int| 0 <= j < shape@.len() implies #[trigger] strides@[j] == row_major_stride(
        shape@,
        j,
    ) by {
        assert(expected@[j] == row_major_stride(shape@, j));
    }
    true
}

/// How many bytes a tensor of the given shape takes without padding.
pub open spec fn byte_size(shape: Seq<usize>, elem_size: usize) -> nat {
    product(shape) * elem_size as nat
}

/// Whether the byte size of a tensor can be computed by multiplying its extents from the first to
/// the last, and then by the element size, without leaving the range of `usize`.
pub open spec fn size_fits(shape: Seq<usize>, elem_size: usize) -> bool {
    &&& forall|i: int| 0 <= i <= shape.len() ==> #[trigger] product(shape.take(i)) <= usize::MAX
    &&& byte_size(shape, elem_size) <= usize::MAX
}

/// Appending an extent multiplies the product by it.
pub proof fn lemma_product_push(extents: Seq<usize>, extent: usize)
    ensures
        product(extents.push(extent)) == product(extents) * extent,
    decreases extents.len(),
{
    let longer = extents.push(extent);
    if extents.len() == 0 {
        assert(longer.skip(1) =~= Seq::<usize>::empty());
        assert(product(longer.skip(1)) == 1);
        assert(product(longer) == product(extents) * extent) by (nonlinear_arith)
            requires
                product(longer) == extent * 1,
                product(extents) == 1,
        ;
    } else {
        assert(longer.skip(1) =~= extents.skip(1).push(extent));
        lemma_product_push(extents.skip(1), extent);
        assert(product(longer) == longer[0] * product(longer.skip(1)));
        lemma_mul_is_associative(extents[0] as int, product(extents.skip(1)) as int, extent as int);
    }
}

/// The size of a tensor in bytes.
pub fn tensor_size(shape: &[usize], elem_size: usize) -> (size: usize)
    requires
        size_fits(shape@, elem_size),
    ensures
        size == byte_size(shape@, elem_size),
{
    let mut count: usize = 1;
    let mut i: usize = 0;
    assert(product(shape@.take(0)) == 1);
    while i < shape.len()
        invariant
            i <= shape.len(),
            count == product(shape@.take(i as int)),
            size_fits(shape@, elem_size),
        decreases shape.len() - i,
    {
        proof {
            assert(shape@.take(i + 1) =~= shape@.take(i as int).push(shape@[i as int]));
            lemma_product_push(shape@.take(i as int), shape@[i as int]);
            assert(product(shape@.take(i + 1)) <= usize::MAX);
        }
        count = count * shape[i];
        i = i + 1;
    }
    assert(shape@.take(shape@.len() as int) =~= shape@);
    count * elem_size
}

/// The byte size of a tensor, or nothing where it is too large to compute.
pub fn checked_byte_size(shape: &[usize], elem_size: usize) -> (size: Option<usize>)
    ensures
        match size {
            Some(size) => size_fits(shape@, elem_size) && size == byte_size(shape@, elem_size),
            None => !size_fits(shape@, elem_size),
        },
{
    let mut count: usize = 1;
    let mut i: usize = 0;
    assert(product(shape@.take(0)) == 1);
    while i < shape.len()
        invariant
            i <= shape.len(),
            count == product(shape@.take(i as int)),
            forall|j: int| 0 <= j <= i ==> #[trigger] product(shape@.take(j)) <= usize::MAX,
        decreases shape.len() - i,
    {
        proof {
            assert(shape@.take(i + 1) =~= shape@.take(i as int).push(shape@[i as int]));
            lemma_product_push(shape@.take(i as int), shape@[i as int]);
        }
        match count.checked_mul(shape[i]) {
            Some(next) => {
                count = next;
            },
            None => {
                assert(product(shape@.take(i + 1)) > usize::MAX);
                return None;
            },
        }
        i = i + 1;
    }
    assert(shape@.take(shape@.len() as int) =~= shape@);
    count.checked_mul(elem_size)
}

/// The least multiple of `align` that is not below `size`.
pub open spec fn padded(size: nat, align: nat) -> nat
    recommends
        align > 0,
{
    ((size + align - 1) as nat / align) * align
}

/// What `padded` promises: a multiple of the alignment, at least the size, and the first such.
pub proof fn lemma_padded(size: nat, align: nat)
    requires
        align > 0,
    ensures
        padded(size, align) % align == 0,
        size <= padded(size, align) < size + align,
        padded(size, align) == if size % align == 0 {
            size
        } else {
            (size + align - size % align) as nat
        },
        forall|m: nat| m >= size && #[trigger] (m % align) == 0 ==> m >= padded(size, align),
{
    let above: int = size + align - 1;
    let count: int = above / (align as int);
    lemma_fundamental_div_mod(above, align as int);
    lemma_mul_is_commutative(count, align as int);
    lemma_mod_multiples_basic(count, align as int);
    let rest: int = size as int % (align as int);
    let whole: int = size as int / (align as int);
    lemma_fundamental_div_mod(size as int, align as int);
    if rest == 0 {
        assert(above == align * whole + (align - 1));
        lemma_mul_is_commutative(align as int, whole);
        lemma_fundamental_div_mod_converse(above, align as int, whole, align - 1);
    } else {
        lemma_mul_is_distributive_add(align as int, whole, 1);
        assert(above == align * (whole + 1) + (rest - 1));
        lemma_mul_is_commutative(align as int, whole + 1);
        lemma_fundamental_div_mod_converse(above, align as int, whole + 1, rest - 1);
    }
    assert forall|m: nat| m >= size && #[trigger] (m % align) == 0 implies m >= padded(
        size,
        align,
    ) by {
        let times: int = m as int / (align as int);
        lemma_fundamental_div_mod(m as int, align as int);
        if m < padded(size, align) {
            assert(times < count) by (nonlinear_arith)
                requires
                    align > 0,
                    align * times < align * count,
            ;
            assert(align * times <= align * (count - 1)) by (nonlinear_arith)
                requires
                    align > 0,
                    times <= count - 1,
            ;
            lemma_mul_is_distributive_sub(align as int, count, 1);
        }
    }
}

} // verus!
