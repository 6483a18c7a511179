//! What row-major strides are for: they number the elements of a tensor.
use crate::layout::{
    byte_size, is_row_major, lemma_product_push, product, row_major_stride, size_fits, strides_fit,
};
use vstd::arithmetic::div_mod::{lemma_fundamental_div_mod, lemma_fundamental_div_mod_converse};
use vstd::arithmetic::mul::lemma_mul_is_commutative;
use vstd::prelude::*;

verus! {

/// Whether `index` names an element of a tensor: one coordinate within each extent.
pub open spec fn is_index(shape: Seq<usize>, index: Seq<nat>) -> bool {
    &&& index.len() == shape.len()
    &&& forall|i: int| 0 <= i < shape.len() ==> #[trigger] index[i] < shape[i]
}

/// How many elements the one at `index` lies behind the first, with the given strides.
pub open spec fn element_offset(index: Seq<nat>, strides: Seq<usize>) -> nat
    decreases index.len(),
{
    if index.len() == 0 {
        0
    } else {
        index[0] * strides[0] as nat + element_offset(index.skip(1), strides.skip(1))
    }
}

/// The coordinates of the element that lies `offset` elements behind the first.
pub open spec fn index_at(shape: Seq<usize>, offset: nat) -> Seq<nat>
    decreases shape.len(),
{
    if shape.len() == 0 {
        seq![]
    } else {
        let row = product(shape.skip(1));
        seq![offset / row] + index_at(shape.skip(1), offset % row)
    }
}

/// Row-major strides without the first are those of the shape without its first extent.
proof fn lemma_tail_is_row_major(shape: Seq<usize>, strides: Seq<usize>)
    requires
        shape.len() > 0,
        is_row_major(shape, strides),
    ensures
        is_row_major(shape.skip(1), strides.skip(1)),
        strides[0] == product(shape.skip(1)),
{
    let rest = shape.skip(1);
    assert(strides[0] == row_major_stride(shape, 0));
    assert forall|i: int| 0 <= i < rest.len() implies #[trigger] strides.skip(1)[i]
        == row_major_stride(rest, i) by {
        assert(strides[i + 1] == row_major_stride(shape, i + 1));
        assert(rest.skip(i + 1) =~= shape.skip(i + 2));
    }
}

proof fn lemma_tail_is_index(shape: Seq<usize>, index: Seq<nat>)
    requires
        shape.len() > 0,
        is_index(shape, index),
    ensures
        is_index(shape.skip(1), index.skip(1)),
        index[0] < shape[0],
{
    assert forall|i: int| 0 <= i < shape.skip(1).len() implies #[trigger] index.skip(1)[i]
        < shape.skip(1)[i] by {
        assert(index[i + 1] < shape[i + 1]);
    }
}

/// With row-major strides every element of a tensor lies among as many places as the tensor has
/// elements.
pub proof fn elements_lie_within_size(shape: Seq<usize>, strides: Seq<usize>, index: Seq<nat>)
    requires
        is_row_major(shape, strides),
        is_index(shape, index),
    ensures
        element_offset(index, strides) < product(shape),
    decreases shape.len(),
{
    if shape.len() > 0 {
        lemma_tail_is_row_major(shape, strides);
        lemma_tail_is_index(shape, index);
        elements_lie_within_size(shape.skip(1), strides.skip(1), index.skip(1));
        let row = product(shape.skip(1));
        let rest = element_offset(index.skip(1), strides.skip(1));
        assert(index[0] * row + rest < shape[0] * row) by (nonlinear_arith)
            requires
                index[0] < shape[0],
                rest < row,
        ;
    }
}

/// With row-major strides no two elements of a tensor lie at the same place.
pub proof fn elements_lie_apart(
    shape: Seq<usize>,
    strides: Seq<usize>,
    a: Seq<nat>,
    b: Seq<nat>,
)
    requires
        is_row_major(shape, strides),
        is_index(shape, a),
        is_index(shape, b),
        element_offset(a, strides) == element_offset(b, strides),
    ensures
        a == b,
    decreases shape.len(),
{
    if shape.len() > 0 {
        lemma_tail_is_row_major(shape, strides);
        lemma_tail_is_index(shape, a);
        lemma_tail_is_index(shape, b);
        elements_lie_within_size(shape.skip(1), strides.skip(1), a.skip(1));
        elements_lie_within_size(shape.skip(1), strides.skip(1), b.skip(1));
        let row = product(shape.skip(1)) as int;
        let rest_a = element_offset(a.skip(1), strides.skip(1)) as int;
        let rest_b = element_offset(b.skip(1), strides.skip(1)) as int;
        let offset = element_offset(a, strides) as int;
        lemma_fundamental_div_mod_converse(offset, row, a[0] as int, rest_a);
        lemma_fundamental_div_mod_converse(offset, row, b[0] as int, rest_b);
        elements_lie_apart(shape.skip(1), strides.skip(1), a.skip(1), b.skip(1));
        assert(a =~= seq![a[0]] + a.skip(1));
        assert(b =~= seq![b[0]] + b.skip(1));
    } else {
        assert(a =~= b);
    }
}

/// With row-major strides every place within the size of a tensor holds an element: there are no
/// gaps.
pub proof fn elements_leave_no_gap(shape: Seq<usize>, strides: Seq<usize>, offset: nat)
    requires
        is_row_major(shape, strides),
        offset < product(shape),
    ensures
        is_index(shape, index_at(shape, offset)),
        element_offset(index_at(shape, offset), strides) == offset,
    decreases shape.len(),
{
    if shape.len() > 0 {
        lemma_tail_is_row_major(shape, strides);
        let row = product(shape.skip(1));
        let index = index_at(shape, offset);
        assert(row > 0) by (nonlinear_arith)
            requires
                offset < shape[0] * row,
        ;
        lemma_fundamental_div_mod(offset as int, row as int);
        let first = offset / row;
        let rest = offset % row;
        assert(first < shape[0]) by (nonlinear_arith)
            requires
                offset == row * first + rest,
                offset < shape[0] * row,
                row > 0,
        ;
        elements_leave_no_gap(shape.skip(1), strides.skip(1), rest);
        assert(index.skip(1) =~= index_at(shape.skip(1), rest));
        assert forall|i: int| 0 <= i < shape.len() implies #[trigger] index[i] < shape[i] by {
            if i > 0 {
                assert(index.skip(1)[i - 1] < shape.skip(1)[i - 1]);
            }
        }
        lemma_mul_is_commutative(row as int, first as int);
    }
}

/// One step along a dimension skips as much as all the steps along the next.
proof fn lemma_stride_of_next(shape: Seq<usize>, i: int)
    requires
        0 <= i < shape.len() - 1,
    ensures
        row_major_stride(shape, i) == row_major_stride(shape, i + 1) * shape[i + 1],
{
    let rest = shape.skip(i + 1);
    assert(rest.skip(1) =~= shape.skip(i + 2));
    assert(product(rest) == rest[0] * product(rest.skip(1)));
    lemma_mul_is_commutative(rest[0] as int, product(rest.skip(1)) as int);
}

proof fn lemma_strides_are_exact(shape: Seq<usize>, exact: Seq<nat>, i: int)
    requires
        exact.len() == shape.len(),
        shape.len() > 0 ==> exact[shape.len() - 1] == 1,
        forall|j: int, k: int|
            #![trigger exact[j], shape[k]]
            0 <= j && k == j + 1 && k < shape.len() ==> exact[j] == exact[k] * shape[k],
        0 <= i < shape.len(),
    ensures
        row_major_stride(shape, i) == exact[i],
    decreases shape.len() - i,
{
    if i == shape.len() - 1 {
        assert(shape.skip(i + 1).len() == 0);
    } else {
        lemma_strides_are_exact(shape, exact, i + 1);
        lemma_stride_of_next(shape, i);
        assert(exact[i] == exact[i + 1] * shape[i + 1]);
    }
}

/// Row-major strides count from the last dimension: a step along it is one element, and a step
/// along any other skips one whole run of the next. No other strides are row-major.
pub proof fn strides_count_from_the_last(shape: Seq<usize>, strides: Seq<usize>)
    ensures
        is_row_major(shape, strides) <==> {
            &&& strides.len() == shape.len()
            &&& shape.len() > 0 ==> strides[shape.len() - 1] == 1
            &&& forall|i: int, j: int|
                #![trigger strides[i], shape[j]]
                0 <= i && j == i + 1 && j < shape.len() ==> strides[i] == strides[j] * shape[j]
        },
{
    if is_row_major(shape, strides) {
        if shape.len() > 0 {
            assert(shape.skip(shape.len() as int).len() == 0);
            assert(strides[shape.len() - 1] == row_major_stride(shape, shape.len() - 1));
        }
        assert forall|i: int, j: int|
            #![trigger strides[i], shape[j]]
            0 <= i && j == i + 1 && j < shape.len() implies strides[i] == strides[j]
            * shape[j] by {
            lemma_stride_of_next(shape, i);
            assert(strides[i] == row_major_stride(shape, i));
            assert(strides[j] == row_major_stride(shape, j));
        }
    } else if strides.len() == shape.len() && (shape.len() > 0 ==> strides[shape.len() - 1] == 1)
        && (forall|i: int, j: int|
        #![trigger strides[i], shape[j]]
        0 <= i && j == i + 1 && j < shape.len() ==> strides[i] == strides[j] * shape[j]) {
        let exact = Seq::new(strides.len(), |i: int| strides[i] as nat);
        assert forall|j: int, k: int|
            #![trigger exact[j], shape[k]]
            0 <= j && k == j + 1 && k < shape.len() implies exact[j] == exact[k] * shape[k] by {
            assert(strides[j] == strides[k] * shape[k]);
        }
        assert forall|i: int| 0 <= i < shape.len() implies #[trigger] strides[i]
            == row_major_stride(shape, i) by {
            lemma_strides_are_exact(shape, exact, i);
        }
    }
}

/// Strides can be computed exactly where the shape has a dimension and each of the numbers that
/// count from the last dimension fits into a `usize`; the row-major strides are those numbers.
pub proof fn strides_are_computed_where_they_fit(
    shape: Seq<usize>,
    exact: Seq<nat>,
    strides: Seq<usize>,
)
    requires
        exact.len() == shape.len(),
        shape.len() > 0 ==> exact[shape.len() - 1] == 1,
        forall|j: int, k: int|
            #![trigger exact[j], shape[k]]
            0 <= j && k == j + 1 && k < shape.len() ==> exact[j] == exact[k] * shape[k],
    ensures
        strides_fit(shape) <==> shape.len() > 0 && forall|i: int|
            0 <= i < shape.len() ==> #[trigger] exact[i] <= usize::MAX,
        is_row_major(shape, strides) <==> strides.len() == shape.len() && forall|i: int|
            0 <= i < shape.len() ==> #[trigger] strides[i] == exact[i],
{
    assert forall|i: int| 0 <= i < shape.len() implies row_major_stride(shape, i) == exact[i] by {
        lemma_strides_are_exact(shape, exact, i);
    }
    if strides_fit(shape) {
        assert forall|i: int| 0 <= i < shape.len() implies #[trigger] exact[i] <= usize::MAX by {
            assert(row_major_stride(shape, i) <= usize::MAX);
        }
    }
}

/// The size of a tensor is the element size times all the extents, however many there are. It can
/// be computed exactly where the extents can be multiplied one after the other, and then by the
/// element size, within a `usize`.
pub proof fn sizes_multiply_all_extents(shape: Seq<usize>, elem_size: usize, counts: Seq<nat>)
    requires
        counts.len() == shape.len() + 1,
        counts[0] == 1,
        forall|i: int, j: int|
            #![trigger counts[j], shape[i]]
            0 <= i < shape.len() && j == i + 1 ==> counts[j] == counts[i] * shape[i],
    ensures
        product(shape) == counts[shape.len() as int],
        byte_size(shape, elem_size) == counts[shape.len() as int] * elem_size,
        size_fits(shape, elem_size) <==> {
            &&& forall|i: int| 0 <= i <= shape.len() ==> #[trigger] counts[i] <= usize::MAX
            &&& counts[shape.len() as int] * elem_size <= usize::MAX
        },
{
    assert forall|i: int|
        #![trigger product(shape.take(i))]
        #![trigger counts[i]]
        0 <= i <= shape.len() implies product(shape.take(i)) == counts[i] by {
        lemma_counts_are_products(shape, counts, i);
    }
    assert(shape.take(shape.len() as int) =~= shape);
}

proof fn lemma_counts_are_products(shape: Seq<usize>, counts: Seq<nat>, i: int)
    requires
        counts.len() == shape.len() + 1,
        counts[0] == 1,
        forall|i: int, j: int|
            #![trigger counts[j], shape[i]]
            0 <= i < shape.len() && j == i + 1 ==> counts[j] == counts[i] * shape[i],
        0 <= i <= shape.len(),
    ensures
        product(shape.take(i)) == counts[i],
    decreases i,
{
    if i == 0 {
        assert(shape.take(0).len() == 0);
    } else {
        lemma_counts_are_products(shape, counts, i - 1);
        assert(shape.take(i) =~= shape.take(i - 1).push(shape[i - 1]));
        lemma_product_push(shape.take(i - 1), shape[i - 1]);
        assert(counts[i] == counts[i - 1] * shape[i - 1]);
    }
}

/// Every element of a tensor, with all its bytes, lies within the tensor's size.
pub proof fn size_holds_every_element(
    shape: Seq<usize>,
    strides: Seq<usize>,
    elem_size: usize,
    index: Seq<nat>,
)
    requires
        is_row_major(shape, strides),
        is_index(shape, index),
    ensures
        (element_offset(index, strides) + 1) * elem_size <= byte_size(shape, elem_size),
{
    elements_lie_within_size(shape, strides, index);
    let offset = element_offset(index, strides);
    let count = product(shape);
    assert((offset + 1) * elem_size <= count * elem_size) by (nonlinear_arith)
        requires
            offset + 1 <= count,
    ;
}

/// The element with the greatest coordinates ends exactly where the tensor's size ends.
pub proof fn last_element_ends_the_size(
    shape: Seq<usize>,
    strides: Seq<usize>,
    elem_size: usize,
    last: Seq<nat>,
)
    requires
        is_row_major(shape, strides),
        last.len() == shape.len(),
        forall|i: int| 0 <= i < shape.len() ==> #[trigger] last[i] + 1 == shape[i],
    ensures
        (element_offset(last, strides) + 1) * elem_size == byte_size(shape, elem_size),
{
    lemma_last_offset(shape, strides, last);
}

proof fn lemma_last_offset(shape: Seq<usize>, strides: Seq<usize>, last: Seq<nat>)
    requires
        is_row_major(shape, strides),
        last.len() == shape.len(),
        forall|i: int| 0 <= i < shape.len() ==> #[trigger] last[i] + 1 == shape[i],
    ensures
        element_offset(last, strides) + 1 == product(shape),
    decreases shape.len(),
{
    if shape.len() > 0 {
        lemma_tail_is_row_major(shape, strides);
        assert forall|i: int| 0 <= i < shape.skip(1).len() implies #[trigger] last.skip(1)[i] + 1
            == shape.skip(1)[i] by {
            assert(last[i + 1] + 1 == shape[i + 1]);
        }
        lemma_last_offset(shape.skip(1), strides.skip(1), last.skip(1));
        let row = product(shape.skip(1));
        assert(last[0] + 1 == shape[0]);
        assert(last[0] * row + row == shape[0] * row) by (nonlinear_arith)
            requires
                last[0] + 1 == shape[0],
        ;
    }
}

} // verus!
