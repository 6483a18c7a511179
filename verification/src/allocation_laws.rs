//! What holds of the parts that a block of memory is divided into.
use crate::allocation::{
    layout_fits, offset_of, part, part_offsets, parts_fit, sizes_of, AllocationDescriptor,
    PendingAllocation,
};
use crate::layout::{is_row_major, lemma_padded, padded, size_fits, strides_fit};
use crate::layout_laws::{
    element_offset, is_index, last_element_ends_the_size, size_holds_every_element,
    sizes_multiply_all_extents,
};
use crate::memory::Handle;
use vstd::arithmetic::div_mod::{
    lemma_add_mod_noop, lemma_fundamental_div_mod, lemma_small_mod,
};
use vstd::prelude::*;

verus! {

/// Parts follow each other: each ends, padding included, where the next begins or before.
proof fn lemma_offsets_in_order(sizes: Seq<usize>, align: nat, j: int, k: int)
    requires
        align > 0,
        0 <= j < k <= sizes.len(),
    ensures
        offset_of(sizes, align, j) + sizes[j] <= offset_of(sizes, align, k),
    decreases k - j,
{
    if j < k - 1 {
        lemma_offsets_in_order(sizes, align, j, k - 1);
    } else {
        lemma_padded(sizes[j] as nat, align);
    }
}

/// A block of the size that was wanted holds all the tensors that it was wanted for.
pub proof fn wanted_block_suffices(descriptors: Seq<AllocationDescriptor>, align: nat)
    requires
        layout_fits(descriptors, align),
    ensures
        parts_fit(
            sizes_of(descriptors),
            align,
            offset_of(sizes_of(descriptors), align, descriptors.len() as int) as int,
        ),
{
    let sizes = sizes_of(descriptors);
    assert forall|k: int| 0 <= k < sizes.len() implies #[trigger] offset_of(sizes, align, k)
        + sizes[k] <= offset_of(sizes, align, sizes.len() as int) by {
        lemma_offsets_in_order(sizes, align, k, sizes.len() as int);
    }
}

/// Every part lies in the divided region, in the same block and on the same stream, and has the
/// size that was asked for, without the padding.
pub proof fn part_has_its_size(base: Handle, sizes: Seq<usize>, align: nat, k: int)
    requires
        base.wf(),
        parts_fit(sizes, align, base.spec_size()),
        0 <= k < sizes.len(),
    ensures
        ({
            let p = part(base, sizes, align, k);
            &&& p.wf()
            &&& p.spec_size() == sizes[k]
            &&& base.start() <= p.start()
            &&& p.end() <= base.end()
            &&& p.start() == base.start() + offset_of(sizes, align, k)
            &&& p.memory == base.memory && p.size == base.size
            &&& p.stream == base.stream && p.cursor == base.cursor
        }),
{
    assert(offset_of(sizes, align, k) + sizes[k] <= base.spec_size());
}

/// No two parts share a byte: each ends before the later ones begin.
pub proof fn parts_do_not_overlap(base: Handle, sizes: Seq<usize>, align: nat, j: int, k: int)
    requires
        base.wf(),
        parts_fit(sizes, align, base.spec_size()),
        0 <= j < k < sizes.len(),
    ensures
        part(base, sizes, align, j).end() <= part(base, sizes, align, k).start(),
{
    part_has_its_size(base, sizes, align, j);
    part_has_its_size(base, sizes, align, k);
    lemma_offsets_in_order(sizes, align, j, k);
}

/// Between two neighbouring parts less than one alignment is left free.
pub proof fn padding_is_minimal(base: Handle, sizes: Seq<usize>, align: nat, k: int)
    requires
        base.wf(),
        parts_fit(sizes, align, base.spec_size()),
        0 <= k < sizes.len() - 1,
    ensures
        part(base, sizes, align, k + 1).start() < part(base, sizes, align, k).end() + align,
{
    part_has_its_size(base, sizes, align, k);
    part_has_its_size(base, sizes, align, k + 1);
    lemma_padded(sizes[k] as nat, align);
}

/// Every offset is a multiple of the alignment.
proof fn lemma_offset_aligned(sizes: Seq<usize>, align: nat, k: int)
    requires
        align > 0,
    ensures
        offset_of(sizes, align, k) % align == 0,
    decreases k,
{
    lemma_small_mod(0, align);
    if k > 0 {
        lemma_offset_aligned(sizes, align, k - 1);
        lemma_padded(sizes[k - 1] as nat, align);
        lemma_add_mod_noop(
            offset_of(sizes, align, k - 1) as int,
            padded(sizes[k - 1] as nat, align) as int,
            align as int,
        );
    }
}

/// Where the divided region begins at a multiple of the alignment, as a whole block does, so does
/// every part.
pub proof fn parts_are_aligned(base: Handle, sizes: Seq<usize>, align: nat, k: int)
    requires
        base.wf(),
        parts_fit(sizes, align, base.spec_size()),
        0 <= k < sizes.len(),
        base.start() % align == 0,
    ensures
        part(base, sizes, align, k).start() % align == 0,
{
    lemma_small_mod(0, align);
    part_has_its_size(base, sizes, align, k);
    lemma_offset_aligned(sizes, align, k);
    lemma_add_mod_noop(
        base.start() as int,
        offset_of(sizes, align, k) as int,
        align as int,
    );
}

/// Two multiples of the alignment that are less than one alignment above the same number are the
/// same.
proof fn lemma_same_multiple(low: nat, align: nat, a: nat, b: nat)
    requires
        align > 0,
        a % align == 0,
        b % align == 0,
        low <= a < low + align,
        low <= b < low + align,
    ensures
        a == b,
{
    lemma_fundamental_div_mod(a as int, align as int);
    lemma_fundamental_div_mod(b as int, align as int);
    let i = a as int / align as int;
    let j = b as int / align as int;
    assert(i == j) by (nonlinear_arith)
        requires
            align > 0,
            -(align as int) < align * i - align * j < align,
    ;
}

/// The parts lie one behind the other: the first at the beginning, and each other one at the first
/// multiple of the alignment that is not within the one before. What follows the last part, up to
/// the next such multiple, is padding that belongs to the whole.
pub proof fn parts_lie_one_behind_the_other(
    sizes: Seq<usize>,
    align: nat,
    starts: Seq<nat>,
    k: int,
)
    requires
        align > 0,
        starts.len() == sizes.len() + 1,
        starts[0] == 0,
        forall|j: int| 0 <= j < starts.len() ==> (#[trigger] starts[j]) % align == 0,
        forall|i: int, j: int|
            #![trigger sizes[i], starts[j]]
            0 <= i < sizes.len() && j == i + 1 ==> starts[i] + sizes[i] <= starts[j] && starts[j]
                < starts[i] + sizes[i] + align,
        0 <= k <= sizes.len(),
    ensures
        offset_of(sizes, align, k) == starts[k],
    decreases k,
{
    if k > 0 {
        parts_lie_one_behind_the_other(sizes, align, starts, k - 1);
        lemma_padded(sizes[k - 1] as nat, align);
        lemma_offset_aligned(sizes, align, k);
        assert(starts[k] % align == 0 && starts[k - 1] + sizes[k - 1] <= starts[k] < starts[k - 1]
            + sizes[k - 1] + align);
        lemma_same_multiple(
            (starts[k - 1] + sizes[k - 1]) as nat,
            align,
            starts[k],
            offset_of(sizes, align, k),
        );
    }
}

/// Parts fit into a region exactly where each ends within it, and the region and all the parts
/// with their padding can be counted in a `usize`.
pub proof fn parts_fit_where_each_ends_inside(
    sizes: Seq<usize>,
    align: nat,
    starts: Seq<nat>,
    available: int,
)
    requires
        align > 0,
        starts.len() == sizes.len() + 1,
        starts[0] == 0,
        forall|j: int| 0 <= j < starts.len() ==> (#[trigger] starts[j]) % align == 0,
        forall|i: int, j: int|
            #![trigger sizes[i], starts[j]]
            0 <= i < sizes.len() && j == i + 1 ==> starts[i] + sizes[i] <= starts[j] && starts[j]
                < starts[i] + sizes[i] + align,
    ensures
        parts_fit(sizes, align, available) <==> sizes.len() == 0 || {
            &&& available <= usize::MAX
            &&& starts[sizes.len() as int] <= usize::MAX
            &&& forall|i: int| 0 <= i < sizes.len() ==> starts[i] + #[trigger] sizes[i] <= available
        },
{
    assert forall|k: int|
        #![trigger offset_of(sizes, align, k)]
        #![trigger sizes[k]]
        0 <= k <= sizes.len() implies offset_of(sizes, align, k) == starts[k] by {
        parts_lie_one_behind_the_other(sizes, align, starts, k);
    }
}

/// Without an alignment nothing can be laid out but nothing.
pub proof fn no_parts_without_alignment(
    sizes: Seq<usize>,
    available: int,
    descriptors: Seq<AllocationDescriptor>,
)
    ensures
        parts_fit(sizes, 0, available) <==> sizes.len() == 0,
        layout_fits(descriptors, 0) <==> descriptors.len() == 0,
{
    if descriptors.len() == 0 {
        assert(layout_fits(descriptors, 0));
    }
}

/// A waiting allocation takes a handle exactly where the handle lies within its block and has room
/// for all the parts.
pub proof fn handle_is_taken_where_parts_fit(
    pending: PendingAllocation,
    base: Handle,
    before: nat,
    behind: nat,
)
    requires
        match base.offset_start {
            Some(offset) => before == offset,
            None => before == 0,
        },
        match base.offset_end {
            Some(offset) => behind == offset,
            None => behind == 0,
        },
    ensures
        pending.fits(base) <==> before + behind <= base.size && parts_fit(
            pending.sizes@,
            pending.align as nat,
            base.size - before - behind,
        ),
        pending.wf() <==> pending.strides@.len() == pending.sizes@.len(),
{
}

/// A part begins where it must behind the beginning of the region, has its size, and leaves the
/// rest of the block behind it. It stays in the block, on the stream and at the position of the
/// region.
pub proof fn part_is_where_it_must_be(
    base: Handle,
    before: nat,
    behind: nat,
    sizes: Seq<usize>,
    align: nat,
    starts: Seq<nat>,
    k: int,
)
    requires
        align > 0,
        starts.len() == sizes.len() + 1,
        starts[0] == 0,
        forall|j: int| 0 <= j < starts.len() ==> (#[trigger] starts[j]) % align == 0,
        forall|i: int, j: int|
            #![trigger sizes[i], starts[j]]
            0 <= i < sizes.len() && j == i + 1 ==> starts[i] + sizes[i] <= starts[j] && starts[j]
                < starts[i] + sizes[i] + align,
        match base.offset_start {
            Some(offset) => before == offset,
            None => before == 0,
        },
        match base.offset_end {
            Some(offset) => behind == offset,
            None => behind == 0,
        },
        before + behind <= base.size,
        parts_fit(sizes, align, base.size - before - behind),
        0 <= k < sizes.len(),
    ensures
        ({
            let p = part(base, sizes, align, k);
            &&& p.offset_start matches Some(start)
            &&& p.offset_end matches Some(end)
            &&& start == before + starts[k]
            &&& start + sizes[k] + end == base.size
            &&& p.memory == base.memory
            &&& p.stream == base.stream
            &&& p.cursor == base.cursor
            &&& p.size == base.size
            &&& part_offsets(base.offset_start, base.offset_end, base.size, sizes, align, k) == (
                p.offset_start,
                p.offset_end,
            )
        }),
{
    parts_lie_one_behind_the_other(sizes, align, starts, k);
    assert(offset_of(sizes, align, k) + sizes[k] <= base.size - before - behind);
}

/// The size that is asked for each tensor is its element size times all its extents.
pub proof fn wanted_sizes_multiply_all_extents(
    descriptors: Seq<AllocationDescriptor>,
    align: nat,
    counts: Seq<nat>,
    k: int,
)
    requires
        layout_fits(descriptors, align),
        0 <= k < descriptors.len(),
        counts.len() == descriptors[k].shape@.len() + 1,
        counts[0] == 1,
        forall|i: int, j: int|
            #![trigger counts[j], descriptors[k].shape@[i]]
            0 <= i < descriptors[k].shape@.len() && j == i + 1 ==> counts[j] == counts[i]
                * descriptors[k].shape@[i],
    ensures
        sizes_of(descriptors).len() == descriptors.len(),
        sizes_of(descriptors)[k] == counts[descriptors[k].shape@.len() as int]
            * descriptors[k].elem_size,
        descriptors[k].size() == counts[descriptors[k].shape@.len() as int]
            * descriptors[k].elem_size,
{
    let d = descriptors[k];
    sizes_multiply_all_extents(d.shape@, d.elem_size, counts);
    assert(strides_fit(d.shape@) && size_fits(d.shape@, d.elem_size));
}

/// The size that is asked for a tensor holds every element of it, with the strides that it gets.
pub proof fn wanted_size_holds_every_element(
    descriptors: Seq<AllocationDescriptor>,
    align: nat,
    k: int,
    strides: Seq<usize>,
    index: Seq<nat>,
)
    requires
        layout_fits(descriptors, align),
        0 <= k < descriptors.len(),
        is_row_major(descriptors[k].shape@, strides),
        is_index(descriptors[k].shape@, index),
    ensures
        (element_offset(index, strides) + 1) * descriptors[k].elem_size <= sizes_of(descriptors)[k],
{
    let d = descriptors[k];
    size_holds_every_element(d.shape@, strides, d.elem_size, index);
    assert(strides_fit(d.shape@) && size_fits(d.shape@, d.elem_size));
}

/// The size that is asked for a tensor is no larger than that: its last element ends it.
pub proof fn last_element_ends_the_wanted_size(
    descriptors: Seq<AllocationDescriptor>,
    align: nat,
    k: int,
    strides: Seq<usize>,
    last: Seq<nat>,
)
    requires
        layout_fits(descriptors, align),
        0 <= k < descriptors.len(),
        is_row_major(descriptors[k].shape@, strides),
        last.len() == descriptors[k].shape@.len(),
        forall|i: int|
            0 <= i < last.len() ==> #[trigger] last[i] + 1 == descriptors[k].shape@[i],
    ensures
        (element_offset(last, strides) + 1) * descriptors[k].elem_size == sizes_of(descriptors)[k],
{
    let d = descriptors[k];
    last_element_ends_the_size(d.shape@, strides, d.elem_size, last);
    assert(strides_fit(d.shape@) && size_fits(d.shape@, d.elem_size));
}

/// Tensors can be laid out exactly where the strides and the size of each can be computed and the
/// padded whole can be counted in a `usize`.
pub proof fn layout_fits_where_everything_is_computed(
    descriptors: Seq<AllocationDescriptor>,
    align: nat,
    sizes: Seq<usize>,
    starts: Seq<nat>,
)
    requires
        align > 0,
        starts.len() == sizes.len() + 1,
        starts[0] == 0,
        forall|j: int| 0 <= j < starts.len() ==> (#[trigger] starts[j]) % align == 0,
        forall|i: int, j: int|
            #![trigger sizes[i], starts[j]]
            0 <= i < sizes.len() && j == i + 1 ==> starts[i] + sizes[i] <= starts[j] && starts[j]
                < starts[i] + sizes[i] + align,
        sizes.len() == descriptors.len(),
        forall|k: int|
            0 <= k < descriptors.len() && size_fits(
                (#[trigger] descriptors[k]).shape@,
                descriptors[k].elem_size,
            ) ==> sizes[k] == descriptors[k].size(),
    ensures
        layout_fits(descriptors, align) <==> {
            &&& forall|k: int|
                0 <= k < descriptors.len() ==> {
                    &&& strides_fit((#[trigger] descriptors[k]).shape@)
                    &&& size_fits(descriptors[k].shape@, descriptors[k].elem_size)
                }
            &&& starts[descriptors.len() as int] <= usize::MAX
        },
{
    if forall|k: int|
        0 <= k < descriptors.len() ==> {
            &&& strides_fit((#[trigger] descriptors[k]).shape@)
            &&& size_fits(descriptors[k].shape@, descriptors[k].elem_size)
        } {
        assert(sizes =~= sizes_of(descriptors)) by {
            assert forall|k: int| 0 <= k < sizes.len() implies sizes[k] == sizes_of(
                descriptors,
            )[k] by {
                assert(size_fits(descriptors[k].shape@, descriptors[k].elem_size));
            }
        }
        parts_lie_one_behind_the_other(sizes, align, starts, sizes.len() as int);
    }
}

} // verus!
