//! What comes of laying out and creating tensors, told from what goes in.
use crate::allocation::{
    layout_fits, part, Allocation, AllocationDescriptor, PendingAllocation,
};
use crate::allocation_laws::{
    layout_fits_where_everything_is_computed, no_parts_without_alignment, part_is_where_it_must_be,
    parts_fit_where_each_ends_inside, parts_lie_one_behind_the_other,
    wanted_sizes_multiply_all_extents,
};
use crate::layout::{
    checked_byte_size, contiguous_strides, has_contiguous_strides, is_row_major, size_fits,
    strides_fit, strides_representable, tensor_size,
};
use crate::layout_laws::{
    sizes_multiply_all_extents, strides_are_computed_where_they_fit, strides_count_from_the_last,
};
use crate::memory::{handle_leaves_out_its_offsets, Handle, IoError, StreamId};
use crate::server::WgpuServer;
use vstd::prelude::*;

verus! {

/// The strides that are computed for a shape count from its last dimension: a step along it is one
/// element, and a step along any other skips one whole run of the next.
pub proof fn computed_strides_count_from_the_last(shape: &[usize], strides: Vec<usize>)
    requires
        call_ensures(contiguous_strides, (shape,), strides),
    ensures
        strides@.len() == shape@.len(),
        shape@.len() > 0 ==> strides@[shape@.len() - 1] == 1,
        forall|i: int, j: int|
            #![trigger strides@[i], shape@[j]]
            0 <= i && j == i + 1 && j < shape@.len() ==> strides@[i] == strides@[j] * shape@[j],
{
    strides_count_from_the_last(shape@, strides@);
}

/// Strides are the contiguous ones exactly where they count from the last dimension.
pub proof fn contiguous_strides_are_recognised(shape: &[usize], strides: &[usize], same: bool)
    requires
        call_ensures(has_contiguous_strides, (shape, strides), same),
    ensures
        same <==> {
            &&& strides@.len() == shape@.len()
            &&& shape@.len() > 0 ==> strides@[shape@.len() - 1] == 1
            &&& forall|i: int, j: int|
                #![trigger strides@[i], shape@[j]]
                0 <= i && j == i + 1 && j < shape@.len() ==> strides@[i] == strides@[j] * shape@[j]
        },
{
    strides_count_from_the_last(shape@, strides@);
}

/// Strides are told to be representable exactly where the shape has a dimension and each of the
/// numbers that count from the last dimension fits into a `usize`.
pub proof fn representable_strides_fit(shape: &[usize], exact: Seq<nat>, fit: bool)
    requires
        exact.len() == shape@.len(),
        shape@.len() > 0 ==> exact[shape@.len() - 1] == 1,
        forall|j: int, k: int|
            #![trigger exact[j], shape@[k]]
            0 <= j && k == j + 1 && k < shape@.len() ==> exact[j] == exact[k] * shape@[k],
        call_ensures(strides_representable, (shape,), fit),
    ensures
        fit <==> shape@.len() > 0 && forall|i: int|
            0 <= i < shape@.len() ==> #[trigger] exact[i] <= usize::MAX,
{
    strides_are_computed_where_they_fit(shape@, exact, seq![]);
}

/// The size that is computed for a tensor is its element size times all its extents; it is told to
/// be too large exactly where it leaves the range of a `usize` on the way.
pub proof fn computed_size_multiplies_all_extents(
    shape: &[usize],
    elem_size: usize,
    counts: Seq<nat>,
    size: usize,
    checked: Option<usize>,
)
    requires
        counts.len() == shape@.len() + 1,
        counts[0] == 1,
        forall|i: int, j: int|
            #![trigger counts[j], shape@[i]]
            0 <= i < shape@.len() && j == i + 1 ==> counts[j] == counts[i] * shape@[i],
        call_ensures(tensor_size, (shape, elem_size), size),
        call_ensures(checked_byte_size, (shape, elem_size), checked),
    ensures
        size == counts[shape@.len() as int] * elem_size,
        checked matches Some(size) ==> size == counts[shape@.len() as int] * elem_size,
        checked is Some <==> {
            &&& forall|i: int| 0 <= i <= shape@.len() ==> #[trigger] counts[i] <= usize::MAX
            &&& counts[shape@.len() as int] * elem_size <= usize::MAX
        },
{
    sizes_multiply_all_extents(shape@, elem_size, counts);
}

/// The size of a handle is what its block has left between its offsets, where they do not exceed
/// the block.
pub proof fn handle_size_is_what_is_left(
    handle: Handle,
    before: nat,
    behind: nat,
    size: Option<u64>,
)
    requires
        match handle.offset_start {
            Some(offset) => before == offset,
            None => before == 0,
        },
        match handle.offset_end {
            Some(offset) => behind == offset,
            None => behind == 0,
        },
        call_ensures(Handle::checked_size, (&handle,), size),
    ensures
        size is Some <==> before + behind <= handle.size,
        size matches Some(size) ==> before + size + behind == handle.size,
{
    handle_leaves_out_its_offsets(handle, before, behind);
}

/// Created tensors want one block on the stream that asks: big enough for all of them one behind
/// the other, each padded to the alignment. Each tensor's size is its element size times all its
/// extents, and its strides count from its last dimension.
pub proof fn creation_wants_room_for_every_tensor(
    server: WgpuServer,
    descriptors: &[AllocationDescriptor],
    stream: StreamId,
    align: u32,
    pending: PendingAllocation,
    sizes: Seq<usize>,
    starts: Seq<nat>,
    k: int,
    counts: Seq<nat>,
)
    requires
        call_ensures(WgpuServer::create, (&server, descriptors, stream, align), pending),
        layout_fits(descriptors@, align as nat),
        sizes == pending.sizes@,
        align > 0,
        starts.len() == sizes.len() + 1,
        starts[0] == 0,
        forall|j: int| 0 <= j < starts.len() ==> (#[trigger] starts[j]) % (align as nat) == 0,
        forall|i: int, j: int|
            #![trigger sizes[i], starts[j]]
            0 <= i < sizes.len() && j == i + 1 ==> starts[i] + sizes[i] <= starts[j] && starts[j]
                < starts[i] + sizes[i] + align,
        0 <= k < descriptors@.len(),
        counts.len() == descriptors@[k].shape@.len() + 1,
        counts[0] == 1,
        forall|i: int, j: int|
            #![trigger counts[j], descriptors@[k].shape@[i]]
            0 <= i < descriptors@[k].shape@.len() && j == i + 1 ==> counts[j] == counts[i]
                * descriptors@[k].shape@[i],
    ensures
        pending.stream == stream,
        pending.align == align,
        pending.sizes@.len() == descriptors@.len(),
        pending.strides@.len() == descriptors@.len(),
        pending.size == starts[descriptors@.len() as int],
        pending.sizes@[k] == counts[descriptors@[k].shape@.len() as int]
            * descriptors@[k].elem_size,
        pending.strides@[k]@.len() == descriptors@[k].shape@.len(),
        pending.strides@[k]@[descriptors@[k].shape@.len() - 1] == 1,
        forall|i: int, j: int|
            #![trigger pending.strides@[k]@[i], descriptors@[k].shape@[j]]
            0 <= i && j == i + 1 && j < descriptors@[k].shape@.len() ==> pending.strides@[k]@[i]
                == pending.strides@[k]@[j] * descriptors@[k].shape@[j],
{
    parts_lie_one_behind_the_other(sizes, align as nat, starts, sizes.len() as int);
    wanted_sizes_multiply_all_extents(
        descriptors@,
        align as nat,
        counts,
        k,
    );
    assert(is_row_major(descriptors@[k].shape@, pending.strides@[k]@));
    assert(strides_fit(descriptors@[k].shape@));
    strides_count_from_the_last(descriptors@[k].shape@, pending.strides@[k]@);
}

/// A block is told to suffice exactly where it lies within its offsets and each tensor ends within
/// it, counted in a `usize`.
pub proof fn block_suffices_where_each_tensor_ends_inside(
    pending: PendingAllocation,
    base: Handle,
    before: nat,
    behind: nat,
    sizes: Seq<usize>,
    align: usize,
    starts: Seq<nat>,
    fit: bool,
)
    requires
        match base.offset_start {
            Some(offset) => before == offset,
            None => before == 0,
        },
        match base.offset_end {
            Some(offset) => behind == offset,
            None => behind == 0,
        },
        sizes == pending.sizes@,
        align == pending.align,
        align > 0,
        starts.len() == sizes.len() + 1,
        starts[0] == 0,
        forall|j: int| 0 <= j < starts.len() ==> (#[trigger] starts[j]) % (align as nat) == 0,
        forall|i: int, j: int|
            #![trigger sizes[i], starts[j]]
            0 <= i < sizes.len() && j == i + 1 ==> starts[i] + sizes[i] <= starts[j] && starts[j]
                < starts[i] + sizes[i] + align,
        call_ensures(PendingAllocation::fits_into, (&pending, &base), fit),
    ensures
        fit <==> before + behind <= base.size && (sizes.len() == 0 || {
            &&& base.size - before - behind <= usize::MAX
            &&& starts[sizes.len() as int] <= usize::MAX
            &&& forall|i: int|
                0 <= i < sizes.len() ==> before + starts[i] + (#[trigger] sizes[i]) + behind
                    <= base.size
        }),
{
    handle_leaves_out_its_offsets(base, before, behind);
    parts_fit_where_each_ends_inside(sizes, align as nat, starts, base.size - before - behind);
    let fits = base.size - before - behind <= usize::MAX && starts[sizes.len() as int]
        <= usize::MAX && forall|i: int|
        0 <= i < sizes.len() ==> before + starts[i] + (#[trigger] sizes[i]) + behind <= base.size;
    if fits {
        assert forall|i: int| 0 <= i < sizes.len() implies starts[i] + (#[trigger] sizes[i])
            <= base.size - before - behind by {
            assert(before + starts[i] + sizes[i] + behind <= base.size);
        }
    }
}

/// Each tensor gets its own part of the reserved block: it begins where it must behind the
/// beginning of the block, has its size, and leaves the rest of the block behind it; its strides
/// are those that were computed for it. Where no block was reserved, the reason is handed on.
pub proof fn every_tensor_gets_its_part(
    pending: PendingAllocation,
    base: Handle,
    before: nat,
    behind: nat,
    sizes: Seq<usize>,
    align: usize,
    starts: Seq<nat>,
    result: Result<Vec<Allocation>, IoError>,
    k: int,
)
    requires
        match base.offset_start {
            Some(offset) => before == offset,
            None => before == 0,
        },
        match base.offset_end {
            Some(offset) => behind == offset,
            None => behind == 0,
        },
        sizes == pending.sizes@,
        align == pending.align,
        align > 0,
        starts.len() == sizes.len() + 1,
        starts[0] == 0,
        forall|j: int| 0 <= j < starts.len() ==> (#[trigger] starts[j]) % (align as nat) == 0,
        forall|i: int, j: int|
            #![trigger sizes[i], starts[j]]
            0 <= i < sizes.len() && j == i + 1 ==> starts[i] + sizes[i] <= starts[j] && starts[j]
                < starts[i] + sizes[i] + align,
        pending.fits(base),
        call_ensures(PendingAllocation::reserved, (pending, Ok(base)), result),
        0 <= k < sizes.len(),
    ensures
        result matches Ok(allocations) && {
            &&& allocations@.len() == sizes.len()
            &&& allocations@[k].handle.offset_start matches Some(start)
            &&& allocations@[k].handle.offset_end matches Some(end)
            &&& start == before + starts[k]
            &&& start + sizes[k] + end == base.size
            &&& allocations@[k].handle.memory == base.memory
            &&& allocations@[k].handle.stream == base.stream
            &&& allocations@[k].handle.cursor == base.cursor
            &&& allocations@[k].handle.size == base.size
            &&& allocations@[k].strides@ == pending.strides@[k]@
        },
{
    handle_leaves_out_its_offsets(base, before, behind);
    part_is_where_it_must_be(base, before, behind, sizes, align as nat, starts, k);
    let allocations = result->Ok_0;
    assert(allocations@[k].handle == part(base, sizes, align as nat, k));
}

/// Where no block was reserved, the creation fails with the reason.
pub proof fn failed_reservation_is_handed_on(
    pending: PendingAllocation,
    error: IoError,
    result: Result<Vec<Allocation>, IoError>,
)
    requires
        call_ensures(PendingAllocation::reserved, (pending, Err(error)), result),
    ensures
        result == Err::<Vec<Allocation>, IoError>(error),
{
}

/// It is told that tensors can be laid out only where there is an alignment or no tensor.
pub proof fn nothing_needs_no_alignment(descriptors: &[AllocationDescriptor], fit: bool)
    requires
        call_ensures(WgpuServer::can_create, (descriptors, 0), fit),
    ensures
        fit <==> descriptors@.len() == 0,
{
    no_parts_without_alignment(seq![], 0, descriptors@);
}

/// It is told that tensors can be laid out exactly where the strides and the size of each can be
/// computed, and the padded whole can be counted in a `usize`.
pub proof fn layout_is_told_to_fit_where_it_does(
    descriptors: &[AllocationDescriptor],
    align: u32,
    sizes: Seq<usize>,
    starts: Seq<nat>,
    fit: bool,
)
    requires
        align > 0,
        starts.len() == sizes.len() + 1,
        starts[0] == 0,
        forall|j: int| 0 <= j < starts.len() ==> (#[trigger] starts[j]) % (align as nat) == 0,
        forall|i: int, j: int|
            #![trigger sizes[i], starts[j]]
            0 <= i < sizes.len() && j == i + 1 ==> starts[i] + sizes[i] <= starts[j] && starts[j]
                < starts[i] + sizes[i] + align,
        sizes.len() == descriptors@.len(),
        forall|k: int|
            0 <= k < descriptors@.len() && size_fits(
                (#[trigger] descriptors@[k]).shape@,
                descriptors@[k].elem_size,
            ) ==> sizes[k] == descriptors@[k].size(),
        call_ensures(WgpuServer::can_create, (descriptors, align), fit),
    ensures
        fit <==> {
            &&& forall|k: int|
                0 <= k < descriptors@.len() ==> {
                    &&& strides_fit((#[trigger] descriptors@[k]).shape@)
                    &&& size_fits(descriptors@[k].shape@, descriptors@[k].elem_size)
                }
            &&& starts[descriptors@.len() as int] <= usize::MAX
        },
{
    layout_fits_where_everything_is_computed(
        descriptors@,
        align as nat,
        sizes,
        starts,
    );
}

} // verus!
