//! Allocation: several tensors in one block of memory, each at an aligned offset.
use crate::layout::{
    byte_size, checked_byte_size, contiguous_strides, is_row_major, lemma_padded, padded,
    size_fits, strides_fit, strides_representable, tensor_size,
};
use crate::memory::{offset_or_zero, Handle, IoError, StreamId};
use crate::server::WgpuServer;
use vstd::prelude::*;

verus! {

/// A tensor that memory is wanted for.
#[derive(Debug, PartialEq, Eq)]
pub struct AllocationDescriptor {
    pub shape: Vec<usize>,
    /// Size of each element in bytes.
    pub elem_size: usize,
}

impl AllocationDescriptor {
    /// The size of the tensor in bytes.
    pub open spec fn size(self) -> nat {
        byte_size(self.shape@, self.elem_size)
    }
}

/// Memory for a tensor, and the strides of the tensor in it.
#[derive(Debug, PartialEq, Eq)]
pub struct Allocation {
    pub handle: Handle,
    pub strides: Vec<usize>,
}

/// Where part `k` begins when parts of the given sizes are laid out one after the other, each
/// padded to the alignment. For `k` the number of parts, this is the size of them all.
pub open spec fn offset_of(sizes: Seq<usize>, align: nat, k: int) -> nat
    decreases k,
{
    if k <= 0 {
        0
    } else {
        offset_of(sizes, align, k - 1) + padded(sizes[k - 1] as nat, align)
    }
}

/// Whether the parts can be laid out within `available` bytes, and everything computed on the way
/// fits into a `usize`.
pub open spec fn parts_fit(sizes: Seq<usize>, align: nat, available: int) -> bool {
    sizes.len() > 0 ==> {
        &&& align > 0
        &&& available <= usize::MAX
        &&& offset_of(sizes, align, sizes.len() as int) <= usize::MAX
        &&& forall|k: int|
            0 <= k < sizes.len() ==> #[trigger] offset_of(sizes, align, k) + sizes[k] <= available
    }
}

/// The offsets of part `k` of a region that is divided into parts of the given sizes. The region
/// lies in a block of `size` bytes, behind the start offset and before the end offset.
pub open spec fn part_offsets(
    offset_start: Option<u64>,
    offset_end: Option<u64>,
    size: u64,
    sizes: Seq<usize>,
    align: nat,
    k: int,
) -> (Option<u64>, Option<u64>) {
    let before = offset_or_zero(offset_start);
    let behind = offset_or_zero(offset_end);
    let offset = offset_of(sizes, align, k);
    let rest = size - before - behind - offset - sizes[k];
    (Some((before + offset) as u64), Some((behind + rest) as u64))
}

/// Part `k` of a handle that is divided into parts of the given sizes.
pub open spec fn part(base: Handle, sizes: Seq<usize>, align: nat, k: int) -> Handle {
    let (offset_start, offset_end) = part_offsets(
        base.offset_start,
        base.offset_end,
        base.size,
        sizes,
        align,
        k,
    );
    Handle { offset_start, offset_end, ..base }
}

/// Calls `cubecl_runtime::memory_management::offset_handles` on a handle with the given offsets
/// and size, and hands out the two offsets of each handle it returns.
///
/// There is one handle for each size. Its start offset has grown by the sum of the sizes before
/// it, each rounded up to the next multiple of the alignment; its end offset has grown by what the
/// handle had left behind that part. A missing offset counts as zero and is never left missing.
#[verifier::external_body]
fn offset_handles(
    offset_start: Option<u64>,
    offset_end: Option<u64>,
    size: u64,
    sizes: &[usize],
    align: usize,
) -> (offsets: Vec<(Option<u64>, Option<u64>)>)
    requires
        offset_or_zero(offset_start) + offset_or_zero(offset_end) <= size,
        parts_fit(
            sizes@,
            align as nat,
            size - offset_or_zero(offset_start) - offset_or_zero(offset_end),
        ),
    ensures
        offsets@.len() == sizes@.len(),
        forall|k: int|
            0 <= k < sizes@.len() ==> #[trigger] offsets@[k] == part_offsets(
                offset_start,
                offset_end,
                size,
                sizes@,
                align as nat,
                k,
            ),
{
    let stream = cubecl_common::stream_id::StreamId { value: 0 };
    let base = cubecl_runtime::server::Handle::new(
        Default::default(),
        offset_start,
        offset_end,
        stream,
        0,
        size,
    );
    let handles = cubecl_runtime::memory_management::offset_handles(base, sizes, align);
    handles.iter().map(|handle| (handle.offset_start, handle.offset_end)).collect()
}

/// The sizes of the tensors that memory is wanted for, in bytes.
pub open spec fn sizes_of(descriptors: Seq<AllocationDescriptor>) -> Seq<usize> {
    Seq::new(descriptors.len(), |k: int| descriptors[k].size() as usize)
}

/// Whether the layout of the tensors can be computed: there is an alignment where there is a
/// tensor, each tensor has a dimension, and every stride, size and sum of padded sizes fits into a
/// `usize`.
pub open spec fn layout_fits(descriptors: Seq<AllocationDescriptor>, align: nat) -> bool {
    &&& align > 0 || descriptors.len() == 0
    &&& forall|k: int|
        0 <= k < descriptors.len() ==> {
            &&& strides_fit((#[trigger] descriptors[k]).shape@)
            &&& size_fits(descriptors[k].shape@, descriptors[k].elem_size)
        }
    &&& offset_of(sizes_of(descriptors), align, descriptors.len() as int) <= usize::MAX
}

/// An allocation that waits for its block of memory.
#[derive(Debug, PartialEq, Eq)]
pub struct PendingAllocation {
    /// The stream that the block is wanted on.
    pub stream: StreamId,
    /// The size of the block in bytes.
    pub size: u64,
    /// The sizes of the tensors in bytes.
    pub sizes: Vec<usize>,
    /// The strides of the tensors.
    pub strides: Vec<Vec<usize>>,
    /// What each tensor's offset in the block is a multiple of.
    pub align: usize,
}

impl PendingAllocation {
    /// Whether there are strides for each size.
    pub open spec fn wf(self) -> bool {
        self.strides@.len() == self.sizes@.len()
    }

    /// Whether the tensors fit into the handle.
    pub open spec fn fits(self, base: Handle) -> bool {
        &&& base.wf()
        &&& parts_fit(self.sizes@, self.align as nat, base.spec_size())
    }

    /// Whether the tensors fit into the handle.
    pub fn fits_into(&self, base: &Handle) -> (fit: bool)
        ensures
            fit == self.fits(*base),
    {
        let available: u64 = match base.checked_size() {
            Some(size) => size,
            None => {
                return false;
            },
        };
        if self.sizes.len() == 0 {
            return true;
        }
        if self.align == 0 || available > usize::MAX as u64 {
            return false;
        }
        let mut offset: usize = 0;
        let mut k: usize = 0;
        while k < self.sizes.len()
            invariant
                k <= self.sizes@.len(),
                self.align > 0,
                base.wf(),
                available == base.spec_size(),
                available <= usize::MAX,
                offset == offset_of(self.sizes@, self.align as nat, k as int),
                forall|j: int|
                    0 <= j < k ==> #[trigger] offset_of(self.sizes@, self.align as nat, j)
                        + self.sizes@[j] <= available,
            decreases self.sizes@.len() - k,
        {
            let size: usize = self.sizes[k];
            match offset.checked_add(size) {
                Some(end) => {
                    if end as u64 > available {
                        assert(!self.fits(*base));
                        return false;
                    }
                },
                None => {
                    assert(!self.fits(*base));
                    return false;
                },
            }
            match checked_padded(size, self.align) {
                Some(padded) => match offset.checked_add(padded) {
                    Some(next) => {
                        offset = next;
                    },
                    None => {
                        proof {
                            lemma_offset_monotonic(
                                self.sizes@,
                                self.align as nat,
                                k + 1,
                                self.sizes@.len() as int,
                            );
                        }
                        return false;
                    },
                },
                None => {
                    proof {
                        lemma_offset_monotonic(
                            self.sizes@,
                            self.align as nat,
                            k + 1,
                            self.sizes@.len() as int,
                        );
                    }
                    return false;
                },
            }
            k = k + 1;
        }
        true
    }

    /// Goes on with the block, or with why there is none: each tensor gets its part of the block.
    pub fn reserved(self, reserved: Result<Handle, IoError>) -> (result: Result<
        Vec<Allocation>,
        IoError,
    >)
        requires
            self.wf(),
            reserved matches Ok(base) ==> self.fits(base),
        ensures
            match reserved {
                Err(error) => result == Err::<Vec<Allocation>, IoError>(error),
                Ok(base) => {
                    &&& result matches Ok(allocations)
                    &&& allocations@.len() == self.sizes@.len()
                    &&& forall|k: int|
                        0 <= k < allocations@.len() ==> {
                            &&& (#[trigger] allocations@[k]).handle == part(
                                base,
                                self.sizes@,
                                self.align as nat,
                                k,
                            )
                            &&& allocations@[k].strides@ == self.strides@[k]@
                        }
                },
            },
    {
        let base: Handle = match reserved {
            Ok(base) => base,
            Err(error) => {
                return Err(error);
            },
        };
        let offsets: Vec<(Option<u64>, Option<u64>)> = offset_handles(
            base.offset_start,
            base.offset_end,
            base.size,
            self.sizes.as_slice(),
            self.align,
        );
        let mut allocations: Vec<Allocation> = Vec::new();
        let mut k: usize = 0;
        while k < offsets.len()
            invariant
                k <= offsets@.len(),
                offsets@.len() == self.sizes@.len(),
                self.strides@.len() == self.sizes@.len(),
                allocations@.len() == k,
                forall|j: int|
                    0 <= j < offsets@.len() ==> #[trigger] offsets@[j] == part_offsets(
                        base.offset_start,
                        base.offset_end,
                        base.size,
                        self.sizes@,
                        self.align as nat,
                        j,
                    ),
                forall|j: int|
                    0 <= j < k ==> {
                        &&& (#[trigger] allocations@[j]).handle == part(
                            base,
                            self.sizes@,
                            self.align as nat,
                            j,
                        )
                        &&& allocations@[j].strides@ == self.strides@[j]@
                    },
            decreases offsets@.len() - k,
        {
            let (offset_start, offset_end) = offsets[k];
            let handle = Handle {
                memory: base.memory,
                offset_start,
                offset_end,
                stream: base.stream,
                cursor: base.cursor,
                size: base.size,
            };
            let strides: Vec<usize> = self.strides[k].clone();
            assert(strides@ =~= self.strides@[k as int]@);
            allocations.push(Allocation { handle, strides });
            k = k + 1;
        }
        Ok(allocations)
    }
}

/// The least multiple of `align` that is not below `size`.
fn next_multiple_of(size: usize, align: usize) -> (result: usize)
    requires
        align > 0,
        padded(size as nat, align as nat) <= usize::MAX,
    ensures
        result == padded(size as nat, align as nat),
{
    proof {
        lemma_padded(size as nat, align as nat);
    }
    let rest: usize = size % align;
    if rest == 0 {
        size
    } else {
        size + (align - rest)
    }
}

/// The least multiple of `align` that is not below `size`, or nothing where it is too large.
fn checked_padded(size: usize, align: usize) -> (result: Option<usize>)
    requires
        align > 0,
    ensures
        match result {
            Some(result) => result == padded(size as nat, align as nat),
            None => padded(size as nat, align as nat) > usize::MAX,
        },
{
    proof {
        lemma_padded(size as nat, align as nat);
    }
    let rest: usize = size % align;
    if rest == 0 {
        Some(size)
    } else {
        size.checked_add(align - rest)
    }
}

/// Later parts begin no earlier.
proof fn lemma_offset_monotonic(sizes: Seq<usize>, align: nat, j: int, k: int)
    requires
        0 <= j <= k,
    ensures
        offset_of(sizes, align, j) <= offset_of(sizes, align, k),
    decreases k - j,
{
    if j < k {
        lemma_offset_monotonic(sizes, align, j, k - 1);
    }
}

impl WgpuServer {
    /// Whether memory for the tensors can be laid out.
    pub fn can_create(descriptors: &[AllocationDescriptor], align: u32) -> (fit: bool)
        ensures
            fit == layout_fits(descriptors@, align as nat),
    {
        if align == 0 {
            return descriptors.len() == 0;
        }
        let alignment: usize = align as usize;
        let mut total: usize = 0;
        let mut k: usize = 0;
        let ghost sizes = sizes_of(descriptors@);
        while k < descriptors.len()
            invariant
                k <= descriptors@.len(),
                alignment == align,
                align > 0,
                sizes == sizes_of(descriptors@),
                total == offset_of(sizes, align as nat, k as int),
                forall|j: int|
                    0 <= j < k ==> {
                        &&& strides_fit((#[trigger] descriptors@[j]).shape@)
                        &&& size_fits(descriptors@[j].shape@, descriptors@[j].elem_size)
                    },
            decreases descriptors@.len() - k,
        {
            proof {
                lemma_offset_monotonic(sizes, align as nat, k + 1, descriptors@.len() as int);
            }
            let descriptor: &AllocationDescriptor = &descriptors[k];
            if !strides_representable(descriptor.shape.as_slice()) {
                return false;
            }
            match checked_byte_size(descriptor.shape.as_slice(), descriptor.elem_size) {
                Some(size) => match checked_padded(size, alignment) {
                    Some(padded) => match total.checked_add(padded) {
                        Some(sum) => {
                            total = sum;
                        },
                        None => {
                            return false;
                        },
                    },
                    None => {
                        return false;
                    },
                },
                None => {
                    return false;
                },
            }
            k = k + 1;
        }
        true
    }

    /// Starts to create memory for tensors on a stream, with offsets that are multiples of the
    /// alignment that the device asks of storage buffers: one block is wanted for them all.
    pub fn create(
        &self,
        descriptors: &[AllocationDescriptor],
        stream_id: StreamId,
        align: u32,
    ) -> (pending: PendingAllocation)
        requires
            layout_fits(descriptors@, align as nat),
        ensures
            pending.wf(),
            pending.stream == stream_id,
            pending.align == align,
            pending.sizes@ == sizes_of(descriptors@),
            pending.size == offset_of(
                sizes_of(descriptors@),
                align as nat,
                descriptors@.len() as int,
            ),
            forall|k: int|
                0 <= k < descriptors@.len() ==> is_row_major(
                    (#[trigger] descriptors@[k]).shape@,
                    pending.strides@[k]@,
                ),
    {
        let alignment: usize = align as usize;
        let mut strides: Vec<Vec<usize>> = Vec::new();
        let mut sizes: Vec<usize> = Vec::new();
        let mut total: usize = 0;
        let mut k: usize = 0;
        while k < descriptors.len()
            invariant
                k <= descriptors@.len(),
                alignment == align,
                layout_fits(descriptors@, align as nat),
                strides@.len() == k,
                sizes@.len() == k,
                total == offset_of(sizes_of(descriptors@), align as nat, k as int),
                forall|j: int| 0 <= j < k ==> sizes@[j] == (#[trigger] descriptors@[j]).size(),
                forall|j: int|
                    0 <= j < k ==> is_row_major(
                        (#[trigger] descriptors@[j]).shape@,
                        strides@[j]@,
                    ),
            decreases descriptors@.len() - k,
        {
            proof {
                lemma_offset_monotonic(
                    sizes_of(descriptors@),
                    align as nat,
                    k + 1,
                    descriptors@.len() as int,
                );
                lemma_padded(descriptors@[k as int].size(), align as nat);
            }
            let descriptor: &AllocationDescriptor = &descriptors[k];
            strides.push(contiguous_strides(descriptor.shape.as_slice()));
            let size: usize = tensor_size(descriptor.shape.as_slice(), descriptor.elem_size);
            sizes.push(size);
            total = total + next_multiple_of(size, alignment);
            k = k + 1;
        }
        assert(sizes@ =~= sizes_of(descriptors@));
        PendingAllocation {
            stream: stream_id,
            size: total as u64,
            sizes,
            strides,
            align: alignment,
        }
    }
}

} // verus!
