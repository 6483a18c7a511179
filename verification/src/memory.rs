//! Streams, and the memory that lives on them.
use vstd::prelude::*;

verus! {

/// The identity of a stream.
#[derive(Clone, Copy, Debug, PartialEq, Eq, Structural)]
pub struct StreamId {
    pub value: u64,
}

/// A part of a block of memory.
#[derive(Clone, Copy, Debug, PartialEq, Eq)]
pub struct Handle {
    /// The number of the block.
    pub memory: u64,
    /// How many bytes of the block lie before the part.
    pub offset_start: Option<u64>,
    /// How many bytes of the block lie behind the part.
    pub offset_end: Option<u64>,
    /// The stream where the data was created.
    pub stream: StreamId,
    /// The stream position when the data became available.
    pub cursor: u64,
    /// The length of the block in bytes, whatever the offsets.
    pub size: u64,
}

/// An offset that may be missing: a missing one is zero.
pub open spec fn offset_or_zero(offset: Option<u64>) -> nat {
    match offset {
        Some(offset) => offset as nat,
        None => 0,
    }
}

impl Handle {
    /// The first byte of the part within its block.
    pub open spec fn start(self) -> nat {
        offset_or_zero(self.offset_start)
    }

    /// The byte behind the part within its block.
    pub open spec fn end(self) -> int {
        self.size - offset_or_zero(self.offset_end)
    }

    /// Whether the part lies within its block.
    pub open spec fn wf(self) -> bool {
        self.start() <= self.end()
    }

    /// The size of the part in bytes.
    pub open spec fn spec_size(self) -> int {
        self.end() - self.start()
    }

    /// The size of the part in bytes, or nothing where the offsets exceed the block.
    pub fn checked_size(&self) -> (size: Option<u64>)
        ensures
            match size {
                Some(size) => self.wf() && size == self.spec_size(),
                None => !self.wf(),
            },
    {
        let start: u64 = match self.offset_start {
            Some(offset) => offset,
            None => 0,
        };
        let end: u64 = match self.offset_end {
            Some(offset) => offset,
            None => 0,
        };
        match self.size.checked_sub(start) {
            Some(rest) => rest.checked_sub(end),
            None => None,
        }
    }
}

/// A part is what its block has left between the bytes before and the bytes behind it, and there
/// is one where those do not exceed the block. A missing offset leaves nothing out.
pub proof fn handle_leaves_out_its_offsets(handle: Handle, before: nat, behind: nat)
    requires
        match handle.offset_start {
            Some(offset) => before == offset,
            None => before == 0,
        },
        match handle.offset_end {
            Some(offset) => behind == offset,
            None => behind == 0,
        },
    ensures
        handle.wf() <==> before + behind <= handle.size,
        handle.start() == before,
        before + handle.spec_size() + behind == handle.size,
        handle.end() == before + handle.spec_size(),
        offset_or_zero(handle.offset_start) == before,
        offset_or_zero(handle.offset_end) == behind,
{
}

/// A part of a block of memory that an operation works on.
#[derive(Clone, Copy, Debug, PartialEq, Eq)]
pub struct Binding {
    /// The number of the block.
    pub memory: u64,
    /// How many bytes of the block lie before the part.
    pub offset_start: Option<u64>,
    /// How many bytes of the block lie behind the part.
    pub offset_end: Option<u64>,
    /// The stream where the data was created.
    pub stream: StreamId,
    /// The stream position when the data became available.
    pub cursor: u64,
    /// The length of the block in bytes, whatever the offsets.
    pub size: u64,
}

/// Why an operation on memory could not be done.
#[derive(Debug, PartialEq, Eq)]
pub enum IoError {
    /// The size exceeds what a buffer can have.
    BufferTooBig { size: u64 },
    /// The strides are not supported for the operation.
    UnsupportedStrides,
    /// There is no resource for the handle.
    InvalidHandle,
    /// Something else went wrong.
    Unknown { description: String },
    /// The operation is not supported.
    UnsupportedIoOperation,
    /// A task failed while it was executed.
    Execution { reason: String },
}

} // verus!
