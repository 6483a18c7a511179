//! Reads and writes: copies between the device and the host.
use crate::layout::{
    has_contiguous_strides, is_row_major, strides_fit, strides_representable,
};
use crate::memory::{Binding, IoError, StreamId};
use crate::server::WgpuServer;
use crate::streams::{first_occurrences, push_stream};
use vstd::prelude::*;

verus! {

/// A tensor in memory that is to be copied.
#[derive(Debug, PartialEq, Eq)]
pub struct CopyDescriptor {
    pub binding: Binding,
    pub shape: Vec<usize>,
    pub strides: Vec<usize>,
    /// Size of each element in bytes.
    pub elem_size: usize,
}

impl CopyDescriptor {
    /// Whether the tensor is laid out row by row, without padding. No other layout is copied.
    pub open spec fn is_contiguous(self) -> bool {
        is_row_major(self.shape@, self.strides@)
    }

    /// Whether it can be computed how the tensor should be laid out.
    pub open spec fn is_computable(self) -> bool {
        strides_fit(self.shape@)
    }

    /// Whether it can be computed how the tensor should be laid out.
    pub fn computable(&self) -> (computable: bool)
        ensures
            computable == self.is_computable(),
    {
        strides_representable(self.shape.as_slice())
    }

    fn contiguous(&self) -> (contiguous: bool)
        requires
            self.is_computable(),
        ensures
            contiguous == self.is_contiguous(),
    {
        has_contiguous_strides(self.shape.as_slice(), self.strides.as_slice())
    }
}

/// A resource that is read, with the shape and the element size of the tensor in it.
#[derive(Debug, PartialEq, Eq)]
pub struct ReadResource {
    /// The number of the resource.
    pub resource: u64,
    pub shape: Vec<usize>,
    pub elem_size: usize,
}

/// What a [`ReadResource`] is.
pub ghost struct ReadResourceView {
    pub resource: u64,
    pub shape: Seq<usize>,
    pub elem_size: usize,
}

impl View for ReadResource {
    type V = ReadResourceView;

    open spec fn view(&self) -> ReadResourceView {
        ReadResourceView {
            resource: self.resource,
            shape: self.shape@,
            elem_size: self.elem_size,
        }
    }
}

/// A read that waits for the resource of one of its tensors.
#[derive(Debug, PartialEq, Eq)]
pub struct PendingRead {
    stream: StreamId,
    descriptors: Vec<CopyDescriptor>,
    streams: Vec<StreamId>,
    resources: Vec<ReadResource>,
}

/// What a [`PendingRead`] is: the stream that asks, the tensors, and the resources of the first
/// ones.
pub ghost struct PendingReadView {
    pub stream: StreamId,
    pub descriptors: Seq<CopyDescriptor>,
    pub resources: Seq<u64>,
}

/// The streams of the tensors.
pub open spec fn streams_of(descriptors: Seq<CopyDescriptor>) -> Seq<StreamId> {
    Seq::new(descriptors.len(), |i: int| descriptors[i].binding.stream)
}

/// The streams that are executed before a read: the one that asks, then those of the tensors,
/// each once.
pub open spec fn read_streams(stream: StreamId, descriptors: Seq<CopyDescriptor>) -> Seq<
    StreamId,
> {
    first_occurrences(seq![stream] + streams_of(descriptors))
}

/// The tensors with their resources.
pub open spec fn read_resources(
    descriptors: Seq<CopyDescriptor>,
    resources: Seq<u64>,
) -> Seq<ReadResourceView> {
    Seq::new(
        resources.len(),
        |i: int|
            ReadResourceView {
                resource: resources[i],
                shape: descriptors[i].shape@,
                elem_size: descriptors[i].elem_size,
            },
    )
}

/// What has to be done next to read tensors.
#[derive(Debug, PartialEq, Eq)]
pub enum ReadStep {
    /// Find the resource of [`PendingRead::binding`] on the binding's stream
    /// ([`PendingRead::found`]).
    Find(PendingRead),
    /// Execute the waiting tasks of the streams, then read the resources on the stream.
    Read { execute: Vec<StreamId>, stream: StreamId, resources: Vec<ReadResource> },
    /// The read is refused.
    Fail(IoError),
}

/// What a [`ReadStep`] is.
pub ghost enum ReadStepView {
    Find(PendingReadView),
    Read { execute: Seq<StreamId>, stream: StreamId, resources: Seq<ReadResourceView> },
    Fail(IoError),
}

impl View for ReadStep {
    type V = ReadStepView;

    open spec fn view(&self) -> ReadStepView {
        match *self {
            ReadStep::Find(pending) => ReadStepView::Find(pending@),
            ReadStep::Read { execute, stream, resources } => ReadStepView::Read {
                execute: execute@,
                stream,
                resources: resources@.map_values(|resource: ReadResource| resource@),
            },
            ReadStep::Fail(error) => ReadStepView::Fail(error),
        }
    }
}

impl ReadStep {
    /// Whether a read that waits is one that the server has made, and lacks a resource.
    pub open spec fn wf(self) -> bool {
        self matches ReadStep::Find(pending) ==> {
            &&& pending.wf()
            &&& pending@.resources.len() < pending@.descriptors.len()
        }
    }
}

impl PendingReadView {
    /// The step once the resources so far are found.
    pub open spec fn next(self) -> ReadStepView {
        let found = self.resources.len();
        if found == self.descriptors.len() {
            ReadStepView::Read {
                execute: read_streams(self.stream, self.descriptors),
                stream: self.stream,
                resources: read_resources(self.descriptors, self.resources),
            }
        } else if self.descriptors[found as int].is_contiguous() {
            ReadStepView::Find(self)
        } else {
            ReadStepView::Fail(IoError::UnsupportedStrides)
        }
    }

    /// The read with one more resource.
    pub open spec fn with(self, resource: u64) -> PendingReadView {
        PendingReadView { resources: self.resources.push(resource), ..self }
    }

    /// Whether the layout of the tensor at the given position, where there is one, can be
    /// computed.
    pub open spec fn computable_at(self, position: nat) -> bool {
        position < self.descriptors.len() ==> self.descriptors[position as int].is_computable()
    }
}

impl View for PendingRead {
    type V = PendingReadView;

    closed spec fn view(&self) -> PendingReadView {
        PendingReadView {
            stream: self.stream,
            descriptors: self.descriptors@,
            resources: self.resources@.map_values(|resource: ReadResource| resource.resource),
        }
    }
}

impl PendingRead {
    /// The resources are those of the first tensors, and the streams are those of the first
    /// `seen` tensors.
    spec fn consistent(self, seen: nat) -> bool {
        &&& self.resources@.len() <= seen <= self.descriptors@.len()
        &&& self.streams@ == read_streams(self.stream, self.descriptors@.take(seen as int))
        &&& forall|i: int|
            0 <= i < self.resources@.len() ==> {
                &&& (#[trigger] self.resources@[i]).shape@ == self.descriptors@[i].shape@
                &&& self.resources@[i].elem_size == self.descriptors@[i].elem_size
            }
    }

    /// Whether a resource is missing, and everything before it is as it should be.
    pub closed spec fn wf(self) -> bool {
        &&& self.resources@.len() < self.descriptors@.len()
        &&& self.consistent(self.resources@.len() + 1)
    }

    /// The binding whose resource is to be found.
    pub fn binding(&self) -> (binding: Binding)
        requires
            self.wf(),
        ensures
            binding == self@.descriptors[self@.resources.len() as int].binding,
    {
        self.descriptors[self.resources.len()].binding
    }

    /// Whether the read can go on once the resource is found: the layout of the next tensor,
    /// where there is one, can be computed.
    pub fn can_go_on(&self) -> (can: bool)
        requires
            self.wf(),
        ensures
            can == self@.computable_at(self@.resources.len() + 1),
    {
        let count: usize = self.descriptors.len();
        let next: usize = self.resources.len() + 1;
        if next < count {
            self.descriptors[next].computable()
        } else {
            true
        }
    }

    fn advance(self) -> (step: ReadStep)
        requires
            self.consistent(self.resources@.len()),
            self@.computable_at(self@.resources.len()),
        ensures
            step.wf(),
            step@ == self@.next(),
            step matches ReadStep::Read { stream, resources, .. } ==> {
                &&& stream == self@.stream
                &&& resources@.len() == self@.descriptors.len()
                &&& resources@.len() == self@.resources.len()
                &&& forall|i: int|
                    0 <= i < resources@.len() ==> {
                        &&& (#[trigger] resources@[i]).resource == self@.resources[i]
                        &&& resources@[i].shape@ == self@.descriptors[i].shape@
                        &&& resources@[i].elem_size == self@.descriptors[i].elem_size
                    }
            },
    {
        let position: usize = self.resources.len();
        let mut next = self;
        if position == next.descriptors.len() {
            proof {
                assert(next.descriptors@.take(position as int) =~= next.descriptors@);
                assert(next.resources@.map_values(|resource: ReadResource| resource@)
                    =~= read_resources(self@.descriptors, self@.resources));
            }
            return ReadStep::Read {
                execute: next.streams,
                stream: next.stream,
                resources: next.resources,
            };
        }
        if !next.descriptors[position].contiguous() {
            return ReadStep::Fail(IoError::UnsupportedStrides);
        }
        let stream: StreamId = next.descriptors[position].binding.stream;
        push_stream(&mut next.streams, stream);
        proof {
            let seen = self.descriptors@.take(position as int);
            let more = self.descriptors@.take(position + 1);
            let longer = seq![self.stream] + streams_of(more);
            assert(longer.drop_last() =~= seq![self.stream] + streams_of(seen));
            assert(longer.last() == stream);
        }
        ReadStep::Find(next)
    }

    /// Goes on with the resource, or with why there is none.
    pub fn found(self, found: Result<u64, IoError>) -> (step: ReadStep)
        requires
            self.wf(),
            found is Ok ==> self@.computable_at(self@.resources.len() + 1),
        ensures
            step.wf(),
            match found {
                Ok(resource) => step@ == self@.with(resource).next(),
                Err(error) => step@ == ReadStepView::Fail(error),
            },
            step matches ReadStep::Read { stream, resources, .. } ==> {
                &&& found matches Ok(resource)
                &&& stream == self@.stream
                &&& resources@.len() == self@.descriptors.len()
                &&& forall|i: int|
                    0 <= i < resources@.len() ==> {
                        &&& (#[trigger] resources@[i]).resource == self@.resources.push(resource)[i]
                        &&& resources@[i].shape@ == self@.descriptors[i].shape@
                        &&& resources@[i].elem_size == self@.descriptors[i].elem_size
                    }
            },
    {
        match found {
            Ok(resource) => {
                let mut next = self;
                let position: usize = next.resources.len();
                let shape: Vec<usize> = next.descriptors[position].shape.clone();
                assert(shape@ =~= self.descriptors@[position as int].shape@);
                let elem_size: usize = next.descriptors[position].elem_size;
                next.resources.push(ReadResource { resource, shape, elem_size });
                assert(next@.resources =~= self@.with(resource).resources);
                next.advance()
            },
            Err(error) => ReadStep::Fail(error),
        }
    }
}

impl WgpuServer {
    /// Starts to read tensors for a stream.
    pub fn read(&self, descriptors: Vec<CopyDescriptor>, stream_id: StreamId) -> (step: ReadStep)
        requires
            descriptors@.len() > 0 ==> descriptors@[0].is_computable(),
        ensures
            step.wf(),
            step@ == (PendingReadView {
                stream: stream_id,
                descriptors: descriptors@,
                resources: Seq::empty(),
            }).next(),
    {
        let streams: Vec<StreamId> = vec![stream_id];
        let pending = PendingRead { stream: stream_id, descriptors, streams, resources: Vec::new() };
        proof {
            let none = pending.descriptors@.take(0);
            assert(seq![stream_id] + streams_of(none) =~= seq![stream_id]);
            reveal_with_fuel(first_occurrences, 2);
            assert(seq![stream_id].drop_last() =~= Seq::<StreamId>::empty());
            assert(streams@ =~= read_streams(stream_id, none));
            assert(pending@.resources =~= Seq::<u64>::empty());
        }
        pending.advance()
    }

    /// Starts to write data to tensors for a stream. The tensors are numbered in their order, as
    /// are the data.
    pub fn write(&self, descriptors: Vec<CopyDescriptor>, stream_id: StreamId) -> (step: WriteStep)
        requires
            descriptors@.len() > 0 ==> descriptors@[0].is_computable(),
        ensures
            step.wf(),
            step@ == (PendingWriteView {
                stream: stream_id,
                descriptors: descriptors@,
                written: 0,
            }).next(),
    {
        PendingWrite { stream: stream_id, descriptors, written: 0 }.advance()
    }

    /// Staging buffers are not supported.
    pub fn staging(&self, sizes: &[usize], stream_id: StreamId) -> (result: Result<
        Vec<Vec<u8>>,
        IoError,
    >)
        ensures
            result == Err::<Vec<Vec<u8>>, IoError>(IoError::UnsupportedIoOperation),
    {
        Err(IoError::UnsupportedIoOperation)
    }
}

/// A write that is not yet complete.
#[derive(Debug, PartialEq, Eq)]
pub struct PendingWrite {
    stream: StreamId,
    descriptors: Vec<CopyDescriptor>,
    written: usize,
}

/// What a [`PendingWrite`] is: the stream that asks, the tensors, and how many of them have their
/// task registered.
pub ghost struct PendingWriteView {
    pub stream: StreamId,
    pub descriptors: Seq<CopyDescriptor>,
    pub written: nat,
}

/// What has to be done next to write tensors.
#[derive(Debug, PartialEq, Eq)]
pub enum WriteStep {
    /// Find the resource of [`PendingWrite::binding`] on the binding's stream
    /// ([`PendingWrite::found`]).
    Find(PendingWrite),
    /// Register a task on the stream that writes the data of the given number to the resource; it
    /// depends on no binding ([`PendingWrite::registered`]).
    Register { stream: StreamId, data: usize, resource: u64, pending: PendingWrite },
    /// All the tasks are registered.
    Done,
    /// The write is refused; the tasks registered before stay.
    Fail(IoError),
}

/// What a [`WriteStep`] is.
pub ghost enum WriteStepView {
    Find(PendingWriteView),
    Register { stream: StreamId, data: nat, resource: u64, pending: PendingWriteView },
    Done,
    Fail(IoError),
}

impl View for WriteStep {
    type V = WriteStepView;

    open spec fn view(&self) -> WriteStepView {
        match *self {
            WriteStep::Find(pending) => WriteStepView::Find(pending@),
            WriteStep::Register { stream, data, resource, pending } => WriteStepView::Register {
                stream,
                data: data as nat,
                resource,
                pending: pending@,
            },
            WriteStep::Done => WriteStepView::Done,
            WriteStep::Fail(error) => WriteStepView::Fail(error),
        }
    }
}

impl WriteStep {
    /// Whether a write that waits is one that the server has made.
    pub open spec fn wf(self) -> bool {
        match self {
            WriteStep::Find(pending) => pending.wf(),
            WriteStep::Register { pending, .. } => pending.wf(),
            _ => true,
        }
    }
}

impl PendingWriteView {
    /// The step once the tasks so far are registered.
    pub open spec fn next(self) -> WriteStepView {
        if self.written == self.descriptors.len() {
            WriteStepView::Done
        } else if self.descriptors[self.written as int].is_contiguous() {
            WriteStepView::Find(self)
        } else {
            WriteStepView::Fail(IoError::UnsupportedStrides)
        }
    }

    /// The step once the resource of the current tensor is found.
    pub open spec fn register(self, resource: u64) -> WriteStepView {
        WriteStepView::Register {
            stream: self.stream,
            data: self.written,
            resource,
            pending: self,
        }
    }

    /// The write with one more task registered.
    pub open spec fn with_task(self) -> PendingWriteView {
        PendingWriteView { written: self.written + 1, ..self }
    }

    /// Whether the layout of the tensor at the given position, where there is one, can be
    /// computed.
    pub open spec fn computable_at(self, position: nat) -> bool {
        position < self.descriptors.len() ==> self.descriptors[position as int].is_computable()
    }
}

impl View for PendingWrite {
    type V = PendingWriteView;

    closed spec fn view(&self) -> PendingWriteView {
        PendingWriteView {
            stream: self.stream,
            descriptors: self.descriptors@,
            written: self.written as nat,
        }
    }
}

impl PendingWrite {
    /// Whether a tensor is left to be written.
    pub open spec fn wf(self) -> bool {
        self@.written < self@.descriptors.len()
    }

    /// The binding whose resource is to be found.
    pub fn binding(&self) -> (binding: Binding)
        requires
            self.wf(),
        ensures
            binding == self@.descriptors[self@.written as int].binding,
    {
        self.descriptors[self.written].binding
    }

    /// Whether the write can go on once the task is registered: the layout of the next tensor,
    /// where there is one, can be computed.
    pub fn can_go_on(&self) -> (can: bool)
        requires
            self.wf(),
        ensures
            can == self@.computable_at(self@.written + 1),
    {
        let count: usize = self.descriptors.len();
        let next: usize = self.written + 1;
        if next < count {
            self.descriptors[next].computable()
        } else {
            true
        }
    }

    fn advance(self) -> (step: WriteStep)
        requires
            self@.written <= self@.descriptors.len(),
            self@.computable_at(self@.written),
        ensures
            step.wf(),
            step@ == self@.next(),
    {
        if self.written == self.descriptors.len() {
            return WriteStep::Done;
        }
        if !self.descriptors[self.written].contiguous() {
            return WriteStep::Fail(IoError::UnsupportedStrides);
        }
        WriteStep::Find(self)
    }

    /// Goes on with the resource, or with why there is none.
    pub fn found(self, found: Result<u64, IoError>) -> (step: WriteStep)
        requires
            self.wf(),
        ensures
            step.wf(),
            match found {
                Ok(resource) => step@ == self@.register(resource),
                Err(error) => step@ == WriteStepView::Fail(error),
            },
            match found {
                Ok(found_resource) => {
                    &&& step matches WriteStep::Register { stream, data, resource, pending }
                    &&& stream == self@.stream
                    &&& data == self@.written
                    &&& resource == found_resource
                    &&& pending == self
                },
                Err(error) => step == WriteStep::Fail(error),
            },
    {
        match found {
            Ok(resource) => WriteStep::Register {
                stream: self.stream,
                data: self.written,
                resource,
                pending: self,
            },
            Err(error) => WriteStep::Fail(error),
        }
    }

    /// Goes on once the task is registered.
    pub fn registered(self) -> (step: WriteStep)
        requires
            self.wf(),
            self@.computable_at(self@.written + 1),
        ensures
            step.wf(),
            step@ == self@.with_task().next(),
    {
        let mut next = self;
        assert(next.written < next.descriptors.len());
        next.written = next.written + 1;
        next.advance()
    }
}

} // verus!
