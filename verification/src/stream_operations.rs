//! What comes of the operations on streams, of reads and writes and of launches, told from what
//! goes in. Reads, writes and launches are followed from their first step to their last.
use crate::kernel::{CompilationError, ExecutionMode};
use crate::launch::{
    Bindings, BindingsResource, BindingsStep, CubeCount, LaunchError, LaunchStep, PendingBindings,
    PendingLaunch, PendingTask, Registration,
};
use crate::layout::strides_fit;
use crate::memory::{Binding, IoError, StreamId};
use crate::pipeline::PipelineStep;
use crate::server::WgpuServer;
use crate::streams::{ResourceRequest, StreamOperation, StreamRequest};
use crate::transfer::{
    read_streams, CopyDescriptor, PendingRead, PendingWrite, ReadStep, WriteStep,
};
use crate::transfer_laws::{read_executes_involved_streams, read_step_is_seen_as_it_is};
use vstd::prelude::*;

verus! {

/// Whether a server answers an operation on a stream with the given request.
pub open spec fn is_requested(
    server: WgpuServer,
    stream: StreamId,
    operation: StreamOperation,
    request: StreamRequest,
) -> bool {
    match operation {
        StreamOperation::Flush => call_ensures(WgpuServer::flush, (&server, stream), request),
        StreamOperation::Sync => call_ensures(WgpuServer::sync, (&server, stream), request),
        StreamOperation::StartProfile => call_ensures(
            WgpuServer::start_profile,
            (&server, stream),
            request,
        ),
        StreamOperation::EndProfile { token } => call_ensures(
            WgpuServer::end_profile,
            (&server, stream, token),
            request,
        ),
        StreamOperation::MemoryUsage => call_ensures(
            WgpuServer::memory_usage,
            (&server, stream),
            request,
        ),
        StreamOperation::MemoryCleanup { explicit } => explicit && call_ensures(
            WgpuServer::memory_cleanup,
            (&server, stream),
            request,
        ),
        StreamOperation::AllocationMode { mode } => call_ensures(
            WgpuServer::allocation_mode,
            (&server, mode, stream),
            request,
        ),
    }
}

/// To flush or to sync a stream, to begin or to end a measurement on it, to tell or to release its
/// memory and to change how memory is allocated on it each executes the waiting tasks of that
/// stream, once, and of no other, and then does just that on that stream.
pub proof fn every_operation_follows_its_stream(
    server: WgpuServer,
    stream: StreamId,
    operation: StreamOperation,
    request: StreamRequest,
)
    requires
        is_requested(server, stream, operation, request),
    ensures
        request.execute@.contains(stream),
        request.execute@.len() == 1,
        forall|other: StreamId| #[trigger] request.execute@.contains(other) ==> other == stream,
        request.stream == stream,
        request.operation == operation,
{
    assert(request.execute@[0] == stream);
}

/// The resource of a binding is found once the stream that asks, and then the stream that the
/// binding was created on, have executed their waiting tasks, neither of them twice.
pub proof fn resource_is_found_after_both_streams(
    server: WgpuServer,
    binding: Binding,
    stream: StreamId,
    request: ResourceRequest,
)
    requires
        call_ensures(WgpuServer::get_resource, (&server, binding, stream), request),
    ensures
        request.binding == binding,
        request.execute@[0] == stream,
        request.execute@.contains(binding.stream),
        request.execute@.no_duplicates(),
        forall|other: StreamId| #[trigger]
            request.execute@.contains(other) ==> other == stream || other == binding.stream,
        request.execute@.len() == if binding.stream == stream {
            1int
        } else {
            2int
        },
{
    if binding.stream == stream {
        assert(request.execute@[0] == binding.stream);
    } else {
        assert(request.execute@[1] == binding.stream);
    }
}

/// Staging buffers are refused, whatever is asked for.
pub proof fn staging_is_refused(
    server: WgpuServer,
    sizes: &[usize],
    stream: StreamId,
    result: Result<Vec<Vec<u8>>, IoError>,
)
    requires
        call_ensures(WgpuServer::staging, (&server, sizes, stream), result),
    ensures
        result matches Err(error) && error is UnsupportedIoOperation,
{
}

/// Whether step `i` of a read waits for a resource, and goes on with the one that is found.
pub open spec fn read_goes_on(steps: Seq<ReadStep>, found: Seq<u64>, i: int) -> bool {
    &&& steps[i] matches ReadStep::Find(pending)
    &&& call_ensures(PendingRead::found, (pending, Ok(found[i])), steps[i + 1])
}

/// Whether step `i` of a read waits for the resource of the given binding.
pub open spec fn read_asks(steps: Seq<ReadStep>, asked: Seq<Binding>, i: int) -> bool {
    &&& steps[i] matches ReadStep::Find(pending)
    &&& call_ensures(PendingRead::binding, (&pending,), asked[i])
}

/// What is known of a read after `i` resources were found.
proof fn lemma_read_so_far(
    server: WgpuServer,
    descriptors: Vec<CopyDescriptor>,
    stream: StreamId,
    steps: Seq<ReadStep>,
    found: Seq<u64>,
    i: int,
)
    requires
        call_ensures(WgpuServer::read, (&server, descriptors, stream), steps[0]),
        steps.len() == found.len() + 1,
        forall|i: int| 0 <= i < found.len() ==> #[trigger] read_goes_on(steps, found, i),
        0 <= i <= found.len(),
    ensures
        i <= descriptors@.len(),
        i < descriptors@.len() && descriptors@[i].is_contiguous() ==> {
            &&& steps[i] matches ReadStep::Find(pending)
            &&& pending@.stream == stream
            &&& pending@.descriptors == descriptors@
            &&& pending@.resources == found.take(i)
        },
        i < descriptors@.len() && !descriptors@[i].is_contiguous() ==> steps[i] == ReadStep::Fail(
            IoError::UnsupportedStrides,
        ),
        i == descriptors@.len() ==> {
            &&& steps[i] matches ReadStep::Read { execute, stream: on, resources }
            &&& on == stream
            &&& execute@ == read_streams(stream, descriptors@)
            &&& resources@.len() == descriptors@.len()
            &&& forall|k: int|
                0 <= k < resources@.len() ==> {
                    &&& (#[trigger] resources@[k]).resource == found[k]
                    &&& resources@[k].shape@ == descriptors@[k].shape@
                    &&& resources@[k].elem_size == descriptors@[k].elem_size
                }
        },
    decreases i,
{
    read_step_is_seen_as_it_is(steps[i]);
    if i == 0 {
        assert(found.take(0) =~= Seq::<u64>::empty());
    } else {
        lemma_read_so_far(server, descriptors, stream, steps, found, i - 1);
        assert(read_goes_on(steps, found, i - 1));
        assert(found.take(i) =~= found.take(i - 1).push(found[i - 1]));
    }
}

/// A read looks for the resource of each of its tensors in turn, and never for any other. It ends,
/// once all are found, with reading exactly those tensors, in order: each from its own resource,
/// with its own shape and element size, on the stream that asks, after that stream first and the
/// stream of every tensor were executed, each once. It is refused at the first tensor whose strides
/// do not count from its last dimension.
pub proof fn read_reads_what_was_asked_for(
    server: WgpuServer,
    descriptors: Vec<CopyDescriptor>,
    asking: StreamId,
    steps: Seq<ReadStep>,
    asked: Seq<Binding>,
    found: Seq<u64>,
)
    requires
        call_ensures(WgpuServer::read, (&server, descriptors, asking), steps[0]),
        steps.len() == found.len() + 1,
        asked.len() == found.len(),
        forall|i: int| 0 <= i < found.len() ==> #[trigger] read_goes_on(steps, found, i),
        forall|i: int| 0 <= i < asked.len() ==> #[trigger] read_asks(steps, asked, i),
    ensures
        forall|i: int|
            0 <= i < asked.len() ==> #[trigger] asked[i] == descriptors@[i].binding,
        match steps.last() {
            ReadStep::Find(_) => found.len() < descriptors@.len(),
            ReadStep::Read { execute, stream, resources } => {
                &&& found.len() == descriptors@.len()
                &&& stream == asking
                &&& resources@.len() == descriptors@.len()
                &&& forall|i: int|
                    0 <= i < resources@.len() ==> {
                        &&& (#[trigger] resources@[i]).resource == found[i]
                        &&& resources@[i].shape@ == descriptors@[i].shape@
                        &&& resources@[i].elem_size == descriptors@[i].elem_size
                    }
                &&& execute@.no_duplicates()
                &&& execute@.len() > 0 && execute@[0] == asking
                &&& forall|i: int|
                    0 <= i < descriptors@.len() ==> execute@.contains(
                        (#[trigger] descriptors@[i]).binding.stream,
                    )
                &&& forall|other: StreamId| #[trigger]
                    execute@.contains(other) && other != asking ==> exists|i: int|
                        0 <= i < descriptors@.len() && (#[trigger] descriptors@[i]).binding.stream
                            == other
            },
            ReadStep::Fail(error) => {
                &&& found.len() < descriptors@.len()
                &&& !descriptors@[found.len() as int].is_contiguous()
                &&& error is UnsupportedStrides
            },
        },
{
    read_executes_involved_streams(asking, descriptors@);
    lemma_read_so_far(server, descriptors, asking, steps, found, found.len() as int);
    assert forall|i: int| 0 <= i < asked.len() implies #[trigger] asked[i]
        == descriptors@[i].binding by {
        lemma_read_so_far(server, descriptors, asking, steps, found, i);
        assert(read_asks(steps, asked, i));
        assert(read_goes_on(steps, found, i));
    }
}

/// Where a resource is not found, the read is refused with the reason.
pub proof fn read_without_resource_is_refused(pending: PendingRead, error: IoError, step: ReadStep)
    requires
        call_ensures(PendingRead::found, (pending, Err(error)), step),
    ensures
        step == ReadStep::Fail(error),
{
}

/// Whether step `i` of a write waits for a resource, has a task for the one that is found, and goes
/// on once that is registered.
pub open spec fn write_goes_on(
    steps: Seq<WriteStep>,
    found: Seq<u64>,
    tasks: Seq<WriteStep>,
    i: int,
) -> bool {
    &&& steps[i] matches WriteStep::Find(pending)
    &&& call_ensures(PendingWrite::found, (pending, Ok(found[i])), tasks[i])
    &&& tasks[i] matches WriteStep::Register { pending: waiting, .. }
    &&& call_ensures(PendingWrite::registered, (waiting,), steps[i + 1])
}

/// Whether step `i` of a write waits for the resource of the given binding.
pub open spec fn write_asks(steps: Seq<WriteStep>, asked: Seq<Binding>, i: int) -> bool {
    &&& steps[i] matches WriteStep::Find(pending)
    &&& call_ensures(PendingWrite::binding, (&pending,), asked[i])
}

/// What is known of a write after `i` tasks were registered.
proof fn lemma_write_so_far(
    server: WgpuServer,
    descriptors: Vec<CopyDescriptor>,
    stream: StreamId,
    steps: Seq<WriteStep>,
    found: Seq<u64>,
    tasks: Seq<WriteStep>,
    i: int,
)
    requires
        call_ensures(WgpuServer::write, (&server, descriptors, stream), steps[0]),
        steps.len() == found.len() + 1,
        tasks.len() == found.len(),
        forall|i: int| 0 <= i < found.len() ==> #[trigger] write_goes_on(steps, found, tasks, i),
        0 <= i <= found.len(),
    ensures
        i <= descriptors@.len(),
        i < descriptors@.len() && descriptors@[i].is_contiguous() ==> {
            &&& steps[i] matches WriteStep::Find(pending)
            &&& pending@.stream == stream
            &&& pending@.descriptors == descriptors@
            &&& pending@.written == i
        },
        i < descriptors@.len() && !descriptors@[i].is_contiguous() ==> steps[i] == WriteStep::Fail(
            IoError::UnsupportedStrides,
        ),
        i == descriptors@.len() ==> steps[i] is Done,
    decreases i,
{
    if i > 0 {
        lemma_write_so_far(server, descriptors, stream, steps, found, tasks, i - 1);
        assert(write_goes_on(steps, found, tasks, i - 1));
    }
}

/// A write looks for the resource of each of its tensors in turn, and never for any other, and
/// registers one task for each on the stream that asks: it writes the data of that tensor to the
/// resource that was found for it. It is done after the last tensor, and is refused at the first
/// whose strides do not count from its last dimension.
pub proof fn write_writes_what_was_asked_for(
    server: WgpuServer,
    descriptors: Vec<CopyDescriptor>,
    asking: StreamId,
    steps: Seq<WriteStep>,
    asked: Seq<Binding>,
    found: Seq<u64>,
    tasks: Seq<WriteStep>,
)
    requires
        call_ensures(WgpuServer::write, (&server, descriptors, asking), steps[0]),
        steps.len() == found.len() + 1,
        asked.len() == found.len(),
        tasks.len() == found.len(),
        forall|i: int| 0 <= i < found.len() ==> #[trigger] write_goes_on(steps, found, tasks, i),
        forall|i: int| 0 <= i < asked.len() ==> #[trigger] write_asks(steps, asked, i),
    ensures
        forall|i: int|
            0 <= i < asked.len() ==> #[trigger] asked[i] == descriptors@[i].binding,
        forall|i: int|
            0 <= i < tasks.len() ==> {
                &&& #[trigger] tasks[i] matches WriteStep::Register { stream, data, resource, .. }
                &&& stream == asking
                &&& data == i
                &&& resource == found[i]
            },
        match steps.last() {
            WriteStep::Find(_) => found.len() < descriptors@.len(),
            WriteStep::Done => found.len() == descriptors@.len(),
            WriteStep::Fail(error) => {
                &&& found.len() < descriptors@.len()
                &&& !descriptors@[found.len() as int].is_contiguous()
                &&& error is UnsupportedStrides
            },
            WriteStep::Register { .. } => false,
        },
{
    lemma_write_so_far(server, descriptors, asking, steps, found, tasks, found.len() as int);
    assert forall|i: int| 0 <= i < asked.len() implies #[trigger] asked[i]
        == descriptors@[i].binding by {
        lemma_write_so_far(server, descriptors, asking, steps, found, tasks, i);
        assert(write_asks(steps, asked, i));
        assert(write_goes_on(steps, found, tasks, i));
    }
    assert forall|i: int| 0 <= i < tasks.len() implies {
        &&& #[trigger] tasks[i] matches WriteStep::Register { stream, data, resource, .. }
        &&& stream == asking
        &&& data == i
        &&& resource == found[i]
    } by {
        lemma_write_so_far(server, descriptors, asking, steps, found, tasks, i);
        assert(write_goes_on(steps, found, tasks, i));
    }
}

/// Where a resource is not found, the write is refused with the reason.
pub proof fn write_without_resource_is_refused(
    pending: PendingWrite,
    error: IoError,
    step: WriteStep,
)
    requires
        call_ensures(PendingWrite::found, (pending, Err(error)), step),
    ensures
        step == WriteStep::Fail(error),
{
}

/// It is told that a copy can go on exactly where the strides of the next tensor, if there is one,
/// can be computed.
pub proof fn copies_go_on_where_strides_are_computed(
    descriptor: CopyDescriptor,
    computable: bool,
    read: PendingRead,
    read_goes_on: bool,
    write: PendingWrite,
    write_goes_on: bool,
)
    requires
        call_ensures(CopyDescriptor::computable, (&descriptor,), computable),
        call_ensures(PendingRead::can_go_on, (&read,), read_goes_on),
        call_ensures(PendingWrite::can_go_on, (&write,), write_goes_on),
    ensures
        computable <==> strides_fit(descriptor.shape@),
        read_goes_on <==> read@.resources.len() + 1 >= read@.descriptors.len()
            || strides_fit(
            read@.descriptors[(read@.resources.len() + 1) as int].shape@,
        ),
        write_goes_on <==> write@.written + 1 >= write@.descriptors.len()
            || strides_fit(write@.descriptors[(write@.written + 1) as int].shape@),
{
}

/// Whether step `i` of preparing bindings waits for a resource, and goes on with the one that is
/// found.
pub open spec fn bindings_go_on(steps: Seq<BindingsStep>, found: Seq<u64>, i: int) -> bool {
    &&& steps[i] matches BindingsStep::Find(pending)
    &&& call_ensures(PendingBindings::found, (pending, found[i]), steps[i + 1])
}

/// Whether step `i` of preparing bindings waits for the resource of the given binding.
pub open spec fn bindings_ask(steps: Seq<BindingsStep>, asked: Seq<Binding>, i: int) -> bool {
    &&& steps[i] matches BindingsStep::Find(pending)
    &&& call_ensures(PendingBindings::binding, (&pending,), asked[i])
}

/// What is known of bindings after `i` resources were found.
proof fn lemma_bindings_so_far(
    bindings: Bindings,
    steps: Seq<BindingsStep>,
    found: Seq<u64>,
    i: int,
)
    requires
        steps.len() == found.len() + 1,
        match steps[0] {
            BindingsStep::Find(pending) => {
                &&& bindings.buffers@.len() > 0
                &&& pending@.buffers == bindings.buffers@
                &&& pending@.resources.len() == 0
                &&& pending@.metadata == bindings.metadata
                &&& pending@.scalars == bindings.scalars
            },
            BindingsStep::Ready(ready) => {
                &&& bindings.buffers@.len() == 0
                &&& ready.resources@.len() == 0
                &&& ready.metadata == bindings.metadata
                &&& ready.scalars == bindings.scalars
            },
        },
        forall|i: int| 0 <= i < found.len() ==> #[trigger] bindings_go_on(steps, found, i),
        0 <= i <= found.len(),
    ensures
        i <= bindings.buffers@.len(),
        match steps[i] {
            BindingsStep::Find(pending) => {
                &&& i < bindings.buffers@.len()
                &&& pending@.buffers == bindings.buffers@
                &&& pending@.resources == found.take(i)
                &&& pending@.metadata == bindings.metadata
                &&& pending@.scalars == bindings.scalars
            },
            BindingsStep::Ready(ready) => {
                &&& i == bindings.buffers@.len()
                &&& ready.resources@ == found.take(i)
                &&& ready.metadata == bindings.metadata
                &&& ready.scalars == bindings.scalars
            },
        },
    decreases i,
{
    if i == 0 {
        assert(found.take(0) =~= Seq::<u64>::empty());
        match steps[0] {
            BindingsStep::Find(pending) => {
                assert(pending@.resources =~= found.take(0));
            },
            BindingsStep::Ready(ready) => {
                assert(ready.resources@ =~= found.take(0));
            },
        }
    } else {
        lemma_bindings_so_far(bindings, steps, found, i - 1);
        assert(bindings_go_on(steps, found, i - 1));
        assert(found.take(i) =~= found.take(i - 1).push(found[i - 1]));
    }
}

/// Preparing bindings looks for the resource of each buffer in turn, and never for any other. It
/// ends, once all are found, with those resources in the order of the buffers and with the
/// metadata and the scalars as they came.
pub proof fn bindings_hold_the_resource_of_each_buffer(
    bindings: Bindings,
    steps: Seq<BindingsStep>,
    asked: Seq<Binding>,
    found: Seq<u64>,
)
    requires
        call_ensures(WgpuServer::prepare_bindings, (bindings,), steps[0]),
        steps.len() == found.len() + 1,
        asked.len() == found.len(),
        forall|i: int| 0 <= i < found.len() ==> #[trigger] bindings_go_on(steps, found, i),
        forall|i: int| 0 <= i < asked.len() ==> #[trigger] bindings_ask(steps, asked, i),
    ensures
        forall|i: int| 0 <= i < asked.len() ==> #[trigger] asked[i] == bindings.buffers@[i],
        match steps.last() {
            BindingsStep::Find(_) => found.len() < bindings.buffers@.len(),
            BindingsStep::Ready(ready) => {
                &&& found.len() == bindings.buffers@.len()
                &&& ready.resources@ == found
                &&& ready.metadata == bindings.metadata
                &&& ready.scalars == bindings.scalars
            },
        },
{
    lemma_bindings_so_far(bindings, steps, found, found.len() as int);
    assert(found.take(found.len() as int) =~= found);
    assert forall|i: int| 0 <= i < asked.len() implies #[trigger] asked[i]
        == bindings.buffers@[i] by {
        lemma_bindings_so_far(bindings, steps, found, i);
        assert(bindings_ask(steps, asked, i));
        assert(bindings_go_on(steps, found, i));
    }
}

/// A launch searches for the pipeline of its own kernel in its own mode. Without one it fails with
/// the reason. With one it looks for the resource of each of its buffers in turn, and never for any
/// other, and then registers one task on the stream that asks: that pipeline, with its own count,
/// over those resources in the order in which the buffers were bound, with its own metadata and
/// scalars. The task depends on exactly those buffers.
pub proof fn launch_runs_its_kernel_over_its_buffers(
    server: WgpuServer,
    kernel: u64,
    count: CubeCount,
    bindings: Bindings,
    mode: ExecutionMode,
    stream: StreamId,
    started: (PendingLaunch, PipelineStep),
    search: PipelineStep,
    pipeline: u64,
    steps: Seq<BindingsStep>,
    asked: Seq<Binding>,
    found: Seq<u64>,
    task: PendingTask,
    ready: BindingsResource,
    registration: Registration,
)
    requires
        call_ensures(
            WgpuServer::launch,
            (&server, kernel, count, bindings, mode, stream),
            started,
        ),
        call_ensures(WgpuServer::pipeline, (&server, kernel, mode), search),
        call_ensures(
            PendingLaunch::searched,
            (started.0, Ok(pipeline)),
            (LaunchStep::Prepare { bindings: steps[0], task }),
        ),
        steps.len() == found.len() + 1,
        asked.len() == found.len(),
        forall|i: int| 0 <= i < found.len() ==> #[trigger] bindings_go_on(steps, found, i),
        forall|i: int| 0 <= i < asked.len() ==> #[trigger] bindings_ask(steps, asked, i),
        steps.last() == BindingsStep::Ready(ready),
        call_ensures(PendingTask::prepared, (task, ready), registration),
    ensures
        started.1 == search,
        asked == bindings.buffers@,
        registration.task.resources.resources@ == found,
        registration.task.resources.metadata == bindings.metadata,
        registration.task.resources.scalars == bindings.scalars,
        registration.task.pipeline == pipeline,
        registration.task.count == count,
        registration.stream == stream,
        registration.buffers@ == bindings.buffers@,
{
    lemma_bindings_so_far(bindings, steps, found, found.len() as int);
    assert(found.take(found.len() as int) =~= found);
    assert forall|i: int| 0 <= i < asked.len() implies #[trigger] asked[i]
        == bindings.buffers@[i] by {
        lemma_bindings_so_far(bindings, steps, found, i);
        assert(bindings_ask(steps, asked, i));
        assert(bindings_go_on(steps, found, i));
    }
    assert(asked =~= bindings.buffers@);
}

/// A launch whose pipeline can be had goes on to prepare its bindings; one whose pipeline cannot be
/// had fails with the reason.
pub proof fn launch_needs_its_pipeline(
    launch: PendingLaunch,
    result: Result<u64, CompilationError>,
    step: LaunchStep,
)
    requires
        call_ensures(PendingLaunch::searched, (launch, result), step),
    ensures
        result is Ok <==> step is Prepare,
        result matches Err(error) ==> step == LaunchStep::Fail(
            LaunchError::CompilationError(error),
        ),
{
}

} // verus!
