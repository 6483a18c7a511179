//! What the operations on a stream, and the tasks that wait on it, have to do with each other.
use crate::kernel::KernelId;
use crate::launch::PendingLaunch;
use crate::launch_laws::launch_outcome;
use crate::memory::{Binding, StreamId};
use crate::pipeline_laws::{search_is_as_expected, PipelineWorld};
use crate::server::ServerView;
use crate::streams::{
    first_occurrences, first_occurrences_are_distinct, StreamOperation, StreamRequest,
};
use crate::transfer::CopyDescriptor;
use crate::transfer_laws::{
    new_write, read_executes_earlier_writes, read_executes_involved_streams, write_outcome,
    Resources,
};
use vstd::prelude::*;

verus! {

/// An operation on a stream, be it to flush or to sync it, to begin or to end a measurement, to
/// tell or to release its memory or to change how memory is allocated, runs on that stream after
/// the waiting tasks of that stream were executed, once, and those of no other.
pub proof fn operation_follows_its_stream(
    request: StreamRequest,
    stream: StreamId,
    operation: StreamOperation,
)
    requires
        request.is(stream, operation),
    ensures
        request.execute@.contains(stream),
        request.execute@.len() == 1,
        forall|other: StreamId| #[trigger] request.execute@.contains(other) ==> other == stream,
        request.stream == stream,
        request.operation == operation,
{
    assert(request.execute@[0] == stream);
}

/// Before an operation on a stream, every task that the stream has written data with is executed:
/// the task waits on one of the streams that are executed for the operation, also where the write
/// was refused later on.
pub proof fn operation_executes_earlier_writes(
    request: StreamRequest,
    stream: StreamId,
    operation: StreamOperation,
    written: Seq<CopyDescriptor>,
    world: Resources,
)
    requires
        request.is(stream, operation),
    ensures
        forall|i: int|
            0 <= i < write_outcome(new_write(stream, written), world).0.len()
                ==> request.execute@.contains(
                (#[trigger] write_outcome(new_write(stream, written), world).0[i]).stream,
            ),
{
    operation_follows_its_stream(request, stream, operation);
    read_executes_earlier_writes(stream, written, world, seq![]);
    read_executes_involved_streams(stream, seq![]);
}

/// Before an operation on a stream, every kernel that the stream has launched is executed: the
/// task waits on one of the streams that are executed for the operation.
pub proof fn operation_executes_earlier_launches(
    request: StreamRequest,
    operation: StreamOperation,
    server: ServerView,
    id: KernelId,
    launch: PendingLaunch,
    pipeline_world: PipelineWorld,
    resources: spec_fn(int, Binding) -> u64,
)
    requires
        request.is(launch.stream, operation),
    ensures
        launch_outcome(server, id, launch, pipeline_world, resources) matches Ok(registration)
            ==> request.execute@.contains(registration.stream),
{
    operation_follows_its_stream(request, launch.stream, operation);
    search_is_as_expected(server, id, pipeline_world);
}

/// Before the resource of a binding is handed out, the stream that asks is executed first, and the
/// stream that the binding was created on too, neither of them twice and no other.
pub proof fn resource_follows_both_streams(stream: StreamId, binding: Binding)
    ensures
        ({
            let execute = first_occurrences(seq![stream, binding.stream]);
            &&& execute.no_duplicates()
            &&& execute.len() > 0 && execute[0] == stream
            &&& execute.contains(binding.stream)
            &&& forall|other: StreamId| #[trigger]
                execute.contains(other) ==> other == stream || other == binding.stream
        }),
{
    let both = seq![stream, binding.stream];
    first_occurrences_are_distinct(both);
    assert(both[1] == binding.stream);
    assert(both.contains(binding.stream));
    assert forall|other: StreamId| #[trigger] first_occurrences(both).contains(other) implies other
        == stream || other == binding.stream by {
        assert(both.contains(other));
    }
}

} // verus!
