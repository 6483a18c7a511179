//! Which streams are executed before an operation, and on which it then runs.
use crate::memory::{Binding, StreamId};
use crate::server::WgpuServer;
use vstd::prelude::*;

verus! {

/// The streams of a list in the order of their first occurrence, each once.
pub open spec fn first_occurrences(streams: Seq<StreamId>) -> Seq<StreamId>
    decreases streams.len(),
{
    if streams.len() == 0 {
        streams
    } else {
        let before = first_occurrences(streams.drop_last());
        if before.contains(streams.last()) {
            before
        } else {
            before.push(streams.last())
        }
    }
}

/// No stream occurs twice among the first occurrences; they are the streams of the list, no more
/// and no fewer; and the first stream of the list stays the first.
pub proof fn first_occurrences_are_distinct(streams: Seq<StreamId>)
    ensures
        first_occurrences(streams).no_duplicates(),
        forall|stream: StreamId|
            first_occurrences(streams).contains(stream) <==> streams.contains(stream),
        streams.len() > 0 ==> first_occurrences(streams).len() > 0 && first_occurrences(streams)[0]
            == streams[0],
    decreases streams.len(),
{
    if streams.len() > 0 {
        let shorter = streams.drop_last();
        let last = streams.last();
        let before = first_occurrences(shorter);
        first_occurrences_are_distinct(shorter);
        assert(streams =~= shorter.push(last));
        assert forall|stream: StreamId|
            streams.contains(stream) <==> shorter.contains(stream) || stream == last by {
            if shorter.contains(stream) {
                let i = choose|i: int| 0 <= i < shorter.len() && shorter[i] == stream;
                assert(streams[i] == stream);
            }
            if stream == last {
                assert(streams[streams.len() - 1] == stream);
            }
            if streams.contains(stream) && stream != last {
                let i = choose|i: int| 0 <= i < streams.len() && streams[i] == stream;
                assert(shorter[i] == stream);
            }
        }
        if !before.contains(last) {
            let after = before.push(last);
            assert forall|stream: StreamId|
                after.contains(stream) <==> before.contains(stream) || stream == last by {
                if before.contains(stream) {
                    let i = choose|i: int| 0 <= i < before.len() && before[i] == stream;
                    assert(after[i] == stream);
                }
                if stream == last {
                    assert(after[after.len() - 1] == stream);
                }
            }
        }
    }
}

/// The first occurrences keep their order: whatever stream comes earlier among them has occurred
/// before any occurrence of one that comes later.
pub proof fn first_occurrences_keep_their_order(streams: Seq<StreamId>, a: int, b: int, j: int)
    requires
        0 <= a < b < first_occurrences(streams).len(),
        0 <= j < streams.len(),
        streams[j] == first_occurrences(streams)[b],
    ensures
        exists|i: int| 0 <= i < j && #[trigger] streams[i] == first_occurrences(streams)[a],
    decreases streams.len(),
{
    let shorter = streams.drop_last();
    let last = streams.last();
    let before = first_occurrences(shorter);
    first_occurrences_are_distinct(shorter);
    first_occurrences_are_distinct(streams);
    let all = first_occurrences(streams);
    if j < shorter.len() {
        assert(shorter[j] == streams[j]);
        assert(shorter.contains(streams[j]));
        assert(before.contains(all[b]));
        if b == before.len() {
            assert(all[b] == last);
            assert(false);
        }
        first_occurrences_keep_their_order(shorter, a, b, j);
        let i = choose|i: int| 0 <= i < j && #[trigger] shorter[i] == before[a];
        assert(streams[i] == all[a]);
    } else {
        assert(before.contains(all[a])) by {
            if a < before.len() {
                assert(all[a] == before[a]);
            }
        }
        assert(shorter.contains(all[a]));
        let i = choose|i: int| 0 <= i < shorter.len() && shorter[i] == all[a];
        assert(streams[i] == all[a]);
    }
}

/// Adds a stream to a list of distinct streams where it is not yet in it.
pub(crate) fn push_stream(streams: &mut Vec<StreamId>, stream: StreamId)
    ensures
        final(streams)@ == if old(streams)@.contains(stream) {
            old(streams)@
        } else {
            old(streams)@.push(stream)
        },
{
    let mut i: usize = 0;
    while i < streams.len()
        invariant
            i <= streams@.len(),
            streams@ == old(streams)@,
            forall|j: int| 0 <= j < i ==> #[trigger] streams@[j] != stream,
        decreases streams@.len() - i,
    {
        if streams[i] == stream {
            assert(streams@[i as int] == stream);
            return;
        }
        i = i + 1;
    }
    streams.push(stream);
}

/// How memory is allocated from now on.
#[derive(Clone, Copy, Debug, PartialEq, Eq, Structural)]
pub enum MemoryAllocationMode {
    /// As the memory configuration says.
    Auto,
    /// For data that stays.
    Persistent,
}

/// An operation on a stream.
#[derive(Clone, Copy, Debug, PartialEq, Eq, Structural)]
pub enum StreamOperation {
    /// Send everything to the device.
    Flush,
    /// Wait until the device has done everything.
    Sync,
    /// Begin to measure.
    StartProfile,
    /// End the measurement with the given token.
    EndProfile { token: u64 },
    /// Tell how much memory is in use.
    MemoryUsage,
    /// Release memory, also such as would be kept for later were it not asked for explicitly.
    MemoryCleanup { explicit: bool },
    /// Change how memory is allocated.
    AllocationMode { mode: MemoryAllocationMode },
}

/// An operation on a stream, and the streams whose waiting tasks are executed before.
#[derive(Debug, PartialEq, Eq)]
pub struct StreamRequest {
    pub execute: Vec<StreamId>,
    pub stream: StreamId,
    pub operation: StreamOperation,
}

impl StreamRequest {
    /// Whether this asks for the operation on the stream, after the waiting tasks of that stream
    /// and of no other.
    pub open spec fn is(self, stream: StreamId, operation: StreamOperation) -> bool {
        &&& self.execute@ == seq![stream]
        &&& self.stream == stream
        &&& self.operation == operation
    }
}

/// A request to find the resource of a binding, and the streams whose waiting tasks are executed
/// before.
#[derive(Debug, PartialEq, Eq)]
pub struct ResourceRequest {
    pub execute: Vec<StreamId>,
    pub binding: Binding,
}

impl WgpuServer {
    fn on_stream(stream: StreamId, operation: StreamOperation) -> (request: StreamRequest)
        ensures
            request.is(stream, operation),
            request.execute@ == seq![stream],
            request.stream == stream,
            request.operation == operation,
    {
        let execute: Vec<StreamId> = vec![stream];
        assert(execute@ =~= seq![stream]);
        StreamRequest { execute, stream, operation }
    }

    /// Flush all outstanding tasks of a stream.
    pub fn flush(&self, stream_id: StreamId) -> (request: StreamRequest)
        ensures
            request.is(stream_id, StreamOperation::Flush),
            request.execute@ == seq![stream_id],
            request.stream == stream_id,
            request.operation == StreamOperation::Flush,
    {
        Self::on_stream(stream_id, StreamOperation::Flush)
    }

    /// Wait for the completion of every task of a stream.
    pub fn sync(&self, stream_id: StreamId) -> (request: StreamRequest)
        ensures
            request.is(stream_id, StreamOperation::Sync),
            request.execute@ == seq![stream_id],
            request.stream == stream_id,
            request.operation == StreamOperation::Sync,
    {
        Self::on_stream(stream_id, StreamOperation::Sync)
    }

    /// Begin to measure what a stream does from now on.
    pub fn start_profile(&self, stream_id: StreamId) -> (request: StreamRequest)
        ensures
            request.is(stream_id, StreamOperation::StartProfile),
            request.execute@ == seq![stream_id],
            request.stream == stream_id,
            request.operation == StreamOperation::StartProfile,
    {
        Self::on_stream(stream_id, StreamOperation::StartProfile)
    }

    /// End a measurement.
    pub fn end_profile(&self, stream_id: StreamId, token: u64) -> (request: StreamRequest)
        ensures
            request.is(stream_id, StreamOperation::EndProfile { token }),
            request.execute@ == seq![stream_id],
            request.stream == stream_id,
            request.operation == (StreamOperation::EndProfile { token }),
    {
        Self::on_stream(stream_id, StreamOperation::EndProfile { token })
    }

    /// The memory that a stream uses.
    pub fn memory_usage(&self, stream_id: StreamId) -> (request: StreamRequest)
        ensures
            request.is(stream_id, StreamOperation::MemoryUsage),
            request.execute@ == seq![stream_id],
            request.stream == stream_id,
            request.operation == StreamOperation::MemoryUsage,
    {
        Self::on_stream(stream_id, StreamOperation::MemoryUsage)
    }

    /// Release the memory of a stream that can be released.
    pub fn memory_cleanup(&self, stream_id: StreamId) -> (request: StreamRequest)
        ensures
            request.is(stream_id, StreamOperation::MemoryCleanup { explicit: true }),
            request.execute@ == seq![stream_id],
            request.stream == stream_id,
            request.operation == (StreamOperation::MemoryCleanup { explicit: true }),
    {
        Self::on_stream(stream_id, StreamOperation::MemoryCleanup { explicit: true })
    }

    /// Change how memory is allocated on a stream.
    pub fn allocation_mode(&self, mode: MemoryAllocationMode, stream_id: StreamId) -> (request:
        StreamRequest)
        ensures
            request.is(stream_id, StreamOperation::AllocationMode { mode }),
            request.execute@ == seq![stream_id],
            request.stream == stream_id,
            request.operation == (StreamOperation::AllocationMode { mode }),
    {
        Self::on_stream(stream_id, StreamOperation::AllocationMode { mode })
    }

    /// Find the resource of a binding, once the stream that asks and the stream that the binding
    /// was created on have executed their waiting tasks.
    pub fn get_resource(&self, binding: Binding, stream_id: StreamId) -> (request: ResourceRequest)
        ensures
            request.execute@ == first_occurrences(seq![stream_id, binding.stream]),
            request.execute@ == if binding.stream == stream_id {
                seq![stream_id]
            } else {
                seq![stream_id, binding.stream]
            },
            request.binding == binding,
    {
        let mut execute: Vec<StreamId> = vec![stream_id];
        assert(execute@ =~= seq![stream_id]);
        if binding.stream != stream_id {
            execute.push(binding.stream);
        }
        proof {
            let both = seq![stream_id, binding.stream];
            reveal_with_fuel(first_occurrences, 3);
            assert(both.drop_last() =~= seq![stream_id]);
            assert(seq![stream_id].drop_last() =~= Seq::<StreamId>::empty());
            assert(first_occurrences(seq![stream_id]) =~= seq![stream_id]);
            assert(seq![stream_id].contains(binding.stream) <==> binding.stream == stream_id) by {
                assert(seq![stream_id][0] == stream_id);
            }
            assert(execute@ =~= first_occurrences(both));
        }
        ResourceRequest { execute, binding }
    }
}

} // verus!
