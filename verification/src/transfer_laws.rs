//! What holds of whole reads and writes.
use crate::layout::{is_row_major, strides_fit};
use crate::layout_laws::strides_count_from_the_last;
use crate::memory::{Binding, IoError, StreamId};
use crate::streams::{first_occurrences_are_distinct, first_occurrences_keep_their_order};
use crate::transfer::{
    read_resources, read_streams, streams_of, CopyDescriptor, PendingReadView, PendingWriteView,
    ReadStep, ReadStepView, WriteStep, WriteStepView,
};
use vstd::prelude::*;

verus! {

/// What comes of looking for a resource, given the position of the tensor and the binding that is
/// looked for.
pub type Resources = spec_fn(int, Binding) -> Result<u64, IoError>;

/// Whether tensor `i` can be copied: it is contiguous and its resource is found.
pub open spec fn can_be_copied(
    descriptors: Seq<CopyDescriptor>,
    world: Resources,
    i: int,
) -> bool {
    descriptors[i].is_contiguous() && world(i, descriptors[i].binding) is Ok
}

/// Why tensor `i` cannot be copied. The strides are looked at first.
pub open spec fn refusal(
    descriptors: Seq<CopyDescriptor>,
    world: Resources,
    i: int,
) -> IoError {
    if descriptors[i].is_contiguous() {
        world(i, descriptors[i].binding)->Err_0
    } else {
        IoError::UnsupportedStrides
    }
}

/// The resources of the first `count` tensors.
pub open spec fn found_resources(
    descriptors: Seq<CopyDescriptor>,
    world: Resources,
    count: nat,
) -> Seq<u64> {
    Seq::new(count, |i: int| world(i, descriptors[i].binding)->Ok_0)
}

/// A read before anything was done.
pub open spec fn new_read(stream: StreamId, descriptors: Seq<CopyDescriptor>) -> PendingReadView {
    PendingReadView { stream, descriptors, resources: Seq::empty() }
}

/// The last step of a read, given what the world answers.
pub open spec fn read_outcome(pending: PendingReadView, world: Resources) -> ReadStepView
    decreases pending.descriptors.len() - pending.resources.len(),
{
    if pending.resources.len() >= pending.descriptors.len() {
        pending.next()
    } else if pending.next() is Find {
        let position = pending.resources.len() as int;
        match world(position, pending.descriptors[position].binding) {
            Ok(resource) => read_outcome(pending.with(resource), world),
            Err(error) => ReadStepView::Fail(error),
        }
    } else {
        pending.next()
    }
}

/// Up to a tensor that cannot be copied, a read goes on.
proof fn lemma_read_reaches(
    stream: StreamId,
    descriptors: Seq<CopyDescriptor>,
    world: Resources,
    count: nat,
)
    requires
        count <= descriptors.len(),
        forall|i: int| 0 <= i < count ==> #[trigger] can_be_copied(descriptors, world, i),
    ensures
        read_outcome(new_read(stream, descriptors), world) == read_outcome(
            PendingReadView { stream, descriptors, resources: found_resources(descriptors, world, count) },
            world,
        ),
    decreases count,
{
    if count == 0 {
        assert(found_resources(descriptors, world, 0) =~= Seq::<u64>::empty());
    } else {
        let before = (count - 1) as nat;
        lemma_read_reaches(stream, descriptors, world, before);
        assert(can_be_copied(descriptors, world, before as int));
        assert(found_resources(descriptors, world, count) =~= found_resources(descriptors, world, before).push(
            world(before as int, descriptors[before as int].binding)->Ok_0,
        ));
    }
}

/// Where every tensor can be copied, a read executes the streams that are involved and then reads
/// all the resources, in order, with the shapes and element sizes of their tensors.
pub proof fn read_succeeds(
    stream: StreamId,
    descriptors: Seq<CopyDescriptor>,
    world: Resources,
)
    requires
        forall|i: int|
            0 <= i < descriptors.len() ==> #[trigger] can_be_copied(descriptors, world, i),
    ensures
        read_outcome(new_read(stream, descriptors), world) == (ReadStepView::Read {
            execute: read_streams(stream, descriptors),
            stream,
            resources: read_resources(descriptors, found_resources(descriptors, world, descriptors.len())),
        }),
{
    lemma_read_reaches(stream, descriptors, world, descriptors.len());
}

/// A read with a tensor that cannot be copied is refused because of the first such tensor, and no
/// stream is executed for it.
pub proof fn read_is_refused(
    stream: StreamId,
    descriptors: Seq<CopyDescriptor>,
    world: Resources,
    k: nat,
)
    requires
        k < descriptors.len(),
        forall|i: int| 0 <= i < k ==> #[trigger] can_be_copied(descriptors, world, i),
        !can_be_copied(descriptors, world, k as int),
    ensures
        read_outcome(new_read(stream, descriptors), world) == ReadStepView::Fail(
            refusal(descriptors, world, k as int),
        ),
{
    lemma_read_reaches(stream, descriptors, world, k);
}

/// Before a read, the stream that asks is executed first, then every stream that a tensor was
/// created on, and no stream twice.
pub proof fn read_executes_involved_streams(stream: StreamId, descriptors: Seq<CopyDescriptor>)
    ensures
        read_streams(stream, descriptors).len() > 0,
        read_streams(stream, descriptors)[0] == stream,
        read_streams(stream, descriptors).no_duplicates(),
        forall|other: StreamId|
            read_streams(stream, descriptors).contains(other) <==> other == stream || exists|i: int|
                0 <= i < descriptors.len() && (#[trigger] descriptors[i]).binding.stream == other,
{
    let all = seq![stream] + streams_of(descriptors);
    first_occurrences_are_distinct(all);
    assert forall|other: StreamId|
        read_streams(stream, descriptors).contains(other) <==> other == stream || exists|i: int|
            0 <= i < descriptors.len() && (#[trigger] descriptors[i]).binding.stream == other by {
        assert(read_streams(stream, descriptors).contains(other) <==> all.contains(other));
        if all.contains(other) && other != stream {
            let j = choose|j: int| 0 <= j < all.len() && all[j] == other;
            assert(descriptors[j - 1].binding.stream == other);
        }
        if other == stream {
            assert(all[0] == other);
        }
        if exists|i: int|
            0 <= i < descriptors.len() && (#[trigger] descriptors[i]).binding.stream == other {
            let i = choose|i: int|
                0 <= i < descriptors.len() && (#[trigger] descriptors[i]).binding.stream == other;
            assert(all[i + 1] == other);
        }
    }
}

/// A task that writes data to a resource.
pub ghost struct WriteTask {
    pub stream: StreamId,
    /// The number of the data.
    pub data: nat,
    pub resource: u64,
}

/// A write before anything was done.
pub open spec fn new_write(
    stream: StreamId,
    descriptors: Seq<CopyDescriptor>,
) -> PendingWriteView {
    PendingWriteView { stream, descriptors, written: 0 }
}

/// The tasks that a write registers from now on and how it ends, given what the world answers.
pub open spec fn write_outcome(pending: PendingWriteView, world: Resources) -> (
    Seq<WriteTask>,
    Result<(), IoError>,
)
    decreases pending.descriptors.len() - pending.written,
{
    match pending.next() {
        WriteStepView::Fail(error) => (seq![], Err(error)),
        WriteStepView::Find(_) if pending.written < pending.descriptors.len() => match world(
            pending.written as int,
            pending.descriptors[pending.written as int].binding,
        ) {
            Ok(resource) => match pending.register(resource) {
                WriteStepView::Register { stream, data, resource, pending: registered } => {
                    let (tasks, result) = write_outcome(registered.with_task(), world);
                    (seq![WriteTask { stream, data, resource }] + tasks, result)
                },
                _ => (seq![], Ok(())),
            },
            Err(error) => (seq![], Err(error)),
        },
        _ => (seq![], Ok(())),
    }
}

/// The tasks that write the data from number `start` to the one before `end`, each to the resource
/// of its tensor.
pub open spec fn tasks_between(
    stream: StreamId,
    descriptors: Seq<CopyDescriptor>,
    world: Resources,
    start: nat,
    end: nat,
) -> Seq<WriteTask> {
    Seq::new(
        (end - start) as nat,
        |i: int|
            WriteTask {
                stream,
                data: (start + i) as nat,
                resource: world(start + i, descriptors[start + i].binding)->Ok_0,
            },
    )
}

proof fn lemma_write_reaches(
    stream: StreamId,
    descriptors: Seq<CopyDescriptor>,
    world: Resources,
    start: nat,
    count: nat,
)
    requires
        start <= count <= descriptors.len(),
        forall|i: int| 0 <= i < count ==> #[trigger] can_be_copied(descriptors, world, i),
    ensures
        ({
            let (tasks, result) = write_outcome(
                PendingWriteView { stream, descriptors, written: start },
                world,
            );
            let (rest, end) = write_outcome(
                PendingWriteView { stream, descriptors, written: count },
                world,
            );
            tasks == tasks_between(stream, descriptors, world, start, count) + rest && result == end
        }),
    decreases count - start,
{
    let (rest, end) = write_outcome(
        PendingWriteView { stream, descriptors, written: count },
        world,
    );
    if start == count {
        assert(tasks_between(stream, descriptors, world, start, count) + rest =~= rest);
    } else {
        assert(can_be_copied(descriptors, world, start as int));
        lemma_write_reaches(stream, descriptors, world, start + 1, count);
        let first = WriteTask {
            stream,
            data: start,
            resource: world(start as int, descriptors[start as int].binding)->Ok_0,
        };
        assert(seq![first] + (tasks_between(stream, descriptors, world, start + 1, count) + rest)
            =~= tasks_between(stream, descriptors, world, start, count) + rest);
    }
}

/// Where every tensor can be copied, a write registers one task for each, in order, on the stream
/// that asks, and succeeds.
pub proof fn write_succeeds(
    stream: StreamId,
    descriptors: Seq<CopyDescriptor>,
    world: Resources,
)
    requires
        forall|i: int|
            0 <= i < descriptors.len() ==> #[trigger] can_be_copied(descriptors, world, i),
    ensures
        write_outcome(new_write(stream, descriptors), world) == (
            tasks_between(stream, descriptors, world, 0, descriptors.len()),
            Ok::<(), IoError>(()),
        ),
{
    lemma_write_reaches(stream, descriptors, world, 0, descriptors.len());
    let tasks = tasks_between(stream, descriptors, world, 0, descriptors.len());
    assert(tasks + seq![] =~= tasks);
}

/// A write with a tensor that cannot be copied is refused because of the first such tensor; the
/// tasks for the tensors before it are registered, and no others.
pub proof fn write_is_refused(
    stream: StreamId,
    descriptors: Seq<CopyDescriptor>,
    world: Resources,
    k: nat,
)
    requires
        k < descriptors.len(),
        forall|i: int| 0 <= i < k ==> #[trigger] can_be_copied(descriptors, world, i),
        !can_be_copied(descriptors, world, k as int),
    ensures
        write_outcome(new_write(stream, descriptors), world) == (
            tasks_between(stream, descriptors, world, 0, k),
            Err::<(), IoError>(refusal(descriptors, world, k as int)),
        ),
{
    lemma_write_reaches(stream, descriptors, world, 0, k);
    let tasks = tasks_between(stream, descriptors, world, 0, k);
    assert(tasks + seq![] =~= tasks);
}

/// Whatever comes of a write, its tasks wait on the stream that asks.
proof fn lemma_tasks_wait_on_stream(pending: PendingWriteView, world: Resources)
    ensures
        forall|i: int|
            0 <= i < write_outcome(pending, world).0.len() ==> (#[trigger] write_outcome(
                pending,
                world,
            ).0[i]).stream == pending.stream,
    decreases pending.descriptors.len() - pending.written,
{
    if pending.written < pending.descriptors.len() {
        let rest = write_outcome(pending.with_task(), world).0;
        lemma_tasks_wait_on_stream(pending.with_task(), world);
        assert forall|i: int| 0 <= i < write_outcome(pending, world).0.len() implies (
        #[trigger] write_outcome(pending, world).0[i]).stream == pending.stream by {
            if i > 0 {
                assert(write_outcome(pending, world).0[i] == rest[i - 1]);
            }
        }
    }
}

/// Before a stream reads, every task that it has written data with is executed: the task waits on
/// one of the streams that are executed for the read, also where the write was refused later on.
pub proof fn read_executes_earlier_writes(
    stream: StreamId,
    written: Seq<CopyDescriptor>,
    world: Resources,
    read: Seq<CopyDescriptor>,
)
    ensures
        forall|i: int|
            0 <= i < write_outcome(new_write(stream, written), world).0.len() ==> read_streams(
                stream,
                read,
            ).contains(
                (#[trigger] write_outcome(new_write(stream, written), world).0[i]).stream,
            ),
{
    lemma_tasks_wait_on_stream(new_write(stream, written), world);
    read_executes_involved_streams(stream, read);
}

/// The strides that a new tensor gets are those, and the only ones, with which a tensor of its
/// shape is read and written.
pub proof fn created_tensor_can_be_copied(descriptor: CopyDescriptor, strides: Seq<usize>)
    requires
        is_row_major(descriptor.shape@, strides),
    ensures
        descriptor.is_contiguous() <==> descriptor.strides@ == strides,
{
    if descriptor.is_contiguous() {
        assert forall|i: int| 0 <= i < strides.len() implies descriptor.strides@[i]
            == strides[i] by {
            assert(strides[i] == crate::layout::row_major_stride(descriptor.shape@, i));
        }
        assert(descriptor.strides@ =~= strides);
    }
}

/// A tensor is contiguous exactly where its strides count from its last dimension, and it can be
/// computed how it should be laid out exactly where its strides can be computed.
pub proof fn contiguous_tensors_count_from_the_last(descriptor: CopyDescriptor)
    ensures
        descriptor.is_contiguous() <==> {
            &&& descriptor.strides@.len() == descriptor.shape@.len()
            &&& descriptor.shape@.len() > 0 ==> descriptor.strides@[descriptor.shape@.len() - 1]
                == 1
            &&& forall|i: int, j: int|
                #![trigger descriptor.strides@[i], descriptor.shape@[j]]
                0 <= i && j == i + 1 && j < descriptor.shape@.len() ==> descriptor.strides@[i]
                    == descriptor.strides@[j] * descriptor.shape@[j]
        },
        descriptor.is_computable() <==> strides_fit(descriptor.shape@),
{
    strides_count_from_the_last(descriptor.shape@, descriptor.strides@);
}

/// A step of a read is seen as what it holds.
pub proof fn read_step_is_seen_as_it_is(step: ReadStep)
    ensures
        match (step, step@) {
            (ReadStep::Find(pending), ReadStepView::Find(seen)) => pending@ == seen,
            (
                ReadStep::Read { execute, stream, resources },
                ReadStepView::Read { execute: streams, stream: on, resources: seen },
            ) => {
                &&& streams == execute@
                &&& on == stream
                &&& seen.len() == resources@.len()
                &&& forall|i: int|
                    0 <= i < seen.len() ==> {
                        &&& (#[trigger] seen[i]).resource == resources@[i].resource
                        &&& seen[i].shape == resources@[i].shape@
                        &&& seen[i].elem_size == resources@[i].elem_size
                    }
            },
            (ReadStep::Fail(error), ReadStepView::Fail(seen)) => error == seen,
            _ => false,
        },
{
}

/// A step of a write is seen as what it holds.
pub proof fn write_step_is_seen_as_it_is(step: WriteStep)
    ensures
        match (step, step@) {
            (WriteStep::Find(pending), WriteStepView::Find(seen)) => pending@ == seen,
            (
                WriteStep::Register { stream, data, resource, pending },
                WriteStepView::Register { stream: on, data: number, resource: to, pending: seen },
            ) => on == stream && number == data && to == resource && seen == pending@,
            (WriteStep::Done, WriteStepView::Done) => true,
            (WriteStep::Fail(error), WriteStepView::Fail(seen)) => error == seen,
            _ => false,
        },
{
}

/// A read looks for the resources tensor by tensor: while one is missing, it either waits for it,
/// unchanged, or is refused for the strides of its tensor; once none is missing, it reads each
/// tensor with its own resource, shape and element size. A resource that is found is the one of
/// the next tensor.
pub proof fn read_goes_tensor_by_tensor(pending: PendingReadView, resource: u64, position: nat)
    requires
        pending.resources.len() <= pending.descriptors.len(),
    ensures
        pending.resources.len() < pending.descriptors.len() ==> pending.next() == if
            pending.descriptors[pending.resources.len() as int].is_contiguous() {
            ReadStepView::Find(pending)
        } else {
            ReadStepView::Fail(IoError::UnsupportedStrides)
        },
        pending.resources.len() == pending.descriptors.len() ==> {
            &&& pending.next() matches ReadStepView::Read { execute, stream, resources }
            &&& execute == read_streams(pending.stream, pending.descriptors)
            &&& stream == pending.stream
            &&& resources.len() == pending.descriptors.len()
            &&& forall|i: int|
                0 <= i < resources.len() ==> {
                    &&& (#[trigger] resources[i]).resource == pending.resources[i]
                    &&& resources[i].shape == pending.descriptors[i].shape@
                    &&& resources[i].elem_size == pending.descriptors[i].elem_size
                }
        },
        pending.with(resource).stream == pending.stream,
        pending.with(resource).descriptors == pending.descriptors,
        pending.with(resource).resources.len() == pending.resources.len() + 1,
        pending.with(resource).resources.drop_last() == pending.resources,
        pending.with(resource).resources.last() == resource,
        pending.computable_at(position) <==> position >= pending.descriptors.len() || strides_fit(
            pending.descriptors[position as int].shape@,
        ),
{
    assert(pending.with(resource).resources.drop_last() =~= pending.resources);
}

/// A write looks for the resources tensor by tensor: it waits, unchanged, for the resource of the
/// next tensor, or is refused for its strides; a resource that is found gets the data of its own
/// tensor, on the stream that asks; after the last tensor the write is done.
pub proof fn write_goes_tensor_by_tensor(pending: PendingWriteView, found: u64, position: nat)
    requires
        pending.written <= pending.descriptors.len(),
    ensures
        pending.next() is Done <==> pending.written == pending.descriptors.len(),
        pending.written < pending.descriptors.len() ==> pending.next() == if
            pending.descriptors[pending.written as int].is_contiguous() {
            WriteStepView::Find(pending)
        } else {
            WriteStepView::Fail(IoError::UnsupportedStrides)
        },
        pending.register(found) matches WriteStepView::Register {
            stream,
            data,
            resource,
            pending: waiting,
        } && {
            &&& stream == pending.stream
            &&& data == pending.written
            &&& resource == found
            &&& waiting == pending
        },
        pending.with_task().stream == pending.stream,
        pending.with_task().descriptors == pending.descriptors,
        pending.with_task().written == pending.written + 1,
        pending.computable_at(position) <==> position >= pending.descriptors.len() || strides_fit(
            pending.descriptors[position as int].shape@,
        ),
{
}

/// Where every tensor is contiguous and its resource is found, a read ends with reading exactly
/// the tensors that it was asked for, in order: each from the resource of its own binding, with
/// its own shape and element size, on the stream that asks, and after that stream and the stream
/// of each tensor were executed.
pub proof fn read_hands_out_every_tensor(
    asking: StreamId,
    descriptors: Seq<CopyDescriptor>,
    world: Resources,
)
    requires
        forall|i: int|
            0 <= i < descriptors.len() ==> (#[trigger] descriptors[i]).is_contiguous() && world(
                i,
                descriptors[i].binding,
            ) is Ok,
    ensures
        read_outcome(new_read(asking, descriptors), world) matches ReadStepView::Read {
            execute,
            stream,
            resources,
        } && {
            &&& stream == asking
            &&& resources.len() == descriptors.len()
            &&& forall|i: int|
                0 <= i < resources.len() ==> {
                    &&& world(i, descriptors[i].binding) == Ok::<u64, IoError>(
                        (#[trigger] resources[i]).resource,
                    )
                    &&& resources[i].shape == descriptors[i].shape@
                    &&& resources[i].elem_size == descriptors[i].elem_size
                }
            &&& execute.no_duplicates()
            &&& execute.len() > 0 && execute[0] == asking
            &&& forall|i: int|
                0 <= i < descriptors.len() ==> execute.contains(
                    (#[trigger] descriptors[i]).binding.stream,
                )
            &&& forall|other: StreamId| #[trigger]
                execute.contains(other) && other != asking ==> exists|i: int|
                    0 <= i < descriptors.len() && (#[trigger] descriptors[i]).binding.stream
                        == other
        },
{
    assert forall|i: int| 0 <= i < descriptors.len() implies #[trigger] can_be_copied(
        descriptors,
        world,
        i,
    ) by {
        assert(descriptors[i].is_contiguous());
    }
    read_succeeds(asking, descriptors, world);
    read_executes_involved_streams(asking, descriptors);
    let resources = read_resources(
        descriptors,
        found_resources(descriptors, world, descriptors.len()),
    );
    assert forall|i: int| 0 <= i < resources.len() implies {
        &&& world(i, descriptors[i].binding) == Ok::<u64, IoError>(
            (#[trigger] resources[i]).resource,
        )
        &&& resources[i].shape == descriptors[i].shape@
        &&& resources[i].elem_size == descriptors[i].elem_size
    } by {
        assert(can_be_copied(descriptors, world, i));
    }
}

/// A read is refused because of the first tensor that is not contiguous or whose resource is not
/// found: with the strides as the reason in the first case, and with what came back in the second.
pub proof fn read_is_refused_for_its_first_bad_tensor(
    stream: StreamId,
    descriptors: Seq<CopyDescriptor>,
    world: Resources,
    k: nat,
)
    requires
        k < descriptors.len(),
        forall|i: int|
            0 <= i < k ==> (#[trigger] descriptors[i]).is_contiguous() && world(
                i,
                descriptors[i].binding,
            ) is Ok,
        !descriptors[k as int].is_contiguous() || world(
            k as int,
            descriptors[k as int].binding,
        ) is Err,
    ensures
        read_outcome(new_read(stream, descriptors), world) matches ReadStepView::Fail(error) && {
            &&& !descriptors[k as int].is_contiguous() ==> error == IoError::UnsupportedStrides
            &&& descriptors[k as int].is_contiguous() ==> world(
                k as int,
                descriptors[k as int].binding,
            ) == Err::<u64, IoError>(error)
        },
{
    assert forall|i: int| 0 <= i < k implies #[trigger] can_be_copied(descriptors, world, i) by {
        assert(descriptors[i].is_contiguous());
    }
    read_is_refused(stream, descriptors, world, k);
}

/// The streams of the tensors are executed in the order of the tensors: before a tensor of a
/// stream that is executed later comes one of any stream that is executed earlier, but for the
/// stream that asks, which is executed first in any case.
pub proof fn read_executes_streams_in_order(
    stream: StreamId,
    descriptors: Seq<CopyDescriptor>,
    a: int,
    b: int,
    j: int,
)
    requires
        0 < a < b < read_streams(stream, descriptors).len(),
        0 <= j < descriptors.len(),
        descriptors[j].binding.stream == read_streams(stream, descriptors)[b],
    ensures
        exists|i: int|
            0 <= i < j && (#[trigger] descriptors[i]).binding.stream == read_streams(
                stream,
                descriptors,
            )[a],
{
    let all = seq![stream] + streams_of(descriptors);
    read_executes_involved_streams(stream, descriptors);
    assert(all[j + 1] == read_streams(stream, descriptors)[b]);
    first_occurrences_keep_their_order(all, a, b, j + 1);
    let i = choose|i: int|
        0 <= i < j + 1 && #[trigger] all[i] == read_streams(stream, descriptors)[a];
    assert(read_streams(stream, descriptors)[0] == stream);
    assert(i > 0);
    assert(descriptors[i - 1].binding.stream == read_streams(stream, descriptors)[a]);
}

/// Where every tensor is contiguous and its resource is found, a write registers exactly one task
/// for each tensor, in order, on the stream that asks: it writes the data of that tensor to the
/// resource of that tensor's binding.
pub proof fn write_registers_every_tensor(
    stream: StreamId,
    descriptors: Seq<CopyDescriptor>,
    world: Resources,
)
    requires
        forall|i: int|
            0 <= i < descriptors.len() ==> (#[trigger] descriptors[i]).is_contiguous() && world(
                i,
                descriptors[i].binding,
            ) is Ok,
    ensures
        ({
            let (tasks, result) = write_outcome(new_write(stream, descriptors), world);
            &&& result is Ok
            &&& tasks.len() == descriptors.len()
            &&& forall|i: int|
                0 <= i < tasks.len() ==> {
                    &&& (#[trigger] tasks[i]).stream == stream
                    &&& tasks[i].data == i
                    &&& world(i, descriptors[i].binding) == Ok::<u64, IoError>(tasks[i].resource)
                }
        }),
{
    assert forall|i: int| 0 <= i < descriptors.len() implies #[trigger] can_be_copied(
        descriptors,
        world,
        i,
    ) by {
        assert(descriptors[i].is_contiguous());
    }
    write_succeeds(stream, descriptors, world);
    let tasks = tasks_between(stream, descriptors, world, 0, descriptors.len());
    assert forall|i: int| 0 <= i < tasks.len() implies world(i, descriptors[i].binding) == Ok::<
        u64,
        IoError,
    >((#[trigger] tasks[i]).resource) by {
        assert(can_be_copied(descriptors, world, i));
    }
}

/// A write is refused because of the first tensor that is not contiguous or whose resource is not
/// found; exactly the tasks of the tensors before it are registered.
pub proof fn write_is_refused_at_its_first_bad_tensor(
    stream: StreamId,
    descriptors: Seq<CopyDescriptor>,
    world: Resources,
    k: nat,
)
    requires
        k < descriptors.len(),
        forall|i: int|
            0 <= i < k ==> (#[trigger] descriptors[i]).is_contiguous() && world(
                i,
                descriptors[i].binding,
            ) is Ok,
        !descriptors[k as int].is_contiguous() || world(
            k as int,
            descriptors[k as int].binding,
        ) is Err,
    ensures
        ({
            let (tasks, result) = write_outcome(new_write(stream, descriptors), world);
            &&& result matches Err(error)
            &&& !descriptors[k as int].is_contiguous() ==> error == IoError::UnsupportedStrides
            &&& descriptors[k as int].is_contiguous() ==> world(
                k as int,
                descriptors[k as int].binding,
            ) == Err::<u64, IoError>(error)
            &&& tasks.len() == k
            &&& forall|i: int|
                0 <= i < tasks.len() ==> {
                    &&& (#[trigger] tasks[i]).stream == stream
                    &&& tasks[i].data == i
                    &&& world(i, descriptors[i].binding) == Ok::<u64, IoError>(tasks[i].resource)
                }
        }),
{
    assert forall|i: int| 0 <= i < k implies #[trigger] can_be_copied(descriptors, world, i) by {
        assert(descriptors[i].is_contiguous());
    }
    write_is_refused(stream, descriptors, world, k);
    let tasks = tasks_between(stream, descriptors, world, 0, k);
    assert forall|i: int| 0 <= i < tasks.len() implies world(i, descriptors[i].binding) == Ok::<
        u64,
        IoError,
    >((#[trigger] tasks[i]).resource) by {
        assert(can_be_copied(descriptors, world, i));
    }
}

} // verus!
