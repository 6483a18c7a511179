//! What holds of whole launches.
use crate::kernel::{CompilationError, KernelId};
use crate::launch::{
    after_search, new_bindings, Bindings, BindingsResourceView, BindingsStep, BindingsStepView,
    LaunchError, LaunchStep, LaunchStepView, PendingBindingsView, PendingLaunch, PendingTaskView,
    Registration, RegistrationView,
};
use crate::memory::Binding;
use crate::pipeline::PipelineStep;
use crate::pipeline_laws::{expected_result, search, search_is_as_expected, PipelineWorld};
use crate::server::ServerView;
use crate::transfer::{read_streams, CopyDescriptor};
use crate::transfer_laws::read_executes_involved_streams;
use vstd::prelude::*;

verus! {

/// How many resources are missing.
pub open spec fn missing(step: BindingsStepView) -> nat {
    match step {
        BindingsStepView::Find(pending) => if pending.resources.len() < pending.buffers.len() {
            (pending.buffers.len() - pending.resources.len()) as nat
        } else {
            0
        },
        BindingsStepView::Ready(_) => 0,
    }
}

/// The prepared bindings that a step leads to, where `world` gives the resource of each binding
/// that is looked for, at its position.
pub open spec fn bindings_outcome(
    step: BindingsStepView,
    world: spec_fn(int, Binding) -> u64,
) -> BindingsResourceView
    decreases missing(step),
{
    match step {
        BindingsStepView::Ready(resources) => resources,
        BindingsStepView::Find(pending) => {
            let position = pending.resources.len() as int;
            let next = pending.with(world(position, pending.buffers[position])).next();
            if missing(next) < missing(step) {
                bindings_outcome(next, world)
            } else {
                arbitrary()
            }
        },
    }
}

/// Prepared bindings hold the resource of each buffer, in order, and the metadata and scalars as
/// they came.
pub open spec fn prepared(
    bindings: Bindings,
    world: spec_fn(int, Binding) -> u64,
) -> BindingsResourceView {
    BindingsResourceView {
        resources: Seq::new(bindings.buffers@.len(), |i: int| world(i, bindings.buffers@[i])),
        metadata: bindings.metadata,
        scalars: bindings.scalars,
    }
}

proof fn lemma_bindings_reach(
    pending: PendingBindingsView,
    bindings: Bindings,
    world: spec_fn(int, Binding) -> u64,
)
    requires
        pending.buffers == bindings.buffers@,
        pending.metadata == bindings.metadata,
        pending.scalars == bindings.scalars,
        pending.resources.len() <= pending.buffers.len(),
        forall|i: int|
            0 <= i < pending.resources.len() ==> #[trigger] pending.resources[i] == world(
                i,
                bindings.buffers@[i],
            ),
    ensures
        bindings_outcome(pending.next(), world) == prepared(bindings, world),
    decreases pending.buffers.len() - pending.resources.len(),
{
    if pending.resources.len() < pending.buffers.len() {
        let position = pending.resources.len() as int;
        lemma_bindings_reach(
            pending.with(world(position, pending.buffers[position])),
            bindings,
            world,
        );
    } else {
        assert(pending.resources =~= prepared(bindings, world).resources);
    }
}

/// Preparing bindings ends, with the resource of each buffer, in order, and nothing else changed.
pub proof fn bindings_are_prepared(bindings: Bindings, world: spec_fn(int, Binding) -> u64)
    ensures
        bindings_outcome(new_bindings(bindings).next(), world) == prepared(bindings, world),
{
    lemma_bindings_reach(new_bindings(bindings), bindings, world);
}

/// What a launch comes to, given what the world answers: a task to register, or an error.
pub open spec fn launch_outcome(
    server: ServerView,
    id: KernelId,
    launch: PendingLaunch,
    pipeline_world: PipelineWorld,
    resources: spec_fn(int, Binding) -> u64,
) -> Result<RegistrationView, LaunchError> {
    match search(server, id, pipeline_world).last() {
        PipelineStep::Done(result) => match after_search(launch, result) {
            LaunchStepView::Fail(error) => Err(error),
            LaunchStepView::Prepare { bindings, task } => Ok(
                task.with_resources(bindings_outcome(bindings, resources)),
            ),
        },
        _ => arbitrary(),
    }
}

/// A launch whose pipeline cannot be had fails with the reason, and registers nothing.
pub proof fn launch_without_pipeline_fails(
    server: ServerView,
    id: KernelId,
    launch: PendingLaunch,
    pipeline_world: PipelineWorld,
    resources: spec_fn(int, Binding) -> u64,
    error: CompilationError,
)
    requires
        expected_result(server, id, pipeline_world) == Err::<u64, CompilationError>(error),
    ensures
        launch_outcome(server, id, launch, pipeline_world, resources) == Err::<
            RegistrationView,
            LaunchError,
        >(LaunchError::CompilationError(error)),
{
    search_is_as_expected(server, id, pipeline_world);
}

/// A launch whose pipeline can be had registers one task on the stream that asks: the pipeline of
/// the kernel in the mode asked for, over the resources of the buffers in order. It depends on
/// exactly the buffers that it was given.
pub proof fn launch_registers_task(
    server: ServerView,
    id: KernelId,
    launch: PendingLaunch,
    pipeline_world: PipelineWorld,
    resources: spec_fn(int, Binding) -> u64,
    pipeline: u64,
)
    requires
        expected_result(server, id, pipeline_world) == Ok::<u64, CompilationError>(pipeline),
    ensures
        launch_outcome(server, id, launch, pipeline_world, resources) == Ok::<
            RegistrationView,
            LaunchError,
        >(
            RegistrationView {
                stream: launch.stream,
                pipeline,
                count: launch.count,
                resources: prepared(launch.bindings, resources),
                buffers: launch.bindings.buffers@,
            },
        ),
{
    search_is_as_expected(server, id, pipeline_world);
    bindings_are_prepared(launch.bindings, resources);
}

/// Before a stream reads, every kernel that it has launched is executed: the task waits on one of
/// the streams that are executed for the read.
pub proof fn read_executes_earlier_launches(
    server: ServerView,
    id: KernelId,
    launch: PendingLaunch,
    pipeline_world: PipelineWorld,
    resources: spec_fn(int, Binding) -> u64,
    read: Seq<CopyDescriptor>,
)
    ensures
        launch_outcome(server, id, launch, pipeline_world, resources) matches Ok(registration)
            ==> read_streams(launch.stream, read).contains(registration.stream),
{
    search_is_as_expected(server, id, pipeline_world);
    read_executes_involved_streams(launch.stream, read);
}

/// Once its pipeline is found, a launch goes on with that pipeline, and with its own count, stream
/// and buffers. The bindings that it waits for then, followed to their end, give each of its
/// buffers its own resource, in the order in which they were bound, with its own metadata and
/// scalars. Without a pipeline it fails with the reason.
pub proof fn launch_binds_its_buffers_in_order(
    launch: PendingLaunch,
    result: Result<u64, CompilationError>,
    resources: spec_fn(int, Binding) -> u64,
)
    ensures
        match result {
            Err(error) => after_search(launch, result) == LaunchStepView::Fail(
                LaunchError::CompilationError(error),
            ),
            Ok(pipeline) => after_search(launch, result) matches LaunchStepView::Prepare {
                bindings,
                task,
            } && {
                let bound = bindings_outcome(bindings, resources);
                &&& task.pipeline == pipeline
                &&& task.count == launch.count
                &&& task.stream == launch.stream
                &&& task.buffers == launch.bindings.buffers@
                &&& bound.resources.len() == launch.bindings.buffers@.len()
                &&& forall|i: int|
                    0 <= i < bound.resources.len() ==> #[trigger] bound.resources[i] == resources(
                        i,
                        launch.bindings.buffers@[i],
                    )
                &&& bound.metadata == launch.bindings.metadata
                &&& bound.scalars == launch.bindings.scalars
            },
        },
{
    bindings_are_prepared(launch.bindings, resources);
}

/// Bindings are prepared buffer by buffer: while a resource is missing, they wait for it,
/// unchanged; once none is missing, they are ready with the resources, the metadata and the
/// scalars. A resource that is found is the one of the next buffer.
pub proof fn bindings_go_buffer_by_buffer(
    bindings: Bindings,
    pending: PendingBindingsView,
    resource: u64,
)
    requires
        pending.resources.len() <= pending.buffers.len(),
    ensures
        pending.resources.len() < pending.buffers.len() ==> pending.next()
            == BindingsStepView::Find(pending),
        pending.resources.len() == pending.buffers.len() ==> {
            &&& pending.next() matches BindingsStepView::Ready(ready)
            &&& ready.resources == pending.resources
            &&& ready.metadata == pending.metadata
            &&& ready.scalars == pending.scalars
        },
        pending.with(resource).buffers == pending.buffers,
        pending.with(resource).metadata == pending.metadata,
        pending.with(resource).scalars == pending.scalars,
        pending.with(resource).resources.len() == pending.resources.len() + 1,
        pending.with(resource).resources.drop_last() == pending.resources,
        pending.with(resource).resources.last() == resource,
        new_bindings(bindings).buffers == bindings.buffers@,
        new_bindings(bindings).resources.len() == 0,
        new_bindings(bindings).metadata == bindings.metadata,
        new_bindings(bindings).scalars == bindings.scalars,
{
    assert(pending.with(resource).resources.drop_last() =~= pending.resources);
}

/// The task of a launch is registered with its own pipeline, count, stream and buffers, and with
/// the resources that were prepared for it.
pub proof fn task_is_registered_with_its_resources(
    task: PendingTaskView,
    resources: BindingsResourceView,
)
    ensures
        task.with_resources(resources).stream == task.stream,
        task.with_resources(resources).pipeline == task.pipeline,
        task.with_resources(resources).count == task.count,
        task.with_resources(resources).resources == resources,
        task.with_resources(resources).buffers == task.buffers,
{
}

/// A whole launch registers the pipeline that its search comes to, on the stream that asks, over
/// each of its buffers in the order in which they were bound, and depends on exactly those
/// buffers; where the search comes to an error, that is what the launch fails with.
pub proof fn launch_runs_what_it_was_given(
    server: ServerView,
    id: KernelId,
    launch: PendingLaunch,
    pipeline_world: PipelineWorld,
    resources: spec_fn(int, Binding) -> u64,
)
    ensures
        search(server, id, pipeline_world).last() matches PipelineStep::Done(result) && match result {
            Err(error) => launch_outcome(server, id, launch, pipeline_world, resources) == Err::<
                RegistrationView,
                LaunchError,
            >(LaunchError::CompilationError(error)),
            Ok(pipeline) => launch_outcome(
                server,
                id,
                launch,
                pipeline_world,
                resources,
            ) matches Ok(registration) && {
                &&& registration.stream == launch.stream
                &&& registration.pipeline == pipeline
                &&& registration.count == launch.count
                &&& registration.buffers == launch.bindings.buffers@
                &&& registration.resources.resources.len() == launch.bindings.buffers@.len()
                &&& forall|i: int|
                    0 <= i < launch.bindings.buffers@.len()
                        ==> #[trigger] registration.resources.resources[i] == resources(
                        i,
                        launch.bindings.buffers@[i],
                    )
                &&& registration.resources.metadata == launch.bindings.metadata
                &&& registration.resources.scalars == launch.bindings.scalars
            },
        },
{
    search_is_as_expected(server, id, pipeline_world);
    bindings_are_prepared(launch.bindings, resources);
}

/// The steps of a launch are seen as what they hold.
pub proof fn launch_steps_are_seen_as_they_are(
    bindings: BindingsStep,
    step: LaunchStep,
    registration: Registration,
)
    ensures
        match (bindings, bindings@) {
            (BindingsStep::Find(pending), BindingsStepView::Find(seen)) => pending@ == seen,
            (BindingsStep::Ready(ready), BindingsStepView::Ready(seen)) => {
                &&& seen.resources == ready.resources@
                &&& seen.metadata == ready.metadata
                &&& seen.scalars == ready.scalars
            },
            _ => false,
        },
        match (step, step@) {
            (LaunchStep::Fail(error), LaunchStepView::Fail(seen)) => error == seen,
            (
                LaunchStep::Prepare { bindings, task },
                LaunchStepView::Prepare { bindings: waiting, task: seen },
            ) => {
                &&& waiting == bindings@
                &&& seen.pipeline == task.pipeline
                &&& seen.count == task.count
                &&& seen.stream == task.stream
                &&& seen.buffers == task.buffers@
            },
            _ => false,
        },
        registration@.stream == registration.stream,
        registration@.pipeline == registration.task.pipeline,
        registration@.count == registration.task.count,
        registration@.resources.resources == registration.task.resources.resources@,
        registration@.resources.metadata == registration.task.resources.metadata,
        registration@.resources.scalars == registration.task.resources.scalars,
        registration@.buffers == registration.buffers@,
{
}

} // verus!
