//! Launches: a kernel is executed over buffers.
use crate::kernel::{CompilationError, ExecutionMode, KernelId};
use crate::memory::{Binding, StreamId};
use crate::pipeline::{after_request, PipelineStep};
use crate::server::WgpuServer;
use vstd::prelude::*;

verus! {

/// How many cubes are dispatched.
#[derive(Clone, Copy, Debug, PartialEq, Eq)]
pub enum CubeCount {
    /// A known count of x, y and z cubes.
    Static(u32, u32, u32),
    /// The count that this buffer holds.
    Dynamic(Binding),
}

/// Packed metadata of the tensors.
#[derive(Debug, PartialEq, Eq)]
pub struct MetadataBinding {
    pub data: Vec<u64>,
    /// Length of the static portion.
    pub static_len: usize,
}

/// Scalars of one type.
#[derive(Debug, PartialEq, Eq)]
pub struct ScalarBinding {
    /// The number of the type.
    pub ty: u64,
    /// Unpadded length of the data.
    pub length: usize,
    pub data: Vec<u64>,
}

/// What a kernel is executed over.
#[derive(Debug, PartialEq, Eq)]
pub struct Bindings {
    pub buffers: Vec<Binding>,
    pub metadata: MetadataBinding,
    /// The scalars, in the order of their types.
    pub scalars: Vec<ScalarBinding>,
}

/// What a kernel is executed over, with the buffers as resources.
#[derive(Debug, PartialEq, Eq)]
pub struct BindingsResource {
    /// The numbers of the resources.
    pub resources: Vec<u64>,
    pub metadata: MetadataBinding,
    pub scalars: Vec<ScalarBinding>,
}

/// Bindings that wait for the resource of one of their buffers.
#[derive(Debug, PartialEq, Eq)]
pub struct PendingBindings {
    buffers: Vec<Binding>,
    resources: Vec<u64>,
    metadata: MetadataBinding,
    scalars: Vec<ScalarBinding>,
}

/// What [`PendingBindings`] are: the bindings, and the resources of the first buffers.
pub ghost struct PendingBindingsView {
    pub buffers: Seq<Binding>,
    pub resources: Seq<u64>,
    pub metadata: MetadataBinding,
    pub scalars: Vec<ScalarBinding>,
}

/// What [`BindingsResource`] is.
pub ghost struct BindingsResourceView {
    pub resources: Seq<u64>,
    pub metadata: MetadataBinding,
    pub scalars: Vec<ScalarBinding>,
}

/// What has to be done next to prepare bindings.
#[derive(Debug, PartialEq, Eq)]
pub enum BindingsStep {
    /// Find the resource of [`PendingBindings::binding`] on the binding's stream
    /// ([`PendingBindings::found`]).
    Find(PendingBindings),
    /// All the resources are found.
    Ready(BindingsResource),
}

/// What a [`BindingsStep`] is.
pub ghost enum BindingsStepView {
    Find(PendingBindingsView),
    Ready(BindingsResourceView),
}

impl View for PendingBindings {
    type V = PendingBindingsView;

    closed spec fn view(&self) -> PendingBindingsView {
        PendingBindingsView {
            buffers: self.buffers@,
            resources: self.resources@,
            metadata: self.metadata,
            scalars: self.scalars,
        }
    }
}

impl View for BindingsResource {
    type V = BindingsResourceView;

    open spec fn view(&self) -> BindingsResourceView {
        BindingsResourceView {
            resources: self.resources@,
            metadata: self.metadata,
            scalars: self.scalars,
        }
    }
}

impl View for BindingsStep {
    type V = BindingsStepView;

    open spec fn view(&self) -> BindingsStepView {
        match *self {
            BindingsStep::Find(pending) => BindingsStepView::Find(pending@),
            BindingsStep::Ready(resources) => BindingsStepView::Ready(resources@),
        }
    }
}

impl BindingsStep {
    /// Whether bindings that wait are such as the server has made.
    pub open spec fn wf(self) -> bool {
        self matches BindingsStep::Find(pending) ==> pending.wf()
    }
}

impl PendingBindingsView {
    /// The step once the resources so far are found.
    pub open spec fn next(self) -> BindingsStepView {
        if self.resources.len() == self.buffers.len() {
            BindingsStepView::Ready(
                BindingsResourceView {
                    resources: self.resources,
                    metadata: self.metadata,
                    scalars: self.scalars,
                },
            )
        } else {
            BindingsStepView::Find(self)
        }
    }

    /// The bindings with one more resource.
    pub open spec fn with(self, resource: u64) -> PendingBindingsView {
        PendingBindingsView { resources: self.resources.push(resource), ..self }
    }
}

/// Bindings before any resource was found.
pub open spec fn new_bindings(bindings: Bindings) -> PendingBindingsView {
    PendingBindingsView {
        buffers: bindings.buffers@,
        resources: Seq::empty(),
        metadata: bindings.metadata,
        scalars: bindings.scalars,
    }
}

impl PendingBindings {
    /// Whether a resource is missing.
    pub open spec fn wf(self) -> bool {
        self@.resources.len() < self@.buffers.len()
    }

    /// The binding whose resource is to be found.
    pub fn binding(&self) -> (binding: Binding)
        requires
            self.wf(),
        ensures
            binding == self@.buffers[self@.resources.len() as int],
    {
        self.buffers[self.resources.len()]
    }

    fn advance(self) -> (step: BindingsStep)
        requires
            self@.resources.len() <= self@.buffers.len(),
        ensures
            step.wf(),
            step@ == self@.next(),
    {
        if self.resources.len() == self.buffers.len() {
            BindingsStep::Ready(
                BindingsResource {
                    resources: self.resources,
                    metadata: self.metadata,
                    scalars: self.scalars,
                },
            )
        } else {
            BindingsStep::Find(self)
        }
    }

    /// Goes on with the resource. Every buffer of a launch has one.
    pub fn found(self, resource: u64) -> (step: BindingsStep)
        requires
            self.wf(),
        ensures
            step.wf(),
            step@ == self@.with(resource).next(),
            match step {
                BindingsStep::Find(pending) => {
                    &&& pending@.buffers == self@.buffers
                    &&& pending@.resources == self@.resources.push(resource)
                    &&& pending@.metadata == self@.metadata
                    &&& pending@.scalars == self@.scalars
                },
                BindingsStep::Ready(prepared) => {
                    &&& prepared.resources@.len() == self@.buffers.len()
                    &&& prepared.resources@ == self@.resources.push(resource)
                    &&& prepared.metadata == self@.metadata
                    &&& prepared.scalars == self@.scalars
                },
            },
    {
        let mut next = self;
        next.resources.push(resource);
        next.advance()
    }
}

/// Why a launch failed.
#[derive(Debug, PartialEq, Eq)]
pub enum LaunchError {
    /// The kernel can't be compiled.
    CompilationError(CompilationError),
}

/// A launch that waits for its pipeline.
#[derive(Debug, PartialEq, Eq)]
pub struct PendingLaunch {
    pub count: CubeCount,
    pub bindings: Bindings,
    pub stream: StreamId,
}

/// A launch that waits for its resources.
#[derive(Debug, PartialEq, Eq)]
pub struct PendingTask {
    pub pipeline: u64,
    pub count: CubeCount,
    pub stream: StreamId,
    pub buffers: Vec<Binding>,
}

/// A task that executes a kernel.
#[derive(Debug, PartialEq, Eq)]
pub struct ExecuteTask {
    /// The number of the pipeline.
    pub pipeline: u64,
    pub count: CubeCount,
    pub resources: BindingsResource,
}

/// What follows once it is known what the search for the pipeline has come to.
#[derive(Debug, PartialEq, Eq)]
pub enum LaunchStep {
    /// The launch has failed; nothing was registered.
    Fail(LaunchError),
    /// Prepare the bindings ([`PendingTask::prepared`]).
    Prepare { bindings: BindingsStep, task: PendingTask },
}

/// A task to register on a stream, after the streams of the buffers that it depends on. The launch
/// has then succeeded.
#[derive(Debug, PartialEq, Eq)]
pub struct Registration {
    pub stream: StreamId,
    pub task: ExecuteTask,
    pub buffers: Vec<Binding>,
}

/// What a [`PendingTask`] is.
pub ghost struct PendingTaskView {
    pub pipeline: u64,
    pub count: CubeCount,
    pub stream: StreamId,
    pub buffers: Seq<Binding>,
}

/// What a [`LaunchStep`] is.
pub ghost enum LaunchStepView {
    Fail(LaunchError),
    Prepare { bindings: BindingsStepView, task: PendingTaskView },
}

/// What a [`Registration`] is.
pub ghost struct RegistrationView {
    pub stream: StreamId,
    pub pipeline: u64,
    pub count: CubeCount,
    pub resources: BindingsResourceView,
    pub buffers: Seq<Binding>,
}

impl View for PendingTask {
    type V = PendingTaskView;

    open spec fn view(&self) -> PendingTaskView {
        PendingTaskView {
            pipeline: self.pipeline,
            count: self.count,
            stream: self.stream,
            buffers: self.buffers@,
        }
    }
}

impl View for LaunchStep {
    type V = LaunchStepView;

    open spec fn view(&self) -> LaunchStepView {
        match *self {
            LaunchStep::Fail(error) => LaunchStepView::Fail(error),
            LaunchStep::Prepare { bindings, task } => LaunchStepView::Prepare {
                bindings: bindings@,
                task: task@,
            },
        }
    }
}

impl View for Registration {
    type V = RegistrationView;

    open spec fn view(&self) -> RegistrationView {
        RegistrationView {
            stream: self.stream,
            pipeline: self.task.pipeline,
            count: self.task.count,
            resources: self.task.resources@,
            buffers: self.buffers@,
        }
    }
}

impl LaunchStep {
    /// Whether bindings that wait are such as the server has made.
    pub open spec fn wf(self) -> bool {
        self matches LaunchStep::Prepare { bindings, .. } ==> bindings.wf()
    }
}

/// The step after the search for the pipeline.
pub open spec fn after_search(
    launch: PendingLaunch,
    result: Result<u64, CompilationError>,
) -> LaunchStepView {
    match result {
        Err(error) => LaunchStepView::Fail(LaunchError::CompilationError(error)),
        Ok(pipeline) => LaunchStepView::Prepare {
            bindings: new_bindings(launch.bindings).next(),
            task: PendingTaskView {
                pipeline,
                count: launch.count,
                stream: launch.stream,
                buffers: launch.bindings.buffers@,
            },
        },
    }
}

impl PendingTaskView {
    /// The registration of the task with the given resources.
    pub open spec fn with_resources(self, resources: BindingsResourceView) -> RegistrationView {
        RegistrationView {
            stream: self.stream,
            pipeline: self.pipeline,
            count: self.count,
            resources,
            buffers: self.buffers,
        }
    }
}

impl PendingLaunch {
    /// Goes on with what the search for the pipeline has come to.
    pub fn searched(self, result: Result<u64, CompilationError>) -> (step: LaunchStep)
        ensures
            step.wf(),
            step@ == after_search(self, result),
            match result {
                Err(error) => step == LaunchStep::Fail(LaunchError::CompilationError(error)),
                Ok(found) => {
                    &&& step matches LaunchStep::Prepare { bindings, task }
                    &&& task.pipeline == found
                    &&& task.count == self.count
                    &&& task.stream == self.stream
                    &&& task.buffers@ == self.bindings.buffers@
                    &&& match bindings {
                        BindingsStep::Find(pending) => {
                            &&& self.bindings.buffers@.len() > 0
                            &&& pending@.buffers == self.bindings.buffers@
                            &&& pending@.resources.len() == 0
                            &&& pending@.metadata == self.bindings.metadata
                            &&& pending@.scalars == self.bindings.scalars
                        },
                        BindingsStep::Ready(resources) => {
                            &&& self.bindings.buffers@.len() == 0
                            &&& resources.resources@.len() == 0
                            &&& resources.metadata == self.bindings.metadata
                            &&& resources.scalars == self.bindings.scalars
                        },
                    }
                },
            },
    {
        match result {
            Err(error) => LaunchStep::Fail(LaunchError::CompilationError(error)),
            Ok(pipeline) => {
                let buffers: Vec<Binding> = self.bindings.buffers.clone();
                assert(buffers@ =~= self.bindings.buffers@);
                let task = PendingTask {
                    pipeline,
                    count: self.count,
                    stream: self.stream,
                    buffers,
                };
                let bindings = WgpuServer::prepare_bindings(self.bindings);
                LaunchStep::Prepare { bindings, task }
            },
        }
    }
}

impl PendingTask {
    /// Goes on with the prepared bindings.
    pub fn prepared(self, resources: BindingsResource) -> (registration: Registration)
        ensures
            registration@ == self@.with_resources(resources@),
            registration.stream == self.stream,
            registration.task.pipeline == self.pipeline,
            registration.task.count == self.count,
            registration.task.resources == resources,
            registration.buffers == self.buffers,
    {
        Registration {
            stream: self.stream,
            task: ExecuteTask { pipeline: self.pipeline, count: self.count, resources },
            buffers: self.buffers,
        }
    }
}

impl WgpuServer {
    /// Starts to find the resources of all the buffers, each on the stream of its buffer.
    pub fn prepare_bindings(bindings: Bindings) -> (step: BindingsStep)
        ensures
            step.wf(),
            step@ == new_bindings(bindings).next(),
    {
        let pending = PendingBindings {
            buffers: bindings.buffers,
            resources: Vec::new(),
            metadata: bindings.metadata,
            scalars: bindings.scalars,
        };
        assert(pending@ == new_bindings(bindings)) by {
            assert(pending@.resources =~= Seq::<u64>::empty());
        }
        pending.advance()
    }

    /// Starts to launch a kernel: first its pipeline is searched for.
    pub fn launch(
        &self,
        kernel: u64,
        count: CubeCount,
        bindings: Bindings,
        mode: ExecutionMode,
        stream_id: StreamId,
    ) -> (result: (PendingLaunch, PipelineStep))
        ensures
            result.0 == (PendingLaunch { count, bindings, stream: stream_id }),
            result.1 == after_request(self@, KernelId { kernel, mode }),
    {
        let step = self.pipeline(kernel, mode);
        (PendingLaunch { count, bindings, stream: stream_id }, step)
    }
}

} // verus!
