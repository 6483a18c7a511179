use cubecl_wgpu_server::kernel::{
    AutoCompiler, Backend, CompilationError, ExecutionMode, Features, KernelId,
};
use cubecl_wgpu_server::launch::{
    Bindings, BindingsResource, BindingsStep, CubeCount, ExecuteTask, LaunchError, LaunchStep,
    MetadataBinding, Registration, ScalarBinding,
};
use cubecl_wgpu_server::memory::{Binding, StreamId};
use cubecl_wgpu_server::pipeline::PipelineStep;
use cubecl_wgpu_server::server::{Settings, WgpuServer};
use cubecl_wgpu_server::transfer::{CopyDescriptor, ReadStep};

fn server() -> WgpuServer {
    WgpuServer::new(
        32,
        Backend::Metal,
        Features { spirv: true, msl: true },
        Settings { max_streams: 2, compilation_cache: false, compilation_log: false },
        None,
    )
}

fn binding(memory: u64, on: u64) -> Binding {
    Binding {
        memory,
        offset_start: Some(16),
        offset_end: Some(0),
        stream: StreamId { value: on },
        cursor: 1,
        size: 64,
    }
}

fn metadata() -> MetadataBinding {
    MetadataBinding { data: vec![3, 4], static_len: 1 }
}

fn scalars() -> Vec<ScalarBinding> {
    vec![
        ScalarBinding { ty: 0, length: 1, data: vec![7] },
        ScalarBinding { ty: 2, length: 3, data: vec![8, 9] },
    ]
}

fn bindings(buffers: Vec<Binding>) -> Bindings {
    Bindings { buffers, metadata: metadata(), scalars: scalars() }
}

/// Finds the resource of each buffer: its memory's number and a hundred.
fn prepare(mut step: BindingsStep) -> (Vec<Binding>, BindingsResource) {
    let mut sought = Vec::new();
    loop {
        match step {
            BindingsStep::Find(pending) => {
                let binding = pending.binding();
                sought.push(binding);
                step = pending.found(binding.memory + 100);
            }
            BindingsStep::Ready(resources) => return (sought, resources),
        }
    }
}

#[test]
fn bindings_are_prepared_in_order() {
    let buffers = vec![binding(3, 0), binding(1, 4), binding(3, 0)];
    let (sought, resources) = prepare(WgpuServer::prepare_bindings(bindings(buffers.clone())));
    assert_eq!(sought, buffers);
    assert_eq!(
        resources,
        BindingsResource {
            resources: vec![103, 101, 103],
            metadata: metadata(),
            scalars: scalars()
        }
    );
}

#[test]
fn bindings_without_buffers_are_ready() {
    let (sought, resources) = prepare(WgpuServer::prepare_bindings(bindings(vec![])));
    assert_eq!(sought, vec![]);
    assert_eq!(resources.resources, Vec::<u64>::new());
}

#[test]
fn launch_registers_a_task_that_depends_on_its_buffers() {
    let buffers = vec![binding(3, 0), binding(1, 4)];
    for count in [CubeCount::Static(2, 3, 4), CubeCount::Dynamic(binding(9, 1))] {
        let (pending, step) = server().launch(
            12,
            count,
            bindings(buffers.clone()),
            ExecutionMode::Unchecked,
            StreamId { value: 4 },
        );
        assert_eq!(
            step,
            PipelineStep::Compile {
                id: KernelId { kernel: 12, mode: ExecutionMode::Unchecked },
                compiler: AutoCompiler::Msl,
                stable_name: None,
            }
        );
        let (step, task) = match pending.searched(Ok(77)) {
            LaunchStep::Prepare { bindings, task } => (bindings, task),
            step => panic!("{step:?}"),
        };
        let (sought, resources) = prepare(step);
        assert_eq!(sought, buffers);
        assert_eq!(
            task.prepared(resources),
            Registration {
                stream: StreamId { value: 4 },
                task: ExecuteTask {
                    pipeline: 77,
                    count,
                    resources: BindingsResource {
                        resources: vec![103, 101],
                        metadata: metadata(),
                        scalars: scalars(),
                    },
                },
                buffers: buffers.clone(),
            }
        );
    }
}

#[test]
fn read_follows_what_its_stream_has_launched() {
    let (pending, _) = server().launch(
        12,
        CubeCount::Static(1, 1, 1),
        bindings(vec![binding(3, 0)]),
        ExecutionMode::Checked,
        StreamId { value: 4 },
    );
    let registration = match pending.searched(Ok(1)) {
        LaunchStep::Prepare { bindings, task } => task.prepared(prepare(bindings).1),
        step => panic!("{step:?}"),
    };
    let tensor = CopyDescriptor {
        binding: binding(3, 0),
        shape: vec![4],
        strides: vec![1],
        elem_size: 4,
    };
    let pending = match server().read(vec![tensor], StreamId { value: 4 }) {
        ReadStep::Find(pending) => pending,
        step => panic!("{step:?}"),
    };
    match pending.found(Ok(103)) {
        ReadStep::Read { execute, .. } => {
            assert_eq!(execute, vec![StreamId { value: 4 }, StreamId { value: 0 }]);
            assert!(execute.contains(&registration.stream));
        }
        step => panic!("{step:?}"),
    }
}

#[test]
fn launch_without_pipeline_is_refused() {
    let (pending, _) = server().launch(
        12,
        CubeCount::Static(1, 1, 1),
        bindings(vec![binding(3, 0)]),
        ExecutionMode::Checked,
        StreamId { value: 0 },
    );
    let error = || CompilationError::Generic { reason: "no".to_string() };
    assert_eq!(
        pending.searched(Err(error())),
        LaunchStep::Fail(LaunchError::CompilationError(error()))
    );
}
