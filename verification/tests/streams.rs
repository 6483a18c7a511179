use cubecl_wgpu_server::kernel::{Backend, Features};
use cubecl_wgpu_server::memory::{Binding, StreamId};
use cubecl_wgpu_server::server::{
    SchedulerOptions, SchedulerStrategy, Settings, WgpuServer, SPIRV_CACHE_NAME, SPIRV_CACHE_PATH,
};
use cubecl_wgpu_server::streams::{
    MemoryAllocationMode, ResourceRequest, StreamOperation, StreamRequest,
};

fn stream(value: u64) -> StreamId {
    StreamId { value }
}

fn server() -> WgpuServer {
    WgpuServer::new(
        48,
        Backend::Metal,
        Features { spirv: true, msl: true },
        Settings { max_streams: 4, compilation_cache: true, compilation_log: true },
        None,
    )
}

fn binding(on: u64) -> Binding {
    Binding {
        memory: 1,
        offset_start: Some(2),
        offset_end: None,
        stream: stream(on),
        cursor: 3,
        size: 40,
    }
}

#[test]
fn new_server_is_set_up() {
    let server = server();
    assert_eq!(
        server.scheduler,
        SchedulerOptions {
            max_streams: 4,
            max_tasks: 48,
            strategy: SchedulerStrategy::Interleave
        }
    );
    assert_eq!(server.backend, Backend::Metal);
    assert_eq!(server.features, Features { spirv: true, msl: true });
    assert_eq!(server.pipeline_cache, None);
    assert!(server.spirv_cache);
    assert!(server.compilation_log);
}

#[test]
fn spirv_is_kept_only_where_it_is_compiled_and_configured() {
    for (spirv, cache) in [(false, false), (false, true), (true, false), (true, true)] {
        let server = WgpuServer::new(
            1,
            Backend::Vulkan,
            Features { spirv, msl: false },
            Settings { max_streams: 1, compilation_cache: cache, compilation_log: false },
            None,
        );
        assert_eq!(server.spirv_cache, spirv && cache);
        assert!(!server.compilation_log);
    }
}

#[test]
fn operations_follow_the_tasks_of_their_stream() {
    let server = server();
    let id = stream(6);
    let requests = [
        (server.flush(id), StreamOperation::Flush),
        (server.sync(id), StreamOperation::Sync),
        (server.start_profile(id), StreamOperation::StartProfile),
        (server.end_profile(id, 11), StreamOperation::EndProfile { token: 11 }),
        (server.memory_usage(id), StreamOperation::MemoryUsage),
        (server.memory_cleanup(id), StreamOperation::MemoryCleanup { explicit: true }),
        (
            server.allocation_mode(MemoryAllocationMode::Persistent, id),
            StreamOperation::AllocationMode { mode: MemoryAllocationMode::Persistent },
        ),
        (
            server.allocation_mode(MemoryAllocationMode::Auto, id),
            StreamOperation::AllocationMode { mode: MemoryAllocationMode::Auto },
        ),
    ];
    for (request, operation) in requests {
        assert_eq!(request, StreamRequest { execute: vec![id], stream: id, operation });
    }
}

#[test]
fn resource_of_another_stream_executes_both() {
    assert_eq!(
        server().get_resource(binding(9), stream(2)),
        ResourceRequest { execute: vec![stream(2), stream(9)], binding: binding(9) }
    );
}

#[test]
fn resource_of_the_same_stream_executes_it_once() {
    assert_eq!(
        server().get_resource(binding(2), stream(2)),
        ResourceRequest { execute: vec![stream(2)], binding: binding(2) }
    );
}

#[test]
fn spirv_kernels_have_a_store_of_their_own() {
    assert_eq!(SPIRV_CACHE_NAME, "wgpu-spirv");
    assert_eq!(SPIRV_CACHE_PATH, "spirv");
}
