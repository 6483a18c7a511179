//! The server.
use crate::cache_file::PipelineCacheState;
use crate::kernel::{
    key_identifies_kernel, spec_compiler, AutoCompiler, Backend, Features, KernelId,
};
use crate::pipeline::{table_entries, PipelineTable};
use vstd::prelude::*;

verus! {

/// The name of the store that compiled SPIR-V kernels are kept in between runs.
pub const SPIRV_CACHE_NAME: &'static str = "wgpu-spirv";

/// The path of the SPIR-V kernels within their store.
pub const SPIRV_CACHE_PATH: &'static str = "spirv";

/// In which order the tasks of several streams are executed.
#[derive(Clone, Copy, Debug, PartialEq, Eq, Structural)]
pub enum SchedulerStrategy {
    /// The tasks of different streams take turns.
    Interleave,
    /// One stream after the other.
    Sequential,
}

/// How the scheduler of the server is set up.
#[derive(Clone, Copy, Debug, PartialEq, Eq, Structural)]
pub struct SchedulerOptions {
    /// Maximum number of streams.
    pub max_streams: u8,
    /// Number of waiting tasks at which a stream is executed.
    pub max_tasks: usize,
    pub strategy: SchedulerStrategy,
}

/// What the server takes from the global configuration.
#[derive(Clone, Copy, Debug, PartialEq, Eq, Structural)]
pub struct Settings {
    /// Maximum number of streams.
    pub max_streams: u8,
    /// Whether a place for compiled kernels is configured.
    pub compilation_cache: bool,
    /// Whether compilations are logged.
    pub compilation_log: bool,
}

/// Wgpu compute server.
#[derive(Debug)]
pub struct WgpuServer {
    /// The pipelines made so far.
    pub pipelines: PipelineTable,
    /// How the scheduler is set up.
    pub scheduler: SchedulerOptions,
    pub backend: Backend,
    pub features: Features,
    /// The driver's pipeline cache, where it is kept between runs.
    pub pipeline_cache: Option<PipelineCacheState>,
    /// Whether compiled SPIR-V kernels are kept between runs.
    pub spirv_cache: bool,
    /// Whether compilations are logged.
    pub compilation_log: bool,
}

/// What a server is, with the table of pipelines as a map.
pub ghost struct ServerView {
    pub pipelines: Map<(u64, bool), u64>,
    pub scheduler: SchedulerOptions,
    pub backend: Backend,
    pub features: Features,
    pub pipeline_cache: Option<PipelineCacheState>,
    pub spirv_cache: bool,
    pub compilation_log: bool,
}

impl ServerView {
    /// The compiler that the kernels of this server go to.
    pub open spec fn compiler(self) -> AutoCompiler {
        spec_compiler(self.backend, self.features)
    }

    /// The server with one more pipeline in its table.
    pub open spec fn with_pipeline(self, id: KernelId, pipeline: u64) -> ServerView {
        ServerView { pipelines: self.pipelines.insert(id.spec_key(), pipeline), ..self }
    }
}

impl View for WgpuServer {
    type V = ServerView;

    open spec fn view(&self) -> ServerView {
        ServerView {
            pipelines: self.pipelines@,
            scheduler: self.scheduler,
            backend: self.backend,
            features: self.features,
            pipeline_cache: self.pipeline_cache,
            spirv_cache: self.spirv_cache,
            compilation_log: self.compilation_log,
        }
    }
}

impl WgpuServer {
    /// Create a new server, which has made no pipeline yet.
    pub fn new(
        tasks_max: usize,
        backend: Backend,
        features: Features,
        settings: Settings,
        pipeline_cache: Option<PipelineCacheState>,
    ) -> (server: Self)
        ensures
            server@ == (ServerView {
                pipelines: Map::empty(),
                scheduler: SchedulerOptions {
                    max_streams: settings.max_streams,
                    max_tasks: tasks_max,
                    strategy: SchedulerStrategy::Interleave,
                },
                backend,
                features,
                pipeline_cache,
                spirv_cache: features.spirv && settings.compilation_cache,
                compilation_log: settings.compilation_log,
            }),
    {
        WgpuServer {
            pipelines: PipelineTable::new(),
            scheduler: SchedulerOptions {
                max_streams: settings.max_streams,
                max_tasks: tasks_max,
                strategy: SchedulerStrategy::Interleave,
            },
            backend,
            features,
            pipeline_cache,
            spirv_cache: features.spirv && settings.compilation_cache,
            compilation_log: settings.compilation_log,
        }
    }
}

/// A server is seen as what it holds.
pub proof fn server_is_seen_as_it_is(server: WgpuServer)
    ensures
        server@.pipelines == server.pipelines@,
        server@.pipelines == table_entries(server.pipelines),
        server@.scheduler == server.scheduler,
        server@.backend == server.backend,
        server@.features == server.features,
        server@.pipeline_cache == server.pipeline_cache,
        server@.spirv_cache == server.spirv_cache,
        server@.compilation_log == server.compilation_log,
{
}

/// The kernels of a server go to the SPIR-V compiler exactly on Vulkan and to the MSL compiler
/// exactly on Metal, each only where it is available.
pub proof fn server_compiles_for_its_backend(server: ServerView)
    ensures
        server.compiler() is SpirV <==> server.backend is Vulkan && server.features.spirv,
        server.compiler() is Msl <==> server.backend is Metal && server.features.msl,
{
}

/// A pipeline that is put into the table is found under its kernel and mode; all the others, and
/// everything else of the server, stay as they were.
pub proof fn new_pipeline_is_found(server: ServerView, id: KernelId, pipeline: u64, other: KernelId)
    ensures
        ({
            let later = server.with_pipeline(id, pipeline);
            &&& later.pipelines.contains_key(id.spec_key())
            &&& later.pipelines[id.spec_key()] == pipeline
            &&& other != id ==> {
                &&& later.pipelines.contains_key(other.spec_key())
                    <==> server.pipelines.contains_key(other.spec_key())
                &&& later.pipelines[other.spec_key()] == server.pipelines[other.spec_key()]
            }
            &&& later.scheduler == server.scheduler
            &&& later.backend == server.backend
            &&& later.features == server.features
            &&& later.pipeline_cache == server.pipeline_cache
            &&& later.spirv_cache == server.spirv_cache
            &&& later.compilation_log == server.compilation_log
        }),
{
    key_identifies_kernel(id, other);
}

} // verus!
