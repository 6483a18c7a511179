//! What comes of setting up a server, of searching for pipelines and of saving the driver's cache,
//! told from what goes in.
use crate::cache_file::{PipelineCacheState, SaveStep};
use crate::kernel::{
    compiler, key_identifies_kernel, AutoCompiler, Backend, CompilationError, CompiledKernel,
    ExecutionMode, Features, KernelId, Representation, SpirvCacheEntry,
};
use crate::pipeline::PipelineStep;
use crate::server::{Settings, WgpuServer};
use vstd::prelude::*;

verus! {

/// A new server has no pipeline, lets the tasks of as many streams as are configured take turns,
/// executes a stream at the given number of tasks, and keeps SPIR-V kernels where it can compile
/// them and a place for them is configured.
pub proof fn new_server_is_as_configured(
    tasks_max: usize,
    backend: Backend,
    features: Features,
    settings: Settings,
    pipeline_cache: Option<PipelineCacheState>,
    server: WgpuServer,
)
    requires
        call_ensures(
            WgpuServer::new,
            (tasks_max, backend, features, settings, pipeline_cache),
            server,
        ),
    ensures
        forall|key: (u64, bool)| !#[trigger] server.pipelines@.contains_key(key),
        server.scheduler.max_streams == settings.max_streams,
        server.scheduler.max_tasks == tasks_max,
        server.scheduler.strategy is Interleave,
        server.backend == backend,
        server.features == features,
        server.pipeline_cache == pipeline_cache,
        server.spirv_cache <==> features.spirv && settings.compilation_cache,
        server.compilation_log <==> settings.compilation_log,
{
    assert(server@.pipelines == server.pipelines@);
}

/// A kernel has checks unless another mode is set; setting the mode changes nothing else; and two
/// kernels have the same key exactly where they and their modes are the same.
pub proof fn kernels_are_told_apart(
    number: u64,
    made: KernelId,
    changed: &mut KernelId,
    mode: ExecutionMode,
    other: KernelId,
    key: (u64, bool),
    other_key: (u64, bool),
)
    requires
        call_ensures(KernelId::new, (number,), made),
        call_ensures(KernelId::mode, (changed, mode), ()),
        call_ensures(KernelId::key, (&made,), key),
        call_ensures(KernelId::key, (&other,), other_key),
    ensures
        made.kernel == number && made.mode is Checked,
        final(changed).mode == mode,
        final(changed).kernel == old(changed).kernel,
        key == other_key <==> made.kernel == other.kernel && made.mode == other.mode,
{
}

/// A copy of an entry says what the entry says.
pub proof fn copied_entry_says_the_same(entry: SpirvCacheEntry, copy: SpirvCacheEntry)
    requires
        call_ensures(SpirvCacheEntry::clone, (&entry,), copy),
    ensures
        copy.entrypoint_name@ == entry.entrypoint_name@,
        copy.cube_dim == entry.cube_dim,
        copy.spirv@ == entry.spirv@,
        copy.binding_visibilities@ == entry.binding_visibilities@,
        copy.has_metadata == entry.has_metadata,
        copy.num_scalars == entry.num_scalars,
{
}

/// The compiler that is picked is SPIR-V exactly on Vulkan and MSL exactly on Metal, each only
/// where it is available, and WGSL in every other case.
pub proof fn picked_compiler_suits_backend(
    backend: Backend,
    features: Features,
    picked: AutoCompiler,
)
    requires
        call_ensures(compiler, (backend, features), picked),
    ensures
        picked is SpirV <==> backend is Vulkan && features.spirv,
        picked is Msl <==> backend is Metal && features.msl,
{
}

/// A search for a kernel in a mode is answered from the table where it has that kernel in that
/// mode; else that kernel in that mode is looked for in the SPIR-V cache, where there is one; else
/// it is compiled, with the compiler that suits the backend.
pub proof fn search_starts_with_the_table(
    server: WgpuServer,
    kernel: u64,
    mode: ExecutionMode,
    step: PipelineStep,
)
    requires
        call_ensures(WgpuServer::pipeline, (&server, kernel, mode), step),
    ensures
        ({
            let key = (kernel, mode is Checked);
            let known = server.pipelines@.contains_key(key);
            &&& known ==> step == PipelineStep::Done(Ok(server.pipelines@[key]))
            &&& !known && server.spirv_cache ==> {
                &&& step matches PipelineStep::ReadSpirv { id }
                &&& id.kernel == kernel && id.mode == mode
            }
            &&& !known && !server.spirv_cache ==> {
                &&& step matches PipelineStep::Compile { id, compiler, stable_name }
                &&& id.kernel == kernel && id.mode == mode
                &&& compiler is SpirV <==> server.backend is Vulkan && server.features.spirv
                &&& compiler is Msl <==> server.backend is Metal && server.features.msl
                &&& stable_name is None
            }
        }),
{
}

/// A cached entry is made into a pipeline as it is; without one the kernel is compiled, with the
/// compiler that suits the backend, and its name is remembered.
pub proof fn cached_entry_replaces_compilation(
    server: WgpuServer,
    id: KernelId,
    name: String,
    cached: Option<SpirvCacheEntry>,
    step: PipelineStep,
)
    requires
        call_ensures(WgpuServer::spirv_read, (&server, id, name, cached), step),
    ensures
        match cached {
            Some(entry) => step == (PipelineStep::CreateFromSpirv { id, entry }),
            None => {
                &&& step matches PipelineStep::Compile { id: asked, compiler, stable_name }
                &&& asked == id
                &&& compiler is SpirV <==> server.backend is Vulkan && server.features.spirv
                &&& compiler is Msl <==> server.backend is Metal && server.features.msl
                &&& stable_name == Some(name)
            },
        },
{
}

/// A compiled kernel is logged as it is, with debug information exactly where compilations are
/// logged; a failed compilation ends the search with its error.
pub proof fn compiled_kernel_is_logged(
    server: WgpuServer,
    id: KernelId,
    stable_name: Option<String>,
    compiled: Result<CompiledKernel, CompilationError>,
    step: PipelineStep,
)
    requires
        call_ensures(WgpuServer::compiled, (&server, id, stable_name, compiled), step),
    ensures
        match compiled {
            Err(error) => step == PipelineStep::Done(Err(error)),
            Ok(compiled_kernel) => {
                &&& step matches PipelineStep::Log { id: asked, debug_info, stable_name: name, kernel }
                &&& asked == id
                &&& name == stable_name
                &&& kernel == compiled_kernel
                &&& debug_info is Some <==> server.compilation_log
                &&& debug_info matches Some(info) ==> {
                    &&& info.id == id
                    &&& info.compiler is SpirV <==> server.backend is Vulkan
                        && server.features.spirv
                    &&& info.compiler is Msl <==> server.backend is Metal && server.features.msl
                }
            },
        },
{
}

/// A kernel that is logged and then assembled is kept, once its pipeline is made, under its name
/// and with exactly what it says of itself and the words that it was assembled to. That happens
/// exactly where it was compiled to SPIR-V, the SPIR-V cache is in use and its name is known; any
/// other kernel is made into a pipeline without an entry.
pub proof fn kept_entry_says_what_the_kernel_says(
    server: WgpuServer,
    id: KernelId,
    stable_name: Option<String>,
    compiled_kernel: CompiledKernel,
    step: PipelineStep,
    words: Vec<u32>,
    create: PipelineStep,
)
    requires
        call_ensures(WgpuServer::logged, (&server, id, stable_name, compiled_kernel), step),
        step matches PipelineStep::Assemble { id, name, entrypoint_name, cube_dim, spirv }
            ==> call_ensures(
            WgpuServer::assembled,
            (&server, id, name, entrypoint_name, cube_dim, spirv, words),
            create,
        ),
    ensures
        step is Assemble <==> {
            &&& server.spirv_cache
            &&& stable_name is Some
            &&& compiled_kernel.repr matches Some(Representation::SpirV(_))
        },
        step is Assemble ==> {
            &&& create matches PipelineStep::Create { id: asked, insert: Some((name, entry)) }
            &&& compiled_kernel.repr matches Some(Representation::SpirV(spirv))
            &&& asked == id
            &&& stable_name == Some(name)
            &&& entry.entrypoint_name == compiled_kernel.entrypoint_name
            &&& entry.cube_dim.0 == compiled_kernel.cube_dim.x
            &&& entry.cube_dim.1 == compiled_kernel.cube_dim.y
            &&& entry.cube_dim.2 == compiled_kernel.cube_dim.z
            &&& entry.spirv == words
            &&& entry.binding_visibilities == spirv.binding_visibilities
            &&& entry.has_metadata == spirv.has_metadata
            &&& entry.num_scalars == spirv.num_scalars
        },
        !(step is Assemble) ==> {
            &&& step matches PipelineStep::Create { id: asked, insert }
            &&& asked == id
            &&& insert is None
        },
{
}

/// A pipeline that was made, whether of a cached entry or of a compiled kernel, is what every later
/// search for the same kernel in the same mode comes to at once. No other search is changed by it.
pub proof fn made_pipeline_is_found_again(
    server: &mut WgpuServer,
    id: KernelId,
    pipeline: u64,
    of_entry: bool,
    step: PipelineStep,
    other: KernelId,
    before: PipelineStep,
    after: PipelineStep,
)
    requires
        if of_entry {
            call_ensures(WgpuServer::created_from_spirv, (server, id, Ok(pipeline)), step)
        } else {
            call_ensures(WgpuServer::created, (server, id, None, Ok(pipeline)), step)
        },
        call_ensures(WgpuServer::pipeline, (old(server), other.kernel, other.mode), before),
        call_ensures(WgpuServer::pipeline, (final(server), other.kernel, other.mode), after),
    ensures
        other == id ==> after == PipelineStep::Done(Ok(pipeline)),
        other != id ==> after == before,
        step is Save <==> old(server).pipeline_cache is Some,
        step matches PipelineStep::Save { pipeline: saved } ==> saved == pipeline,
        !(step is Save) ==> step == PipelineStep::Done(Ok(pipeline)),
{
    key_identifies_kernel(id, other);
}

/// A kernel whose entry is to be kept is put into the table only after the SPIR-V cache was asked
/// to take the entry, and is then what every later search comes to, whether or not the cache could.
pub proof fn kept_pipeline_is_found_again(
    server: &mut WgpuServer,
    id: KernelId,
    pipeline: u64,
    step: PipelineStep,
    other: KernelId,
    before: PipelineStep,
    after: PipelineStep,
)
    requires
        call_ensures(WgpuServer::spirv_inserted, (server, id, pipeline), step),
        call_ensures(WgpuServer::pipeline, (old(server), other.kernel, other.mode), before),
        call_ensures(WgpuServer::pipeline, (final(server), other.kernel, other.mode), after),
    ensures
        other == id ==> after == PipelineStep::Done(Ok(pipeline)),
        other != id ==> after == before,
        step is Save <==> old(server).pipeline_cache is Some,
        step matches PipelineStep::Save { pipeline: saved } ==> saved == pipeline,
        !(step is Save) ==> step == PipelineStep::Done(Ok(pipeline)),
{
    key_identifies_kernel(id, other);
}

/// An entry that waits to be kept goes into the SPIR-V cache as it is, under its name, once the
/// pipeline is made; until then the server stays as it was.
pub proof fn entry_is_kept_once_pipeline_is_made(
    server: &mut WgpuServer,
    id: KernelId,
    kept_as: String,
    waiting: SpirvCacheEntry,
    made: u64,
    step: PipelineStep,
)
    requires
        call_ensures(WgpuServer::created, (server, id, Some((kept_as, waiting)), Ok(made)), step),
    ensures
        step == (PipelineStep::InsertSpirv { id, pipeline: made, name: kept_as, entry: waiting }),
        final(server)@ == old(server)@,
{
}

/// Where no pipeline could be made, the search ends with the reason, no entry is kept and the
/// server stays as it was.
pub proof fn failed_creation_keeps_nothing(
    server: &mut WgpuServer,
    id: KernelId,
    insert: Option<(String, SpirvCacheEntry)>,
    error: CompilationError,
    of_entry: bool,
    step: PipelineStep,
)
    requires
        if of_entry {
            call_ensures(WgpuServer::created_from_spirv, (server, id, Err(error)), step)
        } else {
            call_ensures(WgpuServer::created, (server, id, insert, Err(error)), step)
        },
    ensures
        step == PipelineStep::Done(Err(error)),
        final(server)@ == old(server)@,
{
}

/// A pipeline that was saved is what the search comes to.
pub proof fn saved_pipeline_is_the_result(server: WgpuServer, pipeline: u64, step: PipelineStep)
    requires
        call_ensures(WgpuServer::saved, (&server, pipeline), step),
    ensures
        step == PipelineStep::Done(Ok(pipeline)),
{
}

/// Saving asks the driver for its data; without any it ends. The data is written, whole, to the
/// temporary file, after the parent directory was created where there is one. The temporary file
/// takes the place of the cache file exactly where it was written.
pub proof fn save_writes_what_the_driver_has(
    has_parent: bool,
    state: PipelineCacheState,
    first: SaveStep,
    data: Option<Vec<u8>>,
    second: SaveStep,
    third: SaveStep,
    written: bool,
    fourth: SaveStep,
    last: SaveStep,
)
    requires
        call_ensures(PipelineCacheState::new, (has_parent,), state),
        call_ensures(PipelineCacheState::save, (&state,), first),
        call_ensures(PipelineCacheState::data_read, (&state, data), second),
        second matches SaveStep::CreateParent { data } ==> call_ensures(
            PipelineCacheState::parent_created,
            (&state, data),
            third,
        ),
        !(second is CreateParent) ==> third == second,
        call_ensures(PipelineCacheState::temporary_written, (&state, written), fourth),
        call_ensures(PipelineCacheState::renamed, (&state,), last),
    ensures
        first is GetData,
        second is CreateParent <==> data is Some && has_parent,
        second is Done <==> data is None,
        data matches Some(data) ==> third == (SaveStep::WriteTemporary { data }),
        data is None ==> third is Done,
        fourth is Rename <==> written,
        fourth is Done <==> !written,
        last is Done,
{
}

} // verus!
