//! What holds of the whole search for a pipeline.
use crate::kernel::{
    CompilationError, CompiledKernel, CubeDim, DebugInformation, KernelId, Representation,
    SpirvCacheEntry, SpirvKernel,
};
use crate::pipeline::{
    after_compilation, after_creation, after_creation_from_spirv, after_insertion, after_log,
    after_request, after_spirv_read, spirv_entry, PipelineStep,
};
use crate::server::ServerView;
use vstd::prelude::*;

verus! {

/// What the world answers while a pipeline is searched for.
pub ghost struct PipelineWorld {
    /// The stable name of the kernel.
    pub name: String,
    /// What the SPIR-V cache has under that name.
    pub cached: Option<SpirvCacheEntry>,
    /// What comes of making a pipeline of the cached entry.
    pub from_cache: Result<u64, CompilationError>,
    /// What comes of compiling the kernel.
    pub compiled: Result<CompiledKernel, CompilationError>,
    /// The words that the compiled kernel assembles to.
    pub words: Vec<u32>,
    /// What comes of making a pipeline of the compiled kernel.
    pub created: Result<u64, CompilationError>,
}

/// The server and the step that follow `step`, given what the world answers.
pub open spec fn next_pipeline_step(
    server: ServerView,
    step: PipelineStep,
    world: PipelineWorld,
) -> (ServerView, PipelineStep) {
    match step {
        PipelineStep::Done(_) => (server, step),
        PipelineStep::ReadSpirv { id } => (
            server,
            after_spirv_read(server, id, world.name, world.cached),
        ),
        PipelineStep::CreateFromSpirv { id, .. } => after_creation_from_spirv(
            server,
            id,
            world.from_cache,
        ),
        PipelineStep::Compile { id, stable_name, .. } => (
            server,
            after_compilation(server, id, stable_name, world.compiled),
        ),
        PipelineStep::Log { id, stable_name, kernel, .. } => (
            server,
            after_log(server, id, stable_name, kernel),
        ),
        PipelineStep::Assemble { id, name, entrypoint_name, cube_dim, spirv } => (
            server,
            PipelineStep::Create {
                id,
                insert: Some((name, spirv_entry(entrypoint_name, cube_dim, spirv, world.words))),
            },
        ),
        PipelineStep::Create { id, insert } => after_creation(server, id, insert, world.created),
        PipelineStep::InsertSpirv { id, pipeline, .. } => (
            server.with_pipeline(id, pipeline),
            after_insertion(server, pipeline),
        ),
        PipelineStep::Save { pipeline } => (server, PipelineStep::Done(Ok(pipeline))),
    }
}

/// The steps from `step` on, up to the last, or as many as `limit` allows.
pub open spec fn pipeline_steps(
    server: ServerView,
    step: PipelineStep,
    world: PipelineWorld,
    limit: nat,
) -> Seq<PipelineStep>
    decreases limit,
{
    if step is Done || limit == 0 {
        seq![step]
    } else {
        let (server, next) = next_pipeline_step(server, step, world);
        seq![step] + pipeline_steps(server, next, world, (limit - 1) as nat)
    }
}

/// The server after those steps.
pub open spec fn server_after(
    server: ServerView,
    step: PipelineStep,
    world: PipelineWorld,
    limit: nat,
) -> ServerView
    decreases limit,
{
    if step is Done || limit == 0 {
        server
    } else {
        let (server, next) = next_pipeline_step(server, step, world);
        server_after(server, next, world, (limit - 1) as nat)
    }
}

/// More steps than any search takes.
pub open spec fn step_limit() -> nat {
    8
}

/// All the steps of a search.
pub open spec fn search(server: ServerView, id: KernelId, world: PipelineWorld) -> Seq<
    PipelineStep,
> {
    pipeline_steps(server, after_request(server, id), world, step_limit())
}

/// The server after a search.
pub open spec fn searched(server: ServerView, id: KernelId, world: PipelineWorld) -> ServerView {
    server_after(server, after_request(server, id), world, step_limit())
}

/// Whether the server already has a pipeline for the kernel.
pub open spec fn has_pipeline(server: ServerView, id: KernelId) -> bool {
    server.pipelines.contains_key(id.spec_key())
}

/// Whether an entry for the kernel was kept by an earlier run.
pub open spec fn kept_before(server: ServerView, world: PipelineWorld) -> bool {
    server.spirv_cache && world.cached is Some
}

/// What a search comes to.
pub open spec fn expected_result(server: ServerView, id: KernelId, world: PipelineWorld) -> Result<
    u64,
    CompilationError,
> {
    if has_pipeline(server, id) {
        Ok(server.pipelines[id.spec_key()])
    } else if kept_before(server, world) {
        world.from_cache
    } else {
        match world.compiled {
            Ok(_) => world.created,
            Err(error) => Err(error),
        }
    }
}

/// The entry that a search adds to the SPIR-V cache, where it adds one.
pub open spec fn expected_entry(
    server: ServerView,
    kernel: CompiledKernel,
    world: PipelineWorld,
) -> Option<(String, SpirvCacheEntry)> {
    match kernel.repr {
        Some(Representation::SpirV(spirv)) if server.spirv_cache => Some(
            (world.name, spirv_entry(kernel.entrypoint_name, kernel.cube_dim, spirv, world.words)),
        ),
        _ => None,
    }
}

/// The last steps, once it is known what a search comes to: a new pipeline is followed by a save
/// of the driver's cache, where that is kept.
pub open spec fn expected_ending(
    server: ServerView,
    result: Result<u64, CompilationError>,
) -> Seq<PipelineStep> {
    let done = seq![PipelineStep::Done(result)];
    match result {
        Ok(pipeline) if server.pipeline_cache is Some => seq![PipelineStep::Save { pipeline }]
            + done,
        _ => done,
    }
}

/// The steps that make a pipeline of a compiled kernel and keep its entry, where it has one.
pub open spec fn expected_creation(
    server: ServerView,
    id: KernelId,
    insert: Option<(String, SpirvCacheEntry)>,
    created: Result<u64, CompilationError>,
) -> Seq<PipelineStep> {
    let create = seq![PipelineStep::Create { id, insert }];
    match (created, insert) {
        (Ok(pipeline), Some((name, entry))) => create + seq![
            PipelineStep::InsertSpirv { id, pipeline, name, entry },
        ],
        _ => create,
    }
}

/// The steps from the log of a compilation on, without the last ones.
pub open spec fn expected_use_of_kernel(
    server: ServerView,
    id: KernelId,
    stable_name: Option<String>,
    kernel: CompiledKernel,
    world: PipelineWorld,
) -> Seq<PipelineStep> {
    let debug_info = if server.compilation_log {
        Some(DebugInformation { compiler: server.compiler(), id })
    } else {
        None
    };
    let log = seq![PipelineStep::Log { id, debug_info, stable_name, kernel }];
    let insert = expected_entry(server, kernel, world);
    let assemble = match kernel.repr {
        Some(Representation::SpirV(spirv)) if server.spirv_cache => seq![
            PipelineStep::Assemble {
                id,
                name: world.name,
                entrypoint_name: kernel.entrypoint_name,
                cube_dim: kernel.cube_dim,
                spirv,
            },
        ],
        _ => seq![],
    };
    log + assemble + expected_creation(server, id, insert, world.created)
}

/// The steps of a search, told from what the server has and what the world answers.
pub open spec fn expected_search(server: ServerView, id: KernelId, world: PipelineWorld) -> Seq<
    PipelineStep,
> {
    let result = expected_result(server, id, world);
    if has_pipeline(server, id) {
        seq![PipelineStep::Done(result)]
    } else {
        let stable_name = if server.spirv_cache {
            Some(world.name)
        } else {
            None
        };
        let read = if server.spirv_cache {
            seq![PipelineStep::ReadSpirv { id }]
        } else {
            seq![]
        };
        let compile = seq![PipelineStep::Compile { id, compiler: server.compiler(), stable_name }];
        let work = if kept_before(server, world) {
            seq![PipelineStep::CreateFromSpirv { id, entry: world.cached->0 }]
        } else {
            match world.compiled {
                Ok(kernel) => compile + expected_use_of_kernel(server, id, stable_name, kernel, world),
                Err(_) => compile,
            }
        };
        read + work + expected_ending(server, result)
    }
}

/// The server after a search for a pipeline that it did not have.
spec fn with_result(
    server: ServerView,
    id: KernelId,
    result: Result<u64, CompilationError>,
) -> ServerView {
    match result {
        Ok(pipeline) => server.with_pipeline(id, pipeline),
        Err(_) => server,
    }
}

proof fn lemma_ending(server: ServerView, pipeline: u64, world: PipelineWorld, limit: nat)
    requires
        limit >= 1,
    ensures
        pipeline_steps(server, after_insertion(server, pipeline), world, limit) == expected_ending(
            server,
            Ok(pipeline),
        ),
        server_after(server, after_insertion(server, pipeline), world, limit) == server,
{
    reveal_with_fuel(pipeline_steps, 2);
    reveal_with_fuel(server_after, 2);
    assert(pipeline_steps(server, after_insertion(server, pipeline), world, limit)
        =~= expected_ending(server, Ok(pipeline)));
}

proof fn lemma_creation(
    server: ServerView,
    id: KernelId,
    insert: Option<(String, SpirvCacheEntry)>,
    world: PipelineWorld,
    limit: nat,
)
    requires
        limit >= 3,
    ensures
        pipeline_steps(server, PipelineStep::Create { id, insert }, world, limit)
            == expected_creation(server, id, insert, world.created) + expected_ending(
            server,
            world.created,
        ),
        server_after(server, PipelineStep::Create { id, insert }, world, limit) == with_result(
            server,
            id,
            world.created,
        ),
{
    let create = PipelineStep::Create { id, insert };
    let steps = pipeline_steps(server, create, world, limit);
    let expected = expected_creation(server, id, insert, world.created) + expected_ending(
        server,
        world.created,
    );
    reveal_with_fuel(pipeline_steps, 2);
    reveal_with_fuel(server_after, 2);
    match (world.created, insert) {
        (Ok(pipeline), Some((name, entry))) => {
            let later = server.with_pipeline(id, pipeline);
            lemma_ending(later, pipeline, world, (limit - 2) as nat);
            let stored = PipelineStep::InsertSpirv { id, pipeline, name, entry };
            assert(pipeline_steps(server, stored, world, (limit - 1) as nat) =~= seq![stored]
                + expected_ending(server, Ok(pipeline)));
            assert(steps =~= expected);
        },
        (Ok(pipeline), None) => {
            let later = server.with_pipeline(id, pipeline);
            lemma_ending(later, pipeline, world, (limit - 1) as nat);
            assert(steps =~= expected);
        },
        (Err(_), _) => {
            assert(steps =~= expected);
        },
    }
}

proof fn lemma_use_of_kernel(
    server: ServerView,
    id: KernelId,
    stable_name: Option<String>,
    kernel: CompiledKernel,
    world: PipelineWorld,
    limit: nat,
)
    requires
        limit >= 5,
        stable_name == if server.spirv_cache {
            Some(world.name)
        } else {
            None
        },
    ensures
        pipeline_steps(server, after_compilation(server, id, stable_name, Ok(kernel)), world, limit)
            == expected_use_of_kernel(server, id, stable_name, kernel, world) + expected_ending(
            server,
            world.created,
        ),
        server_after(server, after_compilation(server, id, stable_name, Ok(kernel)), world, limit)
            == with_result(server, id, world.created),
{
    let log = after_compilation(server, id, stable_name, Ok(kernel));
    let steps = pipeline_steps(server, log, world, limit);
    let expected = expected_use_of_kernel(server, id, stable_name, kernel, world) + expected_ending(
        server,
        world.created,
    );
    let insert = expected_entry(server, kernel, world);
    let next = after_log(server, id, stable_name, kernel);
    assert(steps == seq![log] + pipeline_steps(server, next, world, (limit - 1) as nat));
    assert(server_after(server, log, world, limit) == server_after(
        server,
        next,
        world,
        (limit - 1) as nat,
    ));
    if insert is Some {
        let create = PipelineStep::Create { id, insert };
        assert(next is Assemble);
        assert(next_pipeline_step(server, next, world) == (server, create));
        lemma_creation(server, id, insert, world, (limit - 2) as nat);
        assert(pipeline_steps(server, next, world, (limit - 1) as nat) == seq![next]
            + pipeline_steps(server, create, world, (limit - 2) as nat));
    } else {
        lemma_creation(server, id, insert, world, (limit - 1) as nat);
    }
    assert(steps =~= expected);
}

/// A search takes exactly the steps it should, ends, and leaves the server as it was but for the
/// pipeline that it made.
pub proof fn search_is_as_expected(server: ServerView, id: KernelId, world: PipelineWorld)
    ensures
        search(server, id, world) == expected_search(server, id, world),
        searched(server, id, world) == match expected_result(server, id, world) {
            Ok(pipeline) if !has_pipeline(server, id) => server.with_pipeline(id, pipeline),
            _ => server,
        },
{
    let first = after_request(server, id);
    let steps = search(server, id, world);
    let expected = expected_search(server, id, world);
    let limit = step_limit();
    reveal_with_fuel(pipeline_steps, 2);
    reveal_with_fuel(server_after, 2);
    if has_pipeline(server, id) {
        assert(steps =~= expected);
    } else {
        let stable_name = if server.spirv_cache {
            Some(world.name)
        } else {
            None
        };
        if kept_before(server, world) {
            let create = PipelineStep::CreateFromSpirv { id, entry: world.cached->0 };
            assert(next_pipeline_step(server, first, world) == (server, create));
            match world.from_cache {
                Ok(pipeline) => {
                    lemma_ending(
                        server.with_pipeline(id, pipeline),
                        pipeline,
                        world,
                        (limit - 2) as nat,
                    );
                },
                Err(_) => {},
            }
            assert(pipeline_steps(server, create, world, (limit - 1) as nat) =~= seq![create]
                + expected_ending(server, world.from_cache));
            assert(server_after(server, create, world, (limit - 1) as nat) == with_result(
                server,
                id,
                world.from_cache,
            ));
            assert(steps =~= expected);
        } else {
            let compile = PipelineStep::Compile { id, compiler: server.compiler(), stable_name };
            let left: nat = if server.spirv_cache {
                (limit - 1) as nat
            } else {
                limit
            };
            if server.spirv_cache {
                assert(next_pipeline_step(server, first, world) == (server, compile));
            } else {
                assert(first == compile);
            }
            let work = pipeline_steps(server, compile, world, left);
            assert(searched(server, id, world) == server_after(server, compile, world, left));
            assert(server_after(server, compile, world, left) == server_after(
                server,
                after_compilation(server, id, stable_name, world.compiled),
                world,
                (left - 1) as nat,
            ));
            match world.compiled {
                Ok(kernel) => {
                    lemma_use_of_kernel(server, id, stable_name, kernel, world, (left - 1) as nat);
                    assert(work =~= seq![compile] + expected_use_of_kernel(
                        server,
                        id,
                        stable_name,
                        kernel,
                        world,
                    ) + expected_ending(server, world.created));
                },
                Err(error) => {
                    assert(work =~= seq![compile] + seq![PipelineStep::Done(Err(error))]);
                },
            }
            assert(steps =~= expected);
        }
    }
}

/// A pipeline that the server has is handed out at once: nothing is read, compiled, made or saved.
pub proof fn known_pipeline_takes_no_work(server: ServerView, id: KernelId, world: PipelineWorld)
    requires
        has_pipeline(server, id),
    ensures
        search(server, id, world) == seq![
            PipelineStep::Done(Ok(server.pipelines[id.spec_key()])),
        ],
        searched(server, id, world) == server,
{
    search_is_as_expected(server, id, world);
}

/// Every search ends with the result that is due.
pub proof fn search_ends_with_result(server: ServerView, id: KernelId, world: PipelineWorld)
    ensures
        search(server, id, world).last() == PipelineStep::Done(expected_result(server, id, world)),
{
    search_is_as_expected(server, id, world);
}

/// Once a search has come to a pipeline, every later search for the same kernel in the same mode
/// comes to the same pipeline at once, whatever the world answers then.
pub proof fn found_pipeline_is_found_again(
    server: ServerView,
    id: KernelId,
    world: PipelineWorld,
    later_world: PipelineWorld,
)
    requires
        expected_result(server, id, world) is Ok,
    ensures
        search(searched(server, id, world), id, later_world) == seq![
            PipelineStep::Done(expected_result(server, id, world)),
        ],
{
    search_is_as_expected(server, id, world);
    search_is_as_expected(searched(server, id, world), id, later_world);
}

/// A search that fails leaves the server as it was, so the next one tries again.
pub proof fn failed_search_changes_nothing(server: ServerView, id: KernelId, world: PipelineWorld)
    requires
        expected_result(server, id, world) is Err,
    ensures
        searched(server, id, world) == server,
{
    search_is_as_expected(server, id, world);
}

/// A search for one kernel neither adds, drops nor changes the pipeline of another, nor one that
/// the kernel already has.
pub proof fn search_keeps_pipelines(
    server: ServerView,
    id: KernelId,
    world: PipelineWorld,
    other: KernelId,
)
    ensures
        has_pipeline(server, other) ==> {
            &&& has_pipeline(searched(server, id, world), other)
            &&& searched(server, id, world).pipelines[other.spec_key()]
                == server.pipelines[other.spec_key()]
        },
        other != id && !has_pipeline(server, other) ==> !has_pipeline(
            searched(server, id, world),
            other,
        ),
{
    search_is_as_expected(server, id, world);
    crate::kernel::key_identifies_kernel(id, other);
}

/// A kernel is compiled only where the server has no pipeline for it and no earlier run has kept
/// an entry.
pub proof fn compiled_only_where_needed(server: ServerView, id: KernelId, world: PipelineWorld)
    ensures
        (exists|i: int|
            0 <= i < search(server, id, world).len() && #[trigger] search(
                server,
                id,
                world,
            )[i] is Compile) <==> !has_pipeline(server, id) && !kept_before(server, world),
{
    search_is_as_expected(server, id, world);
    let steps = search(server, id, world);
    if !has_pipeline(server, id) && !kept_before(server, world) {
        if server.spirv_cache {
            assert(steps[1] is Compile);
        } else {
            assert(steps[0] is Compile);
        }
    }
}

/// The driver's cache is saved exactly where it is kept and a pipeline was made, and then once,
/// after everything else.
pub proof fn new_pipeline_is_saved(server: ServerView, id: KernelId, world: PipelineWorld)
    ensures
        forall|i: int|
            0 <= i < search(server, id, world).len() ==> (#[trigger] search(
                server,
                id,
                world,
            )[i] is Save <==> {
                &&& i == search(server, id, world).len() - 2
                &&& !has_pipeline(server, id)
                &&& expected_result(server, id, world) is Ok
                &&& server.pipeline_cache is Some
            }),
{
    search_is_as_expected(server, id, world);
}

/// An entry is added to the SPIR-V cache exactly where that cache is in use, had no entry, and the
/// kernel was compiled to SPIR-V and made into a pipeline; it goes in under the name that was
/// looked up, with what the compiled kernel says.
pub proof fn compiled_kernel_is_kept(server: ServerView, id: KernelId, world: PipelineWorld)
    ensures
        forall|i: int|
            0 <= i < search(server, id, world).len() && #[trigger] search(
                server,
                id,
                world,
            )[i] is InsertSpirv ==> {
                &&& server.spirv_cache && world.cached is None
                &&& world.compiled matches Ok(kernel)
                &&& kernel.repr matches Some(Representation::SpirV(spirv))
                &&& world.created matches Ok(pipeline)
                &&& search(server, id, world)[i] == PipelineStep::InsertSpirv {
                    id,
                    pipeline,
                    name: world.name,
                    entry: spirv_entry(
                        kernel.entrypoint_name,
                        kernel.cube_dim,
                        spirv,
                        world.words,
                    ),
                }
            },
        (exists|i: int|
            0 <= i < search(server, id, world).len() && #[trigger] search(
                server,
                id,
                world,
            )[i] is InsertSpirv) <==> {
            &&& !has_pipeline(server, id)
            &&& server.spirv_cache && world.cached is None
            &&& world.compiled matches Ok(kernel)
            &&& kernel.repr matches Some(Representation::SpirV(_))
            &&& world.created is Ok
        },
{
    search_is_as_expected(server, id, world);
    let steps = search(server, id, world);
    if !has_pipeline(server, id) && server.spirv_cache && world.cached is None {
        if let Ok(kernel) = world.compiled {
            if kernel.repr matches Some(Representation::SpirV(_)) && world.created is Ok {
                assert(steps[5] is InsertSpirv);
            }
        }
    }
}

/// The entry that is kept of a kernel says of it what the kernel says of itself, and holds the
/// words that it was assembled to.
pub proof fn entry_describes_kernel(
    entrypoint_name: String,
    cube_dim: CubeDim,
    spirv: SpirvKernel,
    words: Vec<u32>,
)
    ensures
        ({
            let entry = spirv_entry(entrypoint_name, cube_dim, spirv, words);
            &&& entry.entrypoint_name == entrypoint_name
            &&& entry.cube_dim.0 == cube_dim.x
            &&& entry.cube_dim.1 == cube_dim.y
            &&& entry.cube_dim.2 == cube_dim.z
            &&& entry.spirv == words
            &&& entry.binding_visibilities == spirv.binding_visibilities
            &&& entry.has_metadata == spirv.has_metadata
            &&& entry.num_scalars == spirv.num_scalars
        }),
{
}

/// A search begins with the table; a kernel that is not in it is looked for in the SPIR-V cache
/// where there is one, and is compiled where there is none.
pub proof fn request_is_answered(server: ServerView, id: KernelId)
    ensures
        server.pipelines.contains_key(id.spec_key()) <==> after_request(server, id) is Done,
        after_request(server, id) is ReadSpirv <==> server.spirv_cache
            && !server.pipelines.contains_key(id.spec_key()),
        match after_request(server, id) {
            PipelineStep::Done(result) => result == Ok::<u64, CompilationError>(
                server.pipelines[id.spec_key()],
            ),
            PipelineStep::ReadSpirv { id: asked } => asked == id,
            PipelineStep::Compile { id: asked, compiler, stable_name } => {
                &&& asked == id
                &&& compiler == server.compiler()
                &&& stable_name is None
            },
            _ => false,
        },
{
}

/// A cached entry is made into a pipeline as it is; without one the kernel is compiled, and its
/// name is remembered.
pub proof fn cached_entry_is_used(
    server: ServerView,
    id: KernelId,
    name: String,
    cached: Option<SpirvCacheEntry>,
)
    ensures
        after_spirv_read(server, id, name, cached) is CreateFromSpirv <==> cached is Some,
        match after_spirv_read(server, id, name, cached) {
            PipelineStep::CreateFromSpirv { id: asked, entry } => asked == id && Some(entry)
                == cached,
            PipelineStep::Compile { id: asked, compiler, stable_name } => {
                &&& asked == id
                &&& compiler == server.compiler()
                &&& stable_name == Some(name)
            },
            _ => false,
        },
{
}

/// A compiled kernel is logged as it is, with debug information exactly where compilations are
/// logged; a failed compilation ends the search with its error.
pub proof fn compilation_is_logged(
    server: ServerView,
    id: KernelId,
    stable_name: Option<String>,
    compiled: Result<CompiledKernel, CompilationError>,
)
    ensures
        match after_compilation(server, id, stable_name, compiled) {
            PipelineStep::Log { id: asked, debug_info, stable_name: name, kernel } => {
                &&& asked == id
                &&& name == stable_name
                &&& compiled == Ok::<CompiledKernel, CompilationError>(kernel)
                &&& debug_info is Some <==> server.compilation_log
                &&& debug_info matches Some(info) ==> info.compiler == server.compiler() && info.id
                    == id
            },
            PipelineStep::Done(Err(error)) => compiled == Err::<CompiledKernel, CompilationError>(
                error,
            ),
            _ => false,
        },
{
}

/// A kernel is assembled, to be kept, exactly where it was compiled to SPIR-V, the SPIR-V cache is
/// in use and its name is known. Every other kernel is made into a pipeline and not kept.
pub proof fn spirv_is_assembled_to_be_kept(
    server: ServerView,
    id: KernelId,
    stable_name: Option<String>,
    kernel: CompiledKernel,
)
    ensures
        after_log(server, id, stable_name, kernel) is Assemble <==> {
            &&& server.spirv_cache
            &&& stable_name is Some
            &&& kernel.repr matches Some(Representation::SpirV(_))
        },
        match after_log(server, id, stable_name, kernel) {
            PipelineStep::Assemble { id: asked, name, entrypoint_name, cube_dim, spirv } => {
                &&& asked == id
                &&& Some(name) == stable_name
                &&& entrypoint_name == kernel.entrypoint_name
                &&& cube_dim == kernel.cube_dim
                &&& kernel.repr == Some(Representation::SpirV(spirv))
            },
            PipelineStep::Create { id: asked, insert } => asked == id && insert is None,
            _ => false,
        },
{
}

/// A new pipeline is saved exactly where the driver's cache is kept, and is then the result.
pub proof fn insertion_is_saved(server: ServerView, pipeline: u64)
    ensures
        after_insertion(server, pipeline) is Save <==> server.pipeline_cache is Some,
        match after_insertion(server, pipeline) {
            PipelineStep::Save { pipeline: saved } => saved == pipeline,
            PipelineStep::Done(result) => result == Ok::<u64, CompilationError>(pipeline),
            _ => false,
        },
{
}

/// A pipeline of a cached entry goes into the table under its kernel; where none could be made,
/// the search ends with the error and the table stays as it was.
pub proof fn pipeline_of_entry_is_put_into_table(
    server: ServerView,
    id: KernelId,
    created: Result<u64, CompilationError>,
)
    ensures
        ({
            let (later, step) = after_creation_from_spirv(server, id, created);
            match created {
                Ok(pipeline) => {
                    &&& later.pipelines == server.pipelines.insert(id.spec_key(), pipeline)
                    &&& later == (ServerView { pipelines: later.pipelines, ..server })
                    &&& step == if server.pipeline_cache is Some {
                        PipelineStep::Save { pipeline }
                    } else {
                        PipelineStep::Done(Ok(pipeline))
                    }
                },
                Err(error) => later == server && step == PipelineStep::Done(Err(error)),
            }
        }),
{
}

/// A pipeline of a compiled kernel goes into the table under its kernel, after the kernel's entry
/// was kept where it has one; where none could be made, the search ends with the error, the table
/// stays as it was and no entry is kept.
pub proof fn pipeline_of_kernel_is_put_into_table(
    server: ServerView,
    id: KernelId,
    insert: Option<(String, SpirvCacheEntry)>,
    created: Result<u64, CompilationError>,
)
    ensures
        ({
            let (later, step) = after_creation(server, id, insert, created);
            match created {
                Err(error) => later == server && step == PipelineStep::Done(Err(error)),
                Ok(pipeline) => match insert {
                    Some((name, entry)) => {
                        &&& later == server
                        &&& step == PipelineStep::InsertSpirv { id, pipeline, name, entry }
                    },
                    None => {
                        &&& later.pipelines == server.pipelines.insert(id.spec_key(), pipeline)
                        &&& later == (ServerView { pipelines: later.pipelines, ..server })
                        &&& step == if server.pipeline_cache is Some {
                            PipelineStep::Save { pipeline }
                        } else {
                            PipelineStep::Done(Ok(pipeline))
                        }
                    },
                },
            }
        }),
{
}

/// Every step of a search is about the kernel, in the mode, that was asked for, and about the one
/// pipeline that the search comes to.
#[verifier::rlimit(50)]
pub proof fn search_is_about_its_kernel(server: ServerView, id: KernelId, world: PipelineWorld)
    ensures
        forall|i: int|
            0 <= i < search(server, id, world).len() ==> match #[trigger] search(
                server,
                id,
                world,
            )[i] {
                PipelineStep::Done(result) => i == search(server, id, world).len() - 1,
                PipelineStep::ReadSpirv { id: asked } => asked == id,
                PipelineStep::CreateFromSpirv { id: asked, entry } => asked == id && Some(entry)
                    == world.cached,
                PipelineStep::Compile { id: asked, compiler, .. } => asked == id && compiler
                    == server.compiler(),
                PipelineStep::Log { id: asked, debug_info, kernel, .. } => {
                    &&& asked == id
                    &&& world.compiled == Ok::<CompiledKernel, CompilationError>(kernel)
                    &&& debug_info is Some <==> server.compilation_log
                    &&& debug_info matches Some(info) ==> info.compiler == server.compiler()
                        && info.id == id
                },
                PipelineStep::Assemble { id: asked, name, .. } => asked == id && name == world.name,
                PipelineStep::Create { id: asked, .. } => asked == id,
                PipelineStep::InsertSpirv { id: asked, pipeline, name, .. } => {
                    &&& asked == id
                    &&& name == world.name
                    &&& search(server, id, world).last() == PipelineStep::Done(Ok(pipeline))
                },
                PipelineStep::Save { pipeline } => search(server, id, world).last()
                    == PipelineStep::Done(Ok(pipeline)),
            },
{
    search_is_as_expected(server, id, world);
}

/// A search comes to the pipeline in the table; else to the one made of the cached entry; else to
/// the one made of the compiled kernel. An error on the way is what it comes to instead. A
/// pipeline that was made is in the table afterwards, and nothing else of the server has changed.
pub proof fn search_comes_to_what_is_due(server: ServerView, id: KernelId, world: PipelineWorld)
    ensures
        search(server, id, world).last() matches PipelineStep::Done(result) && {
            let known = server.pipelines.contains_key(id.spec_key());
            &&& known ==> result == Ok::<u64, CompilationError>(server.pipelines[id.spec_key()])
            &&& !known && server.spirv_cache && world.cached is Some ==> result == world.from_cache
            &&& !known && !(server.spirv_cache && world.cached is Some) ==> match world.compiled {
                Ok(_) => result == world.created,
                Err(error) => result == Err::<u64, CompilationError>(error),
            }
            &&& searched(server, id, world).pipelines == match result {
                Ok(pipeline) => server.pipelines.insert(id.spec_key(), pipeline),
                Err(_) => server.pipelines,
            }
            &&& searched(server, id, world) == (ServerView {
                pipelines: searched(server, id, world).pipelines,
                ..server
            })
        },
{
    search_is_as_expected(server, id, world);
    if has_pipeline(server, id) {
        assert(server.pipelines =~= server.pipelines.insert(
            id.spec_key(),
            server.pipelines[id.spec_key()],
        ));
    }
}

/// Whatever a search adds to the SPIR-V cache says of the compiled kernel what the kernel says of
/// itself, holds the words that it was assembled to, and goes in under the kernel's stable name.
pub proof fn kept_entry_describes_compiled_kernel(
    server: ServerView,
    id: KernelId,
    world: PipelineWorld,
)
    ensures
        forall|i: int|
            0 <= i < search(server, id, world).len() ==> (#[trigger] search(
                server,
                id,
                world,
            )[i] matches PipelineStep::InsertSpirv { name, entry, .. } ==> {
                &&& world.compiled matches Ok(kernel)
                &&& kernel.repr matches Some(Representation::SpirV(spirv))
                &&& name == world.name
                &&& entry.entrypoint_name == kernel.entrypoint_name
                &&& entry.cube_dim.0 == kernel.cube_dim.x
                &&& entry.cube_dim.1 == kernel.cube_dim.y
                &&& entry.cube_dim.2 == kernel.cube_dim.z
                &&& entry.spirv == world.words
                &&& entry.binding_visibilities == spirv.binding_visibilities
                &&& entry.has_metadata == spirv.has_metadata
                &&& entry.num_scalars == spirv.num_scalars
            }),
{
    search_is_as_expected(server, id, world);
}

} // verus!
