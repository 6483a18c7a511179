use cubecl_wgpu_server::cache_file::PipelineCacheState;
use cubecl_wgpu_server::kernel::{
    AutoCompiler, Backend, CompilationError, CompiledKernel, CubeDim, DebugInformation,
    ExecutionMode, Features, KernelId, Representation, SpirvCacheEntry, SpirvKernel, Visibility,
};
use cubecl_wgpu_server::pipeline::PipelineStep;
use cubecl_wgpu_server::server::{Settings, WgpuServer};

const CHECKED: ExecutionMode = ExecutionMode::Checked;
const UNCHECKED: ExecutionMode = ExecutionMode::Unchecked;

fn server(spirv: bool, log: bool, pipeline_cache: bool) -> WgpuServer {
    WgpuServer::new(
        32,
        Backend::Vulkan,
        Features { spirv, msl: false },
        Settings { max_streams: 1, compilation_cache: true, compilation_log: log },
        if pipeline_cache { Some(PipelineCacheState::new(true)) } else { None },
    )
}

fn error(reason: &str) -> CompilationError {
    CompilationError::Validation { reason: reason.to_string() }
}

fn entry() -> SpirvCacheEntry {
    SpirvCacheEntry {
        entrypoint_name: "main".to_string(),
        cube_dim: (8, 4, 2),
        spirv: vec![3, 1, 4],
        binding_visibilities: vec![Visibility::Read, Visibility::ReadWrite],
        has_metadata: true,
        num_scalars: 2,
    }
}

fn kernel(spirv: bool) -> CompiledKernel {
    CompiledKernel {
        entrypoint_name: "main".to_string(),
        cube_dim: CubeDim { x: 8, y: 4, z: 2 },
        repr: Some(if spirv {
            Representation::SpirV(SpirvKernel {
                binding_visibilities: vec![Visibility::Read, Visibility::ReadWrite],
                has_metadata: true,
                num_scalars: 2,
            })
        } else {
            Representation::Wgsl
        }),
    }
}

/// What the world answers.
struct World {
    cached: Option<SpirvCacheEntry>,
    compiled: fn() -> Result<CompiledKernel, CompilationError>,
    created: fn() -> Result<u64, CompilationError>,
}

impl World {
    fn spirv() -> World {
        World { cached: None, compiled: || Ok(kernel(true)), created: || Ok(40) }
    }

    fn wgsl() -> World {
        World { cached: None, compiled: || Ok(kernel(false)), created: || Ok(41) }
    }
}

/// Runs a search to its end and tells what was done on the way.
fn search(
    server: &mut WgpuServer,
    kernel: u64,
    mode: ExecutionMode,
    world: &World,
) -> (Vec<String>, Result<u64, CompilationError>) {
    let searched = KernelId { kernel, mode };
    let mut done = Vec::new();
    let mut step = server.pipeline(kernel, mode);
    loop {
        step = match step {
            PipelineStep::Done(result) => return (done, result),
            PipelineStep::ReadSpirv { id } => {
                assert_eq!(id, searched);
                done.push("read".to_string());
                server.spirv_read(id, "stable".to_string(), world.cached.clone())
            }
            PipelineStep::CreateFromSpirv { id, entry } => {
                assert_eq!(Some(entry), world.cached);
                done.push("create from cache".to_string());
                server.created_from_spirv(id, (world.created)())
            }
            PipelineStep::Compile { id, compiler, stable_name } => {
                assert_eq!(id, searched);
                done.push(format!("compile {compiler:?}"));
                server.compiled(id, stable_name, (world.compiled)())
            }
            PipelineStep::Log { id, debug_info, stable_name, kernel } => {
                if let Some(info) = debug_info {
                    assert_eq!(info.id, searched);
                    done.push("debug".to_string());
                }
                done.push("log".to_string());
                server.logged(id, stable_name, kernel)
            }
            PipelineStep::Assemble { id, name, entrypoint_name, cube_dim, spirv } => {
                done.push("assemble".to_string());
                server.assembled(id, name, entrypoint_name, cube_dim, spirv, vec![3, 1, 4])
            }
            PipelineStep::Create { id, insert } => {
                assert_eq!(id, searched);
                done.push("create".to_string());
                server.created(id, insert, (world.created)())
            }
            PipelineStep::InsertSpirv { id, pipeline, name, entry: kept } => {
                assert_eq!(name, "stable");
                assert_eq!(kept, entry());
                done.push("keep".to_string());
                server.spirv_inserted(id, pipeline)
            }
            PipelineStep::Save { pipeline } => {
                done.push("save".to_string());
                server.saved(pipeline)
            }
        };
    }
}

#[test]
fn first_search_compiles_and_keeps() {
    let mut server = server(true, false, true);
    let (done, result) = search(&mut server, 1, CHECKED, &World::spirv());
    assert_eq!(result, Ok(40));
    assert_eq!(
        done,
        ["read", "compile SpirV", "log", "assemble", "create", "keep", "save"]
    );
}

#[test]
fn second_search_finds_the_same_pipeline() {
    let mut server = server(true, false, true);
    let _ = search(&mut server, 1, CHECKED, &World::spirv());
    let other = World { cached: None, compiled: || Err(error("no")), created: || Ok(99) };
    assert_eq!(search(&mut server, 1, CHECKED, &other), (vec![], Ok(40)));
}

#[test]
fn modes_and_kernels_have_their_own_pipelines() {
    let mut server = server(false, false, false);
    let worlds: [fn() -> Result<u64, CompilationError>; 3] = [|| Ok(1), || Ok(2), || Ok(3)];
    let ids = [(5, CHECKED), (5, UNCHECKED), (6, CHECKED)];
    for ((kernel_number, mode), created) in ids.into_iter().zip(worlds) {
        let world = World { cached: None, compiled: || Ok(kernel(false)), created };
        let (done, _) = search(&mut server, kernel_number, mode, &world);
        assert_eq!(done, ["compile Wgsl", "log", "create"]);
    }
    for ((kernel_number, mode), pipeline) in ids.into_iter().zip([1, 2, 3]) {
        let found = search(&mut server, kernel_number, mode, &World::wgsl());
        assert_eq!(found, (vec![], Ok(pipeline)));
    }
}

#[test]
fn kept_kernel_is_not_compiled() {
    let mut server = server(true, true, true);
    let world = World { cached: Some(entry()), ..World::spirv() };
    let (done, result) = search(&mut server, 1, CHECKED, &world);
    assert_eq!(result, Ok(40));
    assert_eq!(done, ["read", "create from cache", "save"]);
    assert_eq!(search(&mut server, 1, CHECKED, &world), (vec![], Ok(40)));
}

#[test]
fn without_a_pipeline_cache_nothing_is_saved() {
    let mut spirv = server(true, false, false);
    let world = World { cached: Some(entry()), ..World::spirv() };
    assert_eq!(search(&mut spirv, 1, CHECKED, &world).0, ["read", "create from cache"]);
    let (done, _) = search(&mut spirv, 2, CHECKED, &World::spirv());
    assert_eq!(done, ["read", "compile SpirV", "log", "assemble", "create", "keep"]);
}

#[test]
fn other_representations_are_not_kept() {
    let mut server = server(true, false, true);
    let (done, result) = search(&mut server, 1, CHECKED, &World::wgsl());
    assert_eq!(result, Ok(41));
    assert_eq!(done, ["read", "compile SpirV", "log", "create", "save"]);
    let bare = World {
        compiled: || Ok(CompiledKernel { repr: None, ..kernel(true) }),
        ..World::spirv()
    };
    assert_eq!(search(&mut server, 2, CHECKED, &bare).0, done);
    let metal = World {
        compiled: || Ok(CompiledKernel { repr: Some(Representation::Msl), ..kernel(true) }),
        ..World::spirv()
    };
    assert_eq!(search(&mut server, 3, CHECKED, &metal).0, done);
}

#[test]
fn spirv_is_not_kept_without_a_cache() {
    let mut server = server(false, false, false);
    let (done, _) = search(&mut server, 1, CHECKED, &World::spirv());
    assert_eq!(done, ["compile Wgsl", "log", "create"]);
}

#[test]
fn logged_compilations_carry_debug_information() {
    let mut server = server(true, true, false);
    let (done, _) = search(&mut server, 1, UNCHECKED, &World::wgsl());
    assert_eq!(done, ["read", "compile SpirV", "debug", "log", "create"]);
    let id = KernelId { kernel: 2, mode: UNCHECKED };
    assert_eq!(
        server.compiled(id, None, Ok(kernel(false))),
        PipelineStep::Log {
            id,
            debug_info: Some(DebugInformation { compiler: AutoCompiler::SpirV, id }),
            stable_name: None,
            kernel: kernel(false),
        }
    );
}

#[test]
fn failed_compilation_is_passed_on_and_tried_again() {
    let mut server = server(true, false, true);
    let errors: [fn() -> CompilationError; 3] = [
        || CompilationError::UnsupportedInstruction { reason: "a".to_string() },
        || CompilationError::Generic { reason: "b".to_string() },
        || CompilationError::Validation { reason: "c".to_string() },
    ];
    let worlds: [fn() -> Result<CompiledKernel, CompilationError>; 3] = [
        || Err(CompilationError::UnsupportedInstruction { reason: "a".to_string() }),
        || Err(CompilationError::Generic { reason: "b".to_string() }),
        || Err(CompilationError::Validation { reason: "c".to_string() }),
    ];
    for (expected, compiled) in errors.into_iter().zip(worlds) {
        let world = World { compiled, ..World::spirv() };
        let (done, result) = search(&mut server, 1, CHECKED, &world);
        assert_eq!(result, Err(expected()));
        assert_eq!(done, ["read", "compile SpirV"]);
    }
    assert_eq!(search(&mut server, 1, CHECKED, &World::spirv()).1, Ok(40));
}

#[test]
fn failed_creation_is_passed_on_and_keeps_nothing() {
    let mut server = server(true, false, true);
    let world = World { created: || Err(error("bad")), ..World::spirv() };
    let (done, result) = search(&mut server, 1, CHECKED, &world);
    assert_eq!(result, Err(error("bad")));
    assert_eq!(done, ["read", "compile SpirV", "log", "assemble", "create"]);
    let cached = World { cached: Some(entry()), ..world };
    let (done, result) = search(&mut server, 1, CHECKED, &cached);
    assert_eq!(result, Err(error("bad")));
    assert_eq!(done, ["read", "create from cache"]);
    assert_eq!(search(&mut server, 1, CHECKED, &World::spirv()).1, Ok(40));
}
