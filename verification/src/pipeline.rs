//! The pipelines that the server has made, and how it comes by one for a kernel.
use crate::kernel::{
    compiler, AutoCompiler, CompilationError, CompiledKernel, CubeDim, DebugInformation,
    ExecutionMode, KernelId, Representation, SpirvCacheEntry, SpirvKernel,
};
use crate::server::{ServerView, WgpuServer};
use vstd::prelude::*;

verus! {

/// The pipelines made so far, by the key of their kernel. A pipeline is known by its number.
#[verifier::external_body]
#[derive(Debug)]
pub struct PipelineTable {
    map: hashbrown::HashMap<(u64, bool), u64>,
}

/// The entries that a table holds.
pub uninterp spec fn table_entries(table: PipelineTable) -> Map<(u64, bool), u64>;

impl View for PipelineTable {
    type V = Map<(u64, bool), u64>;

    open spec fn view(&self) -> Map<(u64, bool), u64> {
        table_entries(*self)
    }
}

impl PipelineTable {
    /// Calls `hashbrown::HashMap::new`: the new table holds no entry.
    #[verifier::external_body]
    pub(crate) fn new() -> (table: Self)
        ensures
            table_entries(table) == (Map::<(u64, bool), u64>::empty()),
    {
        PipelineTable { map: hashbrown::HashMap::new() }
    }

    /// Calls `hashbrown::HashMap::get`: the value under the key, or nothing where the table has
    /// no such key. Pairs of a `u64` and a `bool` are equal exactly where both parts are, and
    /// equal pairs hash alike.
    #[verifier::external_body]
    pub(crate) fn get(&self, key: (u64, bool)) -> (found: Option<u64>)
        ensures
            found == if table_entries(*self).contains_key(key) {
                Some(table_entries(*self)[key])
            } else {
                None
            },
    {
        self.map.get(&key).copied()
    }

    /// Calls `hashbrown::HashMap::insert`: the key now has the value, no other key has changed,
    /// and what the key had before is handed back.
    #[verifier::external_body]
    pub(crate) fn insert(&mut self, key: (u64, bool), pipeline: u64) -> (previous: Option<u64>)
        ensures
            table_entries(*final(self)) == table_entries(*old(self)).insert(key, pipeline),
            previous == if table_entries(*old(self)).contains_key(key) {
                Some(table_entries(*old(self))[key])
            } else {
                None
            },
    {
        self.map.insert(key, pipeline)
    }
}

/// What has to be done next to come by the pipeline of a kernel. Each step but the last names the
/// function of the server that goes on with its outcome.
#[derive(Debug, PartialEq, Eq)]
pub enum PipelineStep {
    /// The search is over: the number of the pipeline, or why there is none.
    Done(Result<u64, CompilationError>),
    /// Look for the kernel in the SPIR-V cache, under its stable name
    /// ([`WgpuServer::spirv_read`]).
    ReadSpirv { id: KernelId },
    /// Make a pipeline of a cached entry ([`WgpuServer::created_from_spirv`]).
    CreateFromSpirv { id: KernelId, entry: SpirvCacheEntry },
    /// Compile the kernel in its mode ([`WgpuServer::compiled`]).
    Compile { id: KernelId, compiler: AutoCompiler, stable_name: Option<String> },
    /// Attach the debug information, where there is any, and log the compilation
    /// ([`WgpuServer::logged`]).
    Log {
        id: KernelId,
        debug_info: Option<DebugInformation>,
        stable_name: Option<String>,
        kernel: CompiledKernel,
    },
    /// Assemble the words of the compiled SPIR-V kernel ([`WgpuServer::assembled`]).
    Assemble {
        id: KernelId,
        name: String,
        entrypoint_name: String,
        cube_dim: CubeDim,
        spirv: SpirvKernel,
    },
    /// Make a pipeline of the compiled kernel in its mode ([`WgpuServer::created`]).
    Create { id: KernelId, insert: Option<(String, SpirvCacheEntry)> },
    /// Insert the entry into the SPIR-V cache ([`WgpuServer::spirv_inserted`]).
    InsertSpirv { id: KernelId, pipeline: u64, name: String, entry: SpirvCacheEntry },
    /// Save the driver's pipeline cache ([`WgpuServer::saved`]).
    Save { pipeline: u64 },
}

/// The entry that is kept of a compiled SPIR-V kernel.
pub open spec fn spirv_entry(
    entrypoint_name: String,
    cube_dim: CubeDim,
    spirv: SpirvKernel,
    words: Vec<u32>,
) -> SpirvCacheEntry {
    SpirvCacheEntry {
        entrypoint_name,
        cube_dim: (cube_dim.x, cube_dim.y, cube_dim.z),
        spirv: words,
        binding_visibilities: spirv.binding_visibilities,
        has_metadata: spirv.has_metadata,
        num_scalars: spirv.num_scalars,
    }
}

/// The first step towards the pipeline of a kernel.
pub open spec fn after_request(server: ServerView, id: KernelId) -> PipelineStep {
    if server.pipelines.contains_key(id.spec_key()) {
        PipelineStep::Done(Ok(server.pipelines[id.spec_key()]))
    } else if server.spirv_cache {
        PipelineStep::ReadSpirv { id }
    } else {
        PipelineStep::Compile { id, compiler: server.compiler(), stable_name: None }
    }
}

/// The step after a look into the SPIR-V cache.
pub open spec fn after_spirv_read(
    server: ServerView,
    id: KernelId,
    name: String,
    entry: Option<SpirvCacheEntry>,
) -> PipelineStep {
    match entry {
        Some(entry) => PipelineStep::CreateFromSpirv { id, entry },
        None => PipelineStep::Compile { id, compiler: server.compiler(), stable_name: Some(name) },
    }
}

/// The step after a compilation.
pub open spec fn after_compilation(
    server: ServerView,
    id: KernelId,
    stable_name: Option<String>,
    compiled: Result<CompiledKernel, CompilationError>,
) -> PipelineStep {
    match compiled {
        Ok(kernel) => PipelineStep::Log {
            id,
            debug_info: if server.compilation_log {
                Some(DebugInformation { compiler: server.compiler(), id })
            } else {
                None
            },
            stable_name,
            kernel,
        },
        Err(error) => PipelineStep::Done(Err(error)),
    }
}

/// The step after a compilation was logged.
pub open spec fn after_log(
    server: ServerView,
    id: KernelId,
    stable_name: Option<String>,
    kernel: CompiledKernel,
) -> PipelineStep {
    match (stable_name, kernel.repr) {
        (Some(name), Some(Representation::SpirV(spirv))) if server.spirv_cache =>
            PipelineStep::Assemble {
                id,
                name,
                entrypoint_name: kernel.entrypoint_name,
                cube_dim: kernel.cube_dim,
                spirv,
            },
        _ => PipelineStep::Create { id, insert: None },
    }
}

/// The step after a new pipeline was put into the table.
pub open spec fn after_insertion(server: ServerView, pipeline: u64) -> PipelineStep {
    if server.pipeline_cache is Some {
        PipelineStep::Save { pipeline }
    } else {
        PipelineStep::Done(Ok(pipeline))
    }
}

/// The server and the step after a pipeline was made of a cached entry, or was not.
pub open spec fn after_creation_from_spirv(
    server: ServerView,
    id: KernelId,
    created: Result<u64, CompilationError>,
) -> (ServerView, PipelineStep) {
    match created {
        Ok(pipeline) => (server.with_pipeline(id, pipeline), after_insertion(server, pipeline)),
        Err(error) => (server, PipelineStep::Done(Err(error))),
    }
}

/// The server and the step after a pipeline was made of a compiled kernel, or was not.
pub open spec fn after_creation(
    server: ServerView,
    id: KernelId,
    insert: Option<(String, SpirvCacheEntry)>,
    created: Result<u64, CompilationError>,
) -> (ServerView, PipelineStep) {
    match (created, insert) {
        (Ok(pipeline), Some((name, entry))) => (
            server,
            PipelineStep::InsertSpirv { id, pipeline, name, entry },
        ),
        (Ok(pipeline), None) => (
            server.with_pipeline(id, pipeline),
            after_insertion(server, pipeline),
        ),
        (Err(error), _) => (server, PipelineStep::Done(Err(error))),
    }
}

impl WgpuServer {
    /// Starts to come by the pipeline of a kernel: the one made before, where there is one, and
    /// else what leads to one.
    pub fn pipeline(&self, kernel: u64, mode: ExecutionMode) -> (step: PipelineStep)
        ensures
            step == after_request(self@, KernelId { kernel, mode }),
    {
        let mut id = KernelId::new(kernel);
        id.mode(mode);
        if let Some(pipeline) = self.pipelines.get(id.key()) {
            return PipelineStep::Done(Ok(pipeline));
        }
        if self.spirv_cache {
            PipelineStep::ReadSpirv { id }
        } else {
            PipelineStep::Compile {
                id,
                compiler: compiler(self.backend, self.features),
                stable_name: None,
            }
        }
    }

    /// Goes on with what the SPIR-V cache has under the stable name of the kernel.
    pub fn spirv_read(
        &self,
        id: KernelId,
        name: String,
        entry: Option<SpirvCacheEntry>,
    ) -> (step: PipelineStep)
        ensures
            step == after_spirv_read(self@, id, name, entry),
    {
        match entry {
            Some(entry) => PipelineStep::CreateFromSpirv { id, entry },
            None => PipelineStep::Compile {
                id,
                compiler: compiler(self.backend, self.features),
                stable_name: Some(name),
            },
        }
    }

    /// Puts a new pipeline into the table and goes on to save the driver's cache, where it is
    /// kept between runs.
    fn insert_pipeline(&mut self, id: KernelId, pipeline: u64) -> (step: PipelineStep)
        ensures
            final(self)@ == old(self)@.with_pipeline(id, pipeline),
            step == after_insertion(old(self)@, pipeline),
    {
        let _ = self.pipelines.insert(id.key(), pipeline);
        match self.pipeline_cache {
            Some(_) => PipelineStep::Save { pipeline },
            None => PipelineStep::Done(Ok(pipeline)),
        }
    }

    /// Goes on with the pipeline that was made of a cached entry, or with why none was.
    pub fn created_from_spirv(
        &mut self,
        id: KernelId,
        created: Result<u64, CompilationError>,
    ) -> (step: PipelineStep)
        ensures
            (final(self)@, step) == after_creation_from_spirv(old(self)@, id, created),
    {
        match created {
            Ok(pipeline) => self.insert_pipeline(id, pipeline),
            Err(error) => PipelineStep::Done(Err(error)),
        }
    }

    /// Goes on with the compiled kernel, or with why there is none.
    pub fn compiled(
        &self,
        id: KernelId,
        stable_name: Option<String>,
        compiled: Result<CompiledKernel, CompilationError>,
    ) -> (step: PipelineStep)
        ensures
            step == after_compilation(self@, id, stable_name, compiled),
    {
        match compiled {
            Ok(kernel) => {
                let debug_info = if self.compilation_log {
                    Some(DebugInformation { compiler: compiler(self.backend, self.features), id })
                } else {
                    None
                };
                PipelineStep::Log { id, debug_info, stable_name, kernel }
            },
            Err(error) => PipelineStep::Done(Err(error)),
        }
    }

    /// Goes on once the compilation was logged: a SPIR-V kernel is assembled first where it is
    /// to be kept between runs.
    pub fn logged(
        &self,
        id: KernelId,
        stable_name: Option<String>,
        kernel: CompiledKernel,
    ) -> (step: PipelineStep)
        ensures
            step == after_log(self@, id, stable_name, kernel),
    {
        if self.spirv_cache {
            if let Some(name) = stable_name {
                if let Some(Representation::SpirV(spirv)) = kernel.repr {
                    return PipelineStep::Assemble {
                        id,
                        name,
                        entrypoint_name: kernel.entrypoint_name,
                        cube_dim: kernel.cube_dim,
                        spirv,
                    };
                }
            }
        }
        PipelineStep::Create { id, insert: None }
    }

    /// Goes on with the words of the assembled kernel.
    pub fn assembled(
        &self,
        id: KernelId,
        name: String,
        entrypoint_name: String,
        cube_dim: CubeDim,
        spirv: SpirvKernel,
        words: Vec<u32>,
    ) -> (step: PipelineStep)
        ensures
            step == (PipelineStep::Create {
                id,
                insert: Some((name, spirv_entry(entrypoint_name, cube_dim, spirv, words))),
            }),
            step matches PipelineStep::Create { insert: Some((kept_as, entry)), .. } && {
                &&& kept_as == name
                &&& entry.entrypoint_name == entrypoint_name
                &&& entry.cube_dim.0 == cube_dim.x
                &&& entry.cube_dim.1 == cube_dim.y
                &&& entry.cube_dim.2 == cube_dim.z
                &&& entry.spirv == words
                &&& entry.binding_visibilities == spirv.binding_visibilities
                &&& entry.has_metadata == spirv.has_metadata
                &&& entry.num_scalars == spirv.num_scalars
            },
    {
        let entry = SpirvCacheEntry {
            entrypoint_name,
            cube_dim: (cube_dim.x, cube_dim.y, cube_dim.z),
            spirv: words,
            binding_visibilities: spirv.binding_visibilities,
            has_metadata: spirv.has_metadata,
            num_scalars: spirv.num_scalars,
        };
        PipelineStep::Create { id, insert: Some((name, entry)) }
    }

    /// Goes on with the pipeline that was made of the compiled kernel, or with why none was.
    pub fn created(
        &mut self,
        id: KernelId,
        insert: Option<(String, SpirvCacheEntry)>,
        created: Result<u64, CompilationError>,
    ) -> (step: PipelineStep)
        ensures
            (final(self)@, step) == after_creation(old(self)@, id, insert, created),
    {
        match created {
            Ok(pipeline) => match insert {
                Some((name, entry)) => PipelineStep::InsertSpirv { id, pipeline, name, entry },
                None => self.insert_pipeline(id, pipeline),
            },
            Err(error) => PipelineStep::Done(Err(error)),
        }
    }

    /// Goes on once the SPIR-V cache was asked to take the entry, whether or not it could.
    pub fn spirv_inserted(&mut self, id: KernelId, pipeline: u64) -> (step: PipelineStep)
        ensures
            final(self)@ == old(self)@.with_pipeline(id, pipeline),
            step == after_insertion(old(self)@, pipeline),
    {
        self.insert_pipeline(id, pipeline)
    }

    /// Ends the search once the driver's cache was saved, whether or not it could be.
    pub fn saved(&self, pipeline: u64) -> (step: PipelineStep)
        ensures
            step == PipelineStep::Done(Ok(pipeline)),
    {
        PipelineStep::Done(Ok(pipeline))
    }
}

} // verus!
