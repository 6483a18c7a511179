//! What the server knows of a kernel: its identity, the compiler it goes to, and what comes back.
use vstd::prelude::*;

verus! {

/// The kind of execution of a kernel.
#[derive(Clone, Copy, Debug, PartialEq, Eq, Structural)]
pub enum ExecutionMode {
    /// Out-of-bounds accesses are caught.
    Checked,
    /// Out-of-bounds accesses are not caught.
    Unchecked,
}

/// The identity under which a kernel is cached.
///
/// `kernel` numbers everything that tells kernels apart but the execution mode: two kernels have
/// the same number exactly where they generate the same code in the same mode.
#[derive(Clone, Copy, Debug, PartialEq, Eq, Structural)]
pub struct KernelId {
    pub kernel: u64,
    pub mode: ExecutionMode,
}

impl KernelId {
    /// The identity of a kernel in the default mode, with checks.
    pub fn new(kernel: u64) -> (id: Self)
        ensures
            id == (KernelId { kernel, mode: ExecutionMode::Checked }),
    {
        KernelId { kernel, mode: ExecutionMode::Checked }
    }

    /// Sets the execution mode.
    pub fn mode(&mut self, mode: ExecutionMode)
        ensures
            *final(self) == (KernelId { kernel: old(self).kernel, mode }),
    {
        self.mode = mode;
    }

    /// The identity as a key of plain values: the kernel's number, and whether it is checked.
    pub open spec fn spec_key(self) -> (u64, bool) {
        (self.kernel, self.mode == ExecutionMode::Checked)
    }

    /// The identity as a key of plain values.
    pub fn key(&self) -> (key: (u64, bool))
        ensures
            key == self.spec_key(),
    {
        (self.kernel, self.mode == ExecutionMode::Checked)
    }
}

/// Two identities have the same key only where they are the same: a kernel compiled with checks
/// is never taken for the same kernel compiled without.
pub proof fn key_identifies_kernel(a: KernelId, b: KernelId)
    ensures
        a.spec_key() == b.spec_key() <==> a.kernel == b.kernel && a.mode == b.mode,
        a.spec_key() == b.spec_key() <==> a == b,
{
}

/// The graphics interface that a device is driven through.
#[derive(Clone, Copy, Debug, PartialEq, Eq, Structural)]
pub enum Backend {
    Noop,
    Vulkan,
    Metal,
    Dx12,
    Gl,
    BrowserWebGpu,
}

/// The compilers that are available besides the one for WGSL.
#[derive(Clone, Copy, Debug, PartialEq, Eq, Structural)]
pub struct Features {
    pub spirv: bool,
    pub msl: bool,
}

/// The compiler that kernels go to.
#[derive(Clone, Copy, Debug, PartialEq, Eq, Structural)]
pub enum AutoCompiler {
    Wgsl,
    SpirV,
    Msl,
}

/// The compiler that serves a backend.
pub open spec fn spec_compiler(backend: Backend, features: Features) -> AutoCompiler {
    if backend == Backend::Vulkan && features.spirv {
        AutoCompiler::SpirV
    } else if backend == Backend::Metal && features.msl {
        AutoCompiler::Msl
    } else {
        AutoCompiler::Wgsl
    }
}

/// Kernels go to the SPIR-V compiler exactly on Vulkan and to the MSL compiler exactly on Metal,
/// each only where it is available; every other kernel goes to the WGSL compiler.
pub proof fn compiler_suits_backend(backend: Backend, features: Features)
    ensures
        spec_compiler(backend, features) is SpirV <==> backend is Vulkan && features.spirv,
        spec_compiler(backend, features) is Msl <==> backend is Metal && features.msl,
        spec_compiler(backend, features) is Wgsl <==> !(backend is Vulkan && features.spirv) && !(
        backend is Metal && features.msl),
{
}

/// Picks the compiler for a backend: SPIR-V for Vulkan and MSL for Metal where they are
/// available, and WGSL everywhere else.
pub fn compiler(backend: Backend, features: Features) -> (compiler: AutoCompiler)
    ensures
        compiler == spec_compiler(backend, features),
{
    match backend {
        Backend::Vulkan => {
            if features.spirv {
                AutoCompiler::SpirV
            } else {
                AutoCompiler::Wgsl
            }
        },
        Backend::Metal => {
            if features.msl {
                AutoCompiler::Msl
            } else {
                AutoCompiler::Wgsl
            }
        },
        _ => AutoCompiler::Wgsl,
    }
}

/// How a kernel may use a buffer.
#[derive(Clone, Copy, Debug, PartialEq, Eq, Structural)]
pub enum Visibility {
    Read,
    ReadWrite,
}

/// Why a kernel could not be compiled.
#[derive(Debug, PartialEq, Eq)]
pub enum CompilationError {
    /// An instruction is not supported.
    UnsupportedInstruction { reason: String },
    /// The compilation failed.
    Generic { reason: String },
    /// The compiled kernel is not valid.
    Validation { reason: String },
}

/// The number of units of a cube along each axis.
#[derive(Clone, Copy, Debug, PartialEq, Eq, Structural)]
pub struct CubeDim {
    pub x: u32,
    pub y: u32,
    pub z: u32,
}

/// What a SPIR-V kernel says of its parameters.
#[derive(Debug, PartialEq, Eq)]
pub struct SpirvKernel {
    /// How each binding is used.
    pub binding_visibilities: Vec<Visibility>,
    /// Whether the kernel uses a metadata buffer.
    pub has_metadata: bool,
    /// Number of scalar parameter buffers.
    pub num_scalars: usize,
}

/// The form in which a compiler keeps a compiled kernel.
#[derive(Debug, PartialEq, Eq)]
pub enum Representation {
    Wgsl,
    SpirV(SpirvKernel),
    Msl,
}

/// A compiled kernel.
#[derive(Debug, PartialEq, Eq)]
pub struct CompiledKernel {
    /// Name of the entry point.
    pub entrypoint_name: String,
    /// Size of a cube.
    pub cube_dim: CubeDim,
    /// The compiler's own form of the kernel, where it keeps one.
    pub repr: Option<Representation>,
}

/// What is attached to a compiled kernel while compilations are logged.
#[derive(Clone, Copy, Debug, PartialEq, Eq, Structural)]
pub struct DebugInformation {
    /// The compiler, which determines the language of the source.
    pub compiler: AutoCompiler,
    pub id: KernelId,
}

/// A compiled SPIR-V kernel as it is kept between runs: everything that a compute pipeline is
/// made of.
#[derive(Debug, PartialEq, Eq)]
pub struct SpirvCacheEntry {
    /// Shader entrypoint function name.
    pub entrypoint_name: String,
    /// Workgroup dimensions `(x, y, z)`.
    pub cube_dim: (u32, u32, u32),
    /// Assembled SPIR-V words.
    pub spirv: Vec<u32>,
    /// Per-binding visibility (read vs read-write).
    pub binding_visibilities: Vec<Visibility>,
    /// Whether the kernel uses a metadata buffer.
    pub has_metadata: bool,
    /// Number of scalar parameter buffers.
    pub num_scalars: usize,
}

impl Clone for SpirvCacheEntry {
    fn clone(&self) -> (copy: Self)
        ensures
            copy.entrypoint_name@ == self.entrypoint_name@,
            copy.cube_dim == self.cube_dim,
            copy.spirv@ == self.spirv@,
            copy.binding_visibilities@ == self.binding_visibilities@,
            copy.has_metadata == self.has_metadata,
            copy.num_scalars == self.num_scalars,
    {
        let spirv = self.spirv.clone();
        let binding_visibilities = self.binding_visibilities.clone();
        assert(spirv@ =~= self.spirv@);
        assert(binding_visibilities@ =~= self.binding_visibilities@);
        SpirvCacheEntry {
            entrypoint_name: self.entrypoint_name.clone(),
            cube_dim: self.cube_dim,
            spirv,
            binding_visibilities,
            has_metadata: self.has_metadata,
            num_scalars: self.num_scalars,
        }
    }
}

} // verus!
