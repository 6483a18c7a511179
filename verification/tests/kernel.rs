use cubecl_wgpu_server::kernel::{
    compiler, AutoCompiler, Backend, ExecutionMode, Features, KernelId, SpirvCacheEntry,
    Visibility,
};

const ALL: [Backend; 6] = [
    Backend::Noop,
    Backend::Vulkan,
    Backend::Metal,
    Backend::Dx12,
    Backend::Gl,
    Backend::BrowserWebGpu,
];

#[test]
fn compilers_of_backends() {
    for backend in ALL {
        for (spirv, msl) in [(false, false), (false, true), (true, false), (true, true)] {
            let expected = if backend == Backend::Vulkan && spirv {
                AutoCompiler::SpirV
            } else if backend == Backend::Metal && msl {
                AutoCompiler::Msl
            } else {
                AutoCompiler::Wgsl
            };
            assert_eq!(compiler(backend, Features { spirv, msl }), expected);
        }
    }
}

#[test]
fn mode_is_part_of_the_key() {
    let checked = KernelId::new(4);
    assert_eq!(checked.mode, ExecutionMode::Checked);
    let mut unchecked = checked;
    unchecked.mode(ExecutionMode::Unchecked);
    assert_eq!(unchecked, KernelId { kernel: 4, mode: ExecutionMode::Unchecked });
    assert_ne!(checked.key(), unchecked.key());
    assert_ne!(checked.key(), KernelId::new(5).key());
    assert_eq!(checked.key(), KernelId::new(4).key());
}

#[test]
fn cloned_entry_is_equal() {
    let entry = SpirvCacheEntry {
        entrypoint_name: "main".to_string(),
        cube_dim: (8, 4, 1),
        spirv: vec![0x0723_0203, 5],
        binding_visibilities: vec![Visibility::Read, Visibility::ReadWrite],
        has_metadata: true,
        num_scalars: 2,
    };
    assert_eq!(entry.clone(), entry);
}
