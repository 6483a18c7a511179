use cubecl_wgpu_server::allocation::{Allocation, AllocationDescriptor};
use cubecl_wgpu_server::kernel::{Backend, Features};
use cubecl_wgpu_server::memory::{Handle, IoError, StreamId};
use cubecl_wgpu_server::server::{Settings, WgpuServer};

fn server() -> WgpuServer {
    WgpuServer::new(
        32,
        Backend::Vulkan,
        Features { spirv: false, msl: false },
        Settings { max_streams: 1, compilation_cache: false, compilation_log: false },
        None,
    )
}

fn tensor(shape: &[usize], elem_size: usize) -> AllocationDescriptor {
    AllocationDescriptor { shape: shape.to_vec(), elem_size }
}

fn block(size: u64, stream: u64) -> Handle {
    Handle {
        memory: 7,
        offset_start: None,
        offset_end: None,
        stream: StreamId { value: stream },
        cursor: 3,
        size,
    }
}

fn created(descriptors: &[AllocationDescriptor], align: u32, base: Handle) -> Vec<Allocation> {
    assert!(WgpuServer::can_create(descriptors, align));
    let pending = server().create(descriptors, base.stream, align);
    assert!(pending.fits_into(&base));
    pending.reserved(Ok(base)).unwrap()
}

#[test]
fn one_block_for_several_tensors() {
    let tensors = [tensor(&[2, 3], 4), tensor(&[300], 1), tensor(&[1, 1], 8)];
    let pending = server().create(&tensors, StreamId { value: 5 }, 256);
    assert_eq!(pending.stream, StreamId { value: 5 });
    assert_eq!(pending.sizes, vec![24, 300, 8]);
    assert_eq!(pending.size, 256 + 512 + 256);
    assert_eq!(pending.strides, vec![vec![3, 1], vec![1], vec![1, 1]]);
    assert_eq!(pending.align, 256);

    let base = block(1024, 5);
    let allocations = pending.reserved(Ok(base)).unwrap();
    let offsets: Vec<_> =
        allocations.iter().map(|a| (a.handle.offset_start, a.handle.offset_end)).collect();
    assert_eq!(
        offsets,
        vec![
            (Some(0), Some(1000)),
            (Some(256), Some(468)),
            (Some(768), Some(248)),
        ]
    );
    for (allocation, size) in allocations.iter().zip([24, 300, 8]) {
        assert_eq!(allocation.handle.checked_size(), Some(size));
        assert_eq!(allocation.handle.memory, 7);
        assert_eq!(allocation.handle.cursor, 3);
        assert_eq!(allocation.handle.size, 1024);
        assert_eq!(allocation.handle.stream, StreamId { value: 5 });
    }
    assert_eq!(allocations[0].strides, vec![3, 1]);
    assert_eq!(allocations[1].strides, vec![1]);
    assert_eq!(allocations[2].strides, vec![1, 1]);
}

#[test]
fn offsets_add_to_those_of_the_block() {
    let mut base = block(2048, 1);
    base.offset_start = Some(512);
    base.offset_end = Some(100);
    let allocations = created(&[tensor(&[10], 1), tensor(&[20], 1)], 32, base);
    assert_eq!(allocations[0].handle.offset_start, Some(512));
    assert_eq!(allocations[0].handle.offset_end, Some(2048 - 512 - 10));
    assert_eq!(allocations[1].handle.offset_start, Some(544));
    assert_eq!(allocations[1].handle.offset_end, Some(2048 - 544 - 20));
}

#[test]
fn sizes_at_the_alignment_are_not_padded() {
    let tensors = [tensor(&[64], 4), tensor(&[64], 4)];
    let pending = server().create(&tensors, StreamId { value: 0 }, 256);
    assert_eq!(pending.size, 512);
}

#[test]
fn parts_are_aligned_and_apart() {
    let tensors: Vec<_> = (1..20).map(|n| tensor(&[n, n], 3)).collect();
    let pending = server().create(&tensors, StreamId { value: 0 }, 64);
    let base = block(pending.size, 0);
    let allocations = created(&tensors, 64, base);
    let mut end = 0;
    for (n, allocation) in (1..20).zip(&allocations) {
        let start = allocation.handle.offset_start.unwrap();
        assert_eq!(start % 64, 0);
        assert!(start >= end && start < end + 64);
        end = base.size - allocation.handle.offset_end.unwrap();
        assert_eq!(end - start, n * n * 3);
    }
    assert!(end <= base.size);
}

#[test]
fn no_tensors_need_no_memory() {
    let pending = server().create(&[], StreamId { value: 0 }, 256);
    assert_eq!(pending.size, 0);
    assert_eq!(pending.reserved(Ok(block(0, 0))).unwrap(), vec![]);
}

#[test]
fn no_tensors_need_no_alignment() {
    assert_eq!(created(&[], 0, block(8, 0)), vec![]);
    let mut base = block(8, 0);
    base.offset_start = Some(9);
    assert!(!server().create(&[], StreamId { value: 0 }, 0).fits_into(&base));
}

#[test]
fn empty_tensors_get_empty_parts() {
    let allocations = created(&[tensor(&[0, 4], 4), tensor(&[3], 4)], 16, block(16, 0));
    assert_eq!(allocations[0].handle.checked_size(), Some(0));
    assert_eq!(allocations[1].handle.offset_start, Some(0));
    assert_eq!(allocations[1].handle.checked_size(), Some(12));
}

#[test]
fn failed_reservation_is_passed_on() {
    for error in [
        || IoError::BufferTooBig { size: 9 },
        || IoError::Unknown { description: "lost".to_string() },
        || IoError::Execution { reason: "late".to_string() },
    ] {
        let pending = server().create(&[tensor(&[4], 4)], StreamId { value: 0 }, 256);
        assert_eq!(pending.reserved(Err(error())), Err(error()));
    }
}

#[test]
fn layouts_that_cannot_be_computed() {
    assert!(!WgpuServer::can_create(&[tensor(&[4], 4)], 0));
    assert!(!WgpuServer::can_create(&[tensor(&[], 4)], 256));
    assert!(!WgpuServer::can_create(&[tensor(&[1, usize::MAX, 2], 1)], 256));
    assert!(!WgpuServer::can_create(&[tensor(&[usize::MAX], 2)], 256));
    assert!(!WgpuServer::can_create(&[tensor(&[usize::MAX], 1)], 256));
    assert!(!WgpuServer::can_create(
        &[tensor(&[usize::MAX / 2], 1), tensor(&[usize::MAX / 2 + 2], 1)],
        1
    ));
    assert!(WgpuServer::can_create(&[tensor(&[usize::MAX], 1)], 1));
    assert!(WgpuServer::can_create(&[], 256));
    assert!(WgpuServer::can_create(&[], 0));
}

#[test]
fn blocks_that_do_not_suffice() {
    let pending = server().create(&[tensor(&[10], 1), tensor(&[20], 1)], StreamId { value: 0 }, 32);
    assert_eq!(pending.size, 64);
    assert!(pending.fits_into(&block(64, 0)));
    assert!(pending.fits_into(&block(52, 0)));
    assert!(!pending.fits_into(&block(51, 0)));
    let mut base = block(64, 0);
    base.offset_start = Some(60);
    base.offset_end = Some(5);
    assert!(!pending.fits_into(&base));
    assert_eq!(base.checked_size(), None);
}
