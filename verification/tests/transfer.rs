use cubecl_wgpu_server::allocation::AllocationDescriptor;
use cubecl_wgpu_server::kernel::{Backend, Features};
use cubecl_wgpu_server::memory::{Binding, Handle, IoError, StreamId};
use cubecl_wgpu_server::server::{Settings, WgpuServer};
use cubecl_wgpu_server::transfer::{CopyDescriptor, ReadResource, ReadStep, WriteStep};

fn stream(value: u64) -> StreamId {
    StreamId { value }
}

fn server() -> WgpuServer {
    WgpuServer::new(
        32,
        Backend::Dx12,
        Features { spirv: false, msl: false },
        Settings { max_streams: 2, compilation_cache: false, compilation_log: false },
        None,
    )
}

fn tensor(memory: u64, on: u64, shape: &[usize], strides: &[usize]) -> CopyDescriptor {
    CopyDescriptor {
        binding: Binding {
            memory,
            offset_start: None,
            offset_end: None,
            stream: stream(on),
            cursor: 0,
            size: 1024,
        },
        shape: shape.to_vec(),
        strides: strides.to_vec(),
        elem_size: 4,
    }
}

type Find = fn(u64) -> Result<u64, IoError>;

/// Runs a read to its last step and tells which memory was looked for.
fn read(descriptors: Vec<CopyDescriptor>, on: u64, find: Find) -> (Vec<u64>, ReadStep) {
    let mut sought = Vec::new();
    let mut step = server().read(descriptors, stream(on));
    while let ReadStep::Find(pending) = step {
        let memory = pending.binding().memory;
        sought.push(memory);
        assert!(pending.can_go_on());
        step = pending.found(find(memory));
    }
    (sought, step)
}

/// Runs a write and tells which memory was looked for and which tasks were registered.
fn write(
    descriptors: Vec<CopyDescriptor>,
    on: u64,
    find: Find,
) -> (Vec<u64>, Vec<(u64, usize, u64)>, Result<(), IoError>) {
    let mut sought = Vec::new();
    let mut tasks = Vec::new();
    let mut step = server().write(descriptors, stream(on));
    loop {
        step = match step {
            WriteStep::Find(pending) => {
                let memory = pending.binding().memory;
                sought.push(memory);
                pending.found(find(memory))
            }
            WriteStep::Register { stream, data, resource, pending } => {
                tasks.push((stream.value, data, resource));
                assert!(pending.can_go_on());
                pending.registered()
            }
            WriteStep::Done => return (sought, tasks, Ok(())),
            WriteStep::Fail(error) => return (sought, tasks, Err(error)),
        };
    }
}

const FOUND: Find = |memory| Ok(memory + 100);
const LOST: Find = |memory| if memory == 2 { Err(IoError::InvalidHandle) } else { Ok(memory) };

#[test]
fn read_executes_the_streams_and_reads_in_order() {
    let tensors = vec![
        tensor(1, 8, &[2, 3], &[3, 1]),
        tensor(2, 5, &[4], &[1]),
        tensor(3, 8, &[1], &[1]),
        tensor(4, 5, &[2, 2], &[2, 1]),
    ];
    let (sought, step) = read(tensors, 5, FOUND);
    assert_eq!(sought, [1, 2, 3, 4]);
    let resource = |resource, shape: &[usize]| ReadResource {
        resource,
        shape: shape.to_vec(),
        elem_size: 4,
    };
    assert_eq!(
        step,
        ReadStep::Read {
            execute: vec![stream(5), stream(8)],
            stream: stream(5),
            resources: vec![
                resource(101, &[2, 3]),
                resource(102, &[4]),
                resource(103, &[1]),
                resource(104, &[2, 2]),
            ],
        }
    );
}

#[test]
fn read_of_nothing_executes_the_stream() {
    assert_eq!(
        read(vec![], 3, FOUND),
        (
            vec![],
            ReadStep::Read { execute: vec![stream(3)], stream: stream(3), resources: vec![] }
        )
    );
}

#[test]
fn read_of_other_strides_is_refused() {
    let tensors = vec![
        tensor(1, 0, &[2, 3], &[3, 1]),
        tensor(2, 0, &[2, 3], &[1, 2]),
        tensor(3, 0, &[2], &[1]),
    ];
    let (sought, step) = read(tensors, 0, FOUND);
    assert_eq!(sought, [1]);
    assert_eq!(step, ReadStep::Fail(IoError::UnsupportedStrides));
}

#[test]
fn read_of_lost_memory_is_refused() {
    let tensors =
        vec![tensor(1, 0, &[2], &[1]), tensor(2, 0, &[2], &[1]), tensor(3, 0, &[2], &[2])];
    let (sought, step) = read(tensors, 0, LOST);
    assert_eq!(sought, [1, 2]);
    assert_eq!(step, ReadStep::Fail(IoError::InvalidHandle));
}

#[test]
fn read_tells_what_it_cannot_compute() {
    assert!(!tensor(1, 0, &[], &[]).computable());
    assert!(tensor(1, 0, &[3], &[1]).computable());
    let tensors = vec![tensor(1, 0, &[2], &[1]), tensor(2, 0, &[], &[])];
    match server().read(tensors, stream(0)) {
        ReadStep::Find(pending) => {
            assert!(!pending.can_go_on());
            let lost = pending.found(Err(IoError::InvalidHandle));
            assert_eq!(lost, ReadStep::Fail(IoError::InvalidHandle));
        }
        step => panic!("{step:?}"),
    }
}

#[test]
fn write_registers_a_task_for_each_tensor() {
    let tensors = vec![tensor(1, 8, &[2, 3], &[3, 1]), tensor(2, 5, &[4], &[1])];
    assert_eq!(
        write(tensors, 5, FOUND),
        (vec![1, 2], vec![(5, 0, 101), (5, 1, 102)], Ok(()))
    );
}

#[test]
fn write_of_nothing_succeeds() {
    assert_eq!(write(vec![], 5, FOUND), (vec![], vec![], Ok(())));
}

#[test]
fn write_of_other_strides_keeps_earlier_tasks() {
    let tensors = vec![
        tensor(1, 0, &[2, 3], &[3, 1]),
        tensor(2, 0, &[2, 3], &[4, 1]),
        tensor(3, 0, &[2], &[1]),
    ];
    assert_eq!(
        write(tensors, 0, FOUND),
        (vec![1], vec![(0, 0, 101)], Err(IoError::UnsupportedStrides))
    );
}

#[test]
fn write_to_lost_memory_keeps_earlier_tasks() {
    let tensors =
        vec![tensor(1, 0, &[2], &[1]), tensor(2, 0, &[2], &[1]), tensor(3, 0, &[2], &[1])];
    assert_eq!(
        write(tensors, 0, LOST),
        (vec![1, 2], vec![(0, 0, 1)], Err(IoError::InvalidHandle))
    );
}

#[test]
fn read_follows_what_its_stream_has_written() {
    let written = vec![tensor(1, 8, &[2], &[1]), tensor(2, 9, &[2], &[1])];
    let (_, tasks, _) = write(written, 5, LOST);
    assert_eq!(tasks, vec![(5, 0, 1)]);
    match read(vec![tensor(1, 8, &[2], &[1])], 5, FOUND).1 {
        ReadStep::Read { execute, .. } => {
            for (on, _, _) in tasks {
                assert!(execute.contains(&stream(on)));
            }
        }
        step => panic!("{step:?}"),
    }
}

#[test]
fn write_tells_what_it_cannot_compute() {
    let tensors = vec![tensor(1, 0, &[2], &[1]), tensor(2, 0, &[1, usize::MAX, 2], &[1, 1, 1])];
    match server().write(tensors, stream(0)) {
        WriteStep::Find(pending) => assert!(!pending.can_go_on()),
        step => panic!("{step:?}"),
    }
}

#[test]
fn staging_is_not_supported() {
    assert_eq!(server().staging(&[4, 8], stream(0)), Err(IoError::UnsupportedIoOperation));
}

#[test]
fn created_tensors_can_be_copied() {
    let shape = vec![3, 1, 5];
    let pending = server().create(
        &[AllocationDescriptor { shape: shape.clone(), elem_size: 2 }],
        stream(1),
        256,
    );
    let base = Handle {
        memory: 6,
        offset_start: None,
        offset_end: None,
        stream: stream(1),
        cursor: 0,
        size: pending.size,
    };
    let allocation = pending.reserved(Ok(base)).unwrap().remove(0);
    let copy = || tensor(6, 1, &shape, &allocation.strides);
    assert_eq!(write(vec![copy()], 1, FOUND).2, Ok(()));
    assert!(matches!(read(vec![copy()], 1, FOUND).1, ReadStep::Read { .. }));
}
