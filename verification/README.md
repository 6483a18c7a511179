# cubecl_wgpu_server

The compute server of a wgpu runtime, as a verified library.

`src/` holds the decisions of the server, with contracts that Verus proves:

- `layout`, `layout_laws`: row-major strides and sizes of tensors.
- `memory`, `allocation`, `allocation_laws`: several tensors in one block of memory.
- `kernel`, `pipeline`, `pipeline_laws`: how the pipeline of a kernel is found, compiled and kept.
- `cache_file`: how the driver's pipeline cache is written to disk.
- `streams`: which streams are executed before an operation.
- `transfer`, `transfer_laws`: reads and writes.
- `launch`, `launch_laws`: kernel launches.
- `server`: the state of the server.

An operation that needs the device, a stream or the disk is a sequence of steps. The library says
what has to be done next; the caller does it and hands the outcome back. Memory, resources,
kernels and pipelines are known to the library by their numbers.

`app/` is the caller: it implements the runtime's `ComputeServer` on top of the library, for any
device that provides streams, compilers and pipelines. `tests/` runs the library on concrete values.
