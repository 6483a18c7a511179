//! The decision logic of a compute server that runs kernels through wgpu.

pub mod allocation;
pub mod allocation_laws;
pub mod cache_file;
pub mod kernel;
pub mod launch;
pub mod launch_laws;
pub mod layout;
pub mod layout_laws;
pub mod memory;
pub mod memory_operations;
pub mod pipeline;
pub mod pipeline_laws;
pub mod pipeline_operations;
pub mod server;
pub mod stream_laws;
pub mod stream_operations;
pub mod streams;
pub mod transfer;
pub mod transfer_laws;
