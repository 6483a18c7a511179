[package]
name = "cubecl_wgpu_server"
version = "0.1.0"
edition = "2021"
publish = false

[dependencies]
cubecl-common = { version = "=0.9.0", default-features = false, features = ["std", "cache", "serde"] }
cubecl-core = { version = "=0.9.0", default-features = false, features = ["std"] }
cubecl-ir = { version = "=0.9.0", default-features = false, features = ["std"] }
cubecl-runtime = { version = "=0.9.0", default-features = false, features = ["std"] }
hashbrown = "=0.16.1"
log = "0.4"
serde = { version = "1", features = ["derive"] }
wgpu = { version = "=26.0.1", default-features = false, features = ["std", "wgsl"] }
