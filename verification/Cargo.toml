[package]
name = "voxel_core"
version = "0.1.0"
edition = "2021"
publish = false

[dependencies]
serde = { version = "1", features = ["derive"] }
bincode = "1"
glam = "*"
noise = "0.9"
renet = "*"
renet_netcode = "*"
log = "0.4"
simple_logger = "*"
sqlx = { version = "0.8", default-features = false, features = ["postgres", "runtime-tokio"] }
