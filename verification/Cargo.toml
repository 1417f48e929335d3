[package]
name = "rollback_sim"
version = "0.1.0"
edition = "2021"
publish = false

[dependencies]
async-executor = "=1.14.0"
bincode = "=1.3.3"
bytemuck = { version = "=1.25.2", features = ["derive"] }
ggrs = "0.10"
instant = "=0.1.13"
macroquad = "=0.3.26"
matchbox_socket = { version = "0.8", features = ["ggrs"] }
serde = { version = "=1.0.229", features = ["derive"] }
