[package]
name = "grems"
version = "0.1.0"
edition = "2021"
publish = false

[dependencies]
ndarray = "=0.15.6"
nalgebra = "=0.32.6"
rayon = "1"
gltf = "=1.4.1"
ddsfile = "=0.5.2"
anyhow = "1"
serde = { version = "1", features = ["derive"] }
config = { version = "=0.13.4", default-features = false, features = ["toml", "json"] }
clap = { version = "4", features = ["derive"] }
csv = "1"
bytemuck = "1"
wgpu = "=0.19.4"
pollster = "0.3"
futures-intrusive = "0.5"
resize = "0.8"
