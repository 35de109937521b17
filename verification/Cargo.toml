[package]
name = "purpl"
version = "0.1.0"
edition = "2021"
publish = false

[dependencies]
zstd = "0.13"
directories = "5"
ash = "0.37"
vk-mem = "0.3"
log = "0.4"
chrono = "0.4"
fern = { version = "0.6", features = ["colored"] }
clap = { version = "4", features = ["derive"] }
mimalloc = "0.1"
image = "0.24"
tobj = "4"
nalgebra = "0.32"
xcb = "1"
serde = { version = "1", features = ["derive"] }
postcard = { version = "1", features = ["alloc"] }
