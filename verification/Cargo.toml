[package]
name = "neptune_vulkan"
version = "0.1.0"
edition = "2021"
publish = false

[dependencies]
ash = "0.37"
slotmap = "1"
log = "0.4"
gpu-allocator = { version = "0.22", default-features = false, features = ["vulkan"] }
