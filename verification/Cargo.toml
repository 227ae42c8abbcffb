[package]
name = "zengpu_vulkan"
version = "0.0.1"
edition = "2021"
publish = false

[dependencies]
ash = "0.38"
inline-spirv = "0.2"
log = "0.4"
raw-window-handle = "0.6"
