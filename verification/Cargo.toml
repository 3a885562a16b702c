[package]
name = "amdgpu_top"
version = "0.1.0"
edition = "2021"
publish = false

[dependencies]
serde_json = "*"
cursive = "*"
libdrm_amdgpu_sys = "*"
