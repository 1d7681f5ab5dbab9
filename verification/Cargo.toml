[package]
name = "bud_host"
version = "0.1.0"
edition = "2021"
publish = false

[dependencies]
wasmtime = "=48.0.5"
wasmtime-wasi = "=48.0.5"
directories = "=6.0.0"
serde_json = "=1.0.151"
log = "=0.4.34"
env_logger = "=0.11.11"
