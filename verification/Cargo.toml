[package]
name = "rustpython_launcher"
version = "0.1.0"
edition = "2021"
publish = false

[dependencies]
clap = "=2.34.0"
dirs = "=5.0.1"
env_logger = "=0.10.2"
log = "=0.4.34"
rustpython-compiler = "=0.4.0"
rustpython-vm = "=0.4.0"
rustyline = "=9.1.2"
