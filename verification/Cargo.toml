[package]
name = "trace"
version = "0.0.5"
edition = "2021"
publish = false

[dependencies]
argparse = "0.2"
libc = "0.2"
num_cpus = "1"
