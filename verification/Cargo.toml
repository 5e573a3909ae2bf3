[package]
name = "bpf_helper_gen"
version = "0.1.0"
edition = "2021"
publish = false

[dependencies]
anyhow = "1"
proc-macro2 = "1"
quote = "1"
structopt = "0.3"
syn = { version = "1", features = ["full"] }
