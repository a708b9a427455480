[package]
name = "pyo3_bindgen_engine"
version = "0.1.0"
edition = "2021"
publish = false

[dependencies]
clap = { version = "4", features = ["derive"] }
itertools = "0.12"
libc = "0.2"
prettyplease = "0.2"
proc-macro2 = "1"
pyo3 = "0.21"
quote = "1"
rustc-hash = "1.1"
syn = { version = "2", features = ["full"] }
thiserror = "1"
typed-builder = "0.18"
