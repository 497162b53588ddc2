[package]
name = "obzenflow_fsm"
version = "0.3.2"
edition = "2021"
publish = false

[dependencies]
tokio = { version = "1", features = ["time", "rt", "macros"] }
async-trait = "0.1"
thiserror = "2"
tracing = "0.1"
proc-macro2 = "1"
syn = { version = "2", features = ["full"] }
quote = "1"
