[package]
name = "gguf-embed"
version = "0.1.0"
edition = "2021"
publish = false

[dependencies]
async-trait = "=0.1.92"
llama-cpp-2 = ">=0.1.130, <0.1.146"
thiserror = "=2.0.21"
tokio = { version = "=1.54.1", features = ["rt", "macros", "time"] }
tracing = "=0.1.44"
