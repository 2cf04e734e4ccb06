[package]
name = "callstack_profile"
version = "0.1.0"
edition = "2021"
publish = false

[dependencies]
anyhow = "1"
clap = { version = "4", features = ["derive"] }
flate2 = "=1.1.10"
fxprof-processed-profile = "=0.8.0"
gimli = "=0.32.3"
object = "=0.36.7"
samply-symbols = "=0.24.1"
serde_json = "=1.0.154"
thiserror = "2"
tracing = "0.1"
