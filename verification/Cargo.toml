[package]
name = "openvm_circuit"
version = "0.1.0"
edition = "2021"
publish = false

[dependencies]
openvm-stark-backend = "=2.0.1"
rand = "=0.8.8"
thiserror = "=1.0.69"
serde = { version = "=1.0.229", features = ["derive"] }
tracing = "=0.1.44"
backtrace = "=0.3.77"

[dev-dependencies]
p3-field = "=0.8.0"
p3-baby-bear = "=0.8.0"
