[package]
name = "openvm_aot"
version = "0.1.0"
edition = "2021"
publish = false

[dependencies]
libloading = "*"
p3-baby-bear = "*"
p3-field = "*"
serde = { version = "1", features = ["derive"] }
sha2 = { version = "0.10", features = ["compress"] }
tempfile = "*"
tracing = "*"
