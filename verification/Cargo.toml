[package]
name = "c2pa_prov"
version = "0.1.0"
edition = "2021"
publish = false

[dependencies]
c2pa = { version = "0.32", features = ["file_io"] }
chrono = "0.4"
clap = { version = "4", features = ["derive"] }
regex = "1"
serde = { version = "1", features = ["derive"] }
sysinfo = "0.30"
