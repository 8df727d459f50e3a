[package]
name = "torustiq"
version = "0.1.0"
edition = "2021"
publish = false

[dependencies]
clap = { version = "4", features = ["derive"] }
ctrlc = "3"
libloading = "0.8"
log = "0.4"
once_cell = "1"
serde = { version = "1", features = ["derive"] }
serde_yaml = "0.9"
