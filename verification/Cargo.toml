[package]
name = "elfsize"
version = "0.1.0"
edition = "2021"
publish = false

[dependencies]
object = "=0.40.0"
clap = { version = "=4.6.7", features = ["derive"] }
humansize = "=2.1.3"
owo-colors = { version = "=4.4.0", features = ["supports-colors"] }
