[package]
name = "boxr"
version = "0.1.0"
edition = "2021"
publish = false

[dependencies]
clap = { version = "=4.6.7", features = ["derive"] }
fern = { version = "=0.6.2", features = ["colored"] }
log = "=0.4.34"
mutants = "=0.0.3"
reedline-repl-rs = "=1.3.0"

[dev-dependencies]
regex = "=1.13.1"
