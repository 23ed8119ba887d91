[package]
name = "pdfbrute"
version = "0.1.0"
edition = "2021"
publish = false

[dependencies]
async-channel = "=2.5.0"
clap = { version = "=4.6.7", features = ["derive"] }
num_cpus = "=1.17.0"
stringprep = "0.1"
tokio = { version = "=1.54.1", features = ["fs", "io-util", "rt-multi-thread", "macros", "signal"] }
