[package]
name = "bcr2kosc"
version = "0.1.0"
edition = "2021"
publish = false

[dependencies]
clap = { version = "=4.6.7", features = ["derive"] }
futures = "=0.3.34"
log = "=0.4.34"
midi-msg = "=0.9.0"
midir = "=0.11.1"
pin-project = "=1.1.13"
registry = "*"
rosc = "=0.11.4"
simple-error = "=0.3.3"
stderrlog = "=0.6.0"
tokio = { version = "=1.54.1", features = ["macros", "rt-multi-thread", "net", "signal", "sync", "time"] }
utfx = "*"
