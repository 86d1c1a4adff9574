[package]
name = "cdrom"
version = "0.1.0"
edition = "2021"
publish = false

[dependencies]
cdrom_crc = "=0.1.0"
cue = "=2.0.0"
clap = { version = "=4.6.7", features = ["derive"] }
miette = "=7.6.0"
thiserror = "=2.0.21"
