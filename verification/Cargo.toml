[package]
name = "rawrscope"
version = "0.1.0"
edition = "2021"
publish = false

[dependencies]
clap = "=2.34.0"
cpal = "=0.11.0"
crossbeam-channel = "=0.5.17"
directories-next = "=2.0.0"
fern = { version = "=0.6.2", features = ["colored"] }
hound = "=3.5.1"
log = "=0.4.34"
parking_lot = "=0.11.2"
rayon = "=1.12.0"
rustfft = "=3.0.1"
sample = "=0.10.0"
samplerate = "=0.2.4"
serde = { version = "=1.0.229", features = ["derive"] }
serde_yaml = "=0.8.26"
snafu = "=0.6.10"
tinyfiledialogs = "=3.9.1"
toml = "=0.5.11"
tracing = "=0.1.44"
