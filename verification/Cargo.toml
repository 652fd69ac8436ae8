[package]
name = "quarian_voice_filter"
version = "0.1.0"
edition = "2021"
publish = false

[dependencies]
hound = "=3.5.1"
biquad = "=0.5.0"
rubato = "=1.0.1"
audioadapter-buffers = "=2.0.0"
rustfft = "=6.4.1"
serde = { version = "=1.0.229", features = ["derive"] }
clap = { version = "=4.6.7", features = ["derive"] }
