[package]
name = "midi_sampler"
version = "0.1.0"
edition = "2021"
publish = false

[dependencies]
symphonia = { version = "=0.5.5", default-features = false, features = ["pcm", "wav"] }
jack = "=0.11.4"
midir = "=0.9.1"
serde = { version = "=1.0.229", features = ["derive"] }
serde_json = "=1.0.154"
