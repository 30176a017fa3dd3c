[package]
name = "electrode_command_authority"
version = "0.1.0"
edition = "2021"
publish = false

[dependencies]
anyhow = "1"
flatbuffers = "*"
serde = { version = "1", features = ["derive"] }
serde_json = "1"
sha2 = "0.10"
synapse_fbs = "0.5"
tracing = "0.1"
zenoh = { version = "1", default-features = false, features = ["transport_udp", "transport_ws"] }
