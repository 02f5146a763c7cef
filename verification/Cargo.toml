[package]
name = "jiji_activities"
version = "0.1.0"
edition = "2021"
publish = false

[dependencies]
anyhow = "1"
clap = { version = "4", features = ["derive"] }
clap_complete = "4"
directories = "*"
kdl = { version = "6", features = ["v1"] }
niri-ipc = "*"
serde = { version = "1", features = ["derive"] }
serde_json = "1"
