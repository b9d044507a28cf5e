[package]
name = "anvil_region"
version = "0.1.0"
edition = "2021"
publish = false

[dependencies]
anyhow = "*"
flate2 = "*"
hematite-nbt = "*"
rayon = "*"
serde = { version = "*", features = ["derive"] }
serde_json = "*"
