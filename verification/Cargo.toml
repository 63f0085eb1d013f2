[package]
name = "tet_query"
version = "0.1.0"
edition = "2021"
publish = false

[dependencies]
serde = { version = "1", features = ["derive"] }
serde_json = "1"
toml = "*"
bytemuck = "1"
half = "2"
memmap2 = "*"
rayon = "1"
