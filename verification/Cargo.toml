[package]
name = "df_rs"
version = "0.1.0"
edition = "2021"
publish = false

[dependencies]
rayon = "1"
serde = { version = "1", features = ["derive"] }

[dev-dependencies]
csv = "1"
