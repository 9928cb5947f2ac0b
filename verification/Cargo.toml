[package]
name = "atlas_extract"
version = "0.1.0"
edition = "2021"
publish = false

[dependencies]
zip = { version = "*", default-features = false, features = ["deflate"] }
image = { version = "*", default-features = false, features = ["png"] }
serde = { version = "*", features = ["derive"] }
toml = "*"
structopt = "*"
anyhow = "*"
