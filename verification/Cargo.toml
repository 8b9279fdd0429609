[package]
name = "modrinth_apitool"
version = "0.1.0"
edition = "2021"
publish = false

[dependencies]
argparse = "*"
reqwest = { version = "*", default-features = false, features = ["blocking", "rustls-tls"] }
serde = { version = "*", features = ["derive"] }
serde_json = "*"
toml = "*"
sha2 = "*"
