[package]
name = "infrahub_credential_helper"
version = "0.1.2"
edition = "2021"
publish = false

[dependencies]
regex = "1"
clap = { version = "4", features = ["derive", "env"] }
serde = { version = "1", features = ["derive"] }
serde_json = "1"
toml = "0.8"
ureq = { version = "3", features = ["json"] }
graphql_client = { version = "0.14", default-features = false }
