[package]
name = "imsg"
version = "0.1.0"
edition = "2021"
publish = false

[dependencies]
phonenumber = "=0.3.10"
quick-xml = "=0.41.0"
calcard = "=0.3.14"
bluer = { version = "=0.17.4", default-features = false, features = ["rfcomm"] }
toml_edit = "=0.25.18"
thiserror = "=2.0.21"
serde = { version = "=1.0.229", features = ["derive"] }
figment = { version = "=0.10.19", features = ["toml", "env"] }
dirs = "=7.0.0"
interprocess = "=2.4.7"
