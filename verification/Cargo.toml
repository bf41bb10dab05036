[package]
name = "trinity"
version = "0.5.0"
edition = "2021"
publish = false

[dependencies]
global-hotkey = "0.7"
toml_edit = "0.22"
config = { version = "0.15", default-features = false, features = ["toml"] }
serde = { version = "1", features = ["derive"] }
serde_json = "1"
log = "0.4"
env_logger = "0.11"
clap = { version = "4", features = ["derive"] }
cli-clipboard = "0.4"
rdev = "0.5"
reqwest = { version = "0.12", default-features = false, features = ["blocking", "multipart"] }

[dev-dependencies]
hound = "3"
