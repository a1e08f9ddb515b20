[package]
name = "pomc"
version = "0.1.0"
edition = "2021"
publish = false

[dependencies]
base64 = "=0.22.1"
sha2 = "=0.10.9"
sha1_smol = "=1.0.1"
urlencoding = "=2.1.3"
rand = "=0.8.8"
serde = { version = "=1.0.229", features = ["derive"] }
serde_json = "=1.0.154"
clap = { version = "=4.6.7", features = ["derive"] }
thiserror = "=2.0.21"
directories = "=6.0.0"
keyring = { version = "=3.6.3", default-features = false }
open = "=5.4.5"
binary-greedy-meshing = "*"
