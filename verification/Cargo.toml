[package]
name = "aur_sync"
version = "0.1.0"
edition = "2021"
publish = false

[dependencies]
serde_json = "*"
data-encoding = "*"
eyre = "*"
git2 = { version = "*", default-features = false, features = ["ssh"] }
reqwest = { version = "*", default-features = false, features = ["rustls-tls"] }
tokio = { version = "*", features = ["rt-multi-thread", "macros"] }
