[package]
name = "rustup_mirror"
version = "0.1.0"
edition = "2021"
publish = false

[dependencies]
sha2 = "*"
reqwest = { version = "*", default-features = false, features = ["blocking", "rustls-tls"] }
git2 = { version = "*", default-features = false }
toml = "*"
serde = { version = "*", features = ["derive"] }
scoped_threadpool = "*"
console = "*"
