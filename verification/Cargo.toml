[package]
name = "reshader"
version = "0.1.0"
edition = "2021"
publish = false

[dependencies]
zip = "=8.6.0"
semver = "=1.0.28"
rust-ini = "=0.21.3"
clap = { version = "=4.6.7", features = ["derive"] }
colored = "=3.1.1"
dircpy = "=0.3.21"
directories = "=6.0.0"
git2 = { version = "=0.21.0", default-features = false }
inquire = "=0.9.4"
open = "=5.4.4"
reqwest = { version = "=0.12.28", default-features = false, features = ["blocking", "rustls-tls"] }
shellexpand = "=3.1.2"
tempdir = "=0.3.7"
serde_json = "*"
