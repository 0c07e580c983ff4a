[package]
name = "cadder"
version = "0.1.0"
edition = "2021"
publish = false

[dependencies]
anyhow = "=1.0.104"
hex = "=0.4.3"
semver = "=1.0.28"
serde = { version = "=1.0.229", features = ["derive"] }
serde_json = "=1.0.154"
ratatui = "=0.29.0"
getrandom = "=0.3.4"
libc = "=0.2.191"
thiserror = "=2.0.21"
netstat2 = "=0.11.2"
sysinfo = "=0.33.1"
directories = "=6.0.0"
sha2 = "0.10"
