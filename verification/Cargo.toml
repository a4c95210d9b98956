[package]
name = "terminal-control"
version = "0.1.0"
edition = "2021"
publish = false

[dependencies]
anyhow = "=1.0.104"
clap = { version = "=4.6.7", features = ["derive", "env"] }
crossterm = "=0.29.0"
libc = "=0.2.191"
libghostty-vt = "=0.2.2"
portable-pty = "=0.9.0"
resvg = "=0.49.0"
rmcp = { version = "=3.8.0", features = ["server", "transport-io", "macros", "schemars"] }
serde = { version = "=1.0.229", features = ["derive"] }
serde_json = "=1.0.154"
tokio = { version = "=1.54.1", features = ["rt-multi-thread", "macros"] }
vt100 = "=0.16.2"
