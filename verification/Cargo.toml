[package]
name = "fishnet"
version = "0.1.0"
edition = "2021"
publish = false

[dependencies]
anyhow = "1"
clap = { version = "4", features = ["derive"] }
futures = "0.3"
libc = "0.2"
netlink-packet-route = "0.19"
nix = { version = "0.29", features = ["mount", "process", "sched", "user"] }
rtnetlink = "0.14"
rustables = "0.8"
tokio = { version = "1", features = ["full"] }
