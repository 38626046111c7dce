[package]
name = "narrowd"
version = "0.1.0"
edition = "2021"
publish = false

[dependencies]
anyhow = "*"
clap = { version = "4", features = ["derive"] }
dirs = "*"
env_logger = "*"
getrandom = { version = "*", features = ["sys_rng"] }
landlock = "*"
log = "0.4"
nix = { version = "*", features = ["fs", "process", "signal", "socket", "uio", "user"] }
portable-pty = "*"
russh = { version = "*", default-features = false, features = ["ring"] }
russh-sftp = "*"
rustix = { version = "1", features = ["thread"] }
seccompiler = "*"
serde = { version = "1", features = ["derive"] }
serde_json = "1"
tokio = { version = "1", features = ["full"] }
