[package]
name = "drv"
version = "0.1.0"
edition = "2021"
publish = false

[dependencies]
anyhow = "1"
argon2 = { version = "0.5", features = ["std"] }
clap = { version = "4", features = ["derive"] }
fuser = "*"
libc = "0.2"
libseat = "*"
pipewire = "*"
postcard = { version = "1", features = ["use-std"] }
rand_core = { version = "0.6", features = ["getrandom"] }
rustix = { version = "1", features = ["event", "fs", "mount", "net", "pipe", "process", "system", "thread"] }
seccompiler = "*"
serde = { version = "1", features = ["derive"] }
toml = "*"
udev = "*"
zbus = "5"
zeroize = "1"
