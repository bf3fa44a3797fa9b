[package]
name = "video_frame_fuse"
version = "0.1.0"
edition = "2021"
publish = false

[dependencies]
cached = "*"
clap = "2"
csv = "1"
daemonize = "*"
env_logger = "*"
fuse = "0.3"
indoc = "*"
itertools = "*"
lazy_static = "1"
libc = "0.2"
log = "0.4"
opencv = "*"
serde = { version = "1", features = ["derive"] }
serde_yaml = "0.8"
strum = "*"
strum_macros = "*"
time = "0.1"
users = "*"
