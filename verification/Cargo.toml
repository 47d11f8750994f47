[package]
name = "smyx"
version = "0.1.0"
edition = "2021"
publish = false

[dependencies]
anyhow = "1"
crossterm = "0.29"
flume = "0.11"
fs2 = "0.4"
image = { version = "0.25", default-features = false, features = ["jpeg", "png"] }
ratatui = { version = "0.30", default-features = false, features = ["crossterm", "layout-cache", "underline-color"] }
ratatui-image = { version = "11", default-features = false, features = ["crossterm"] }
reqwest = { version = "0.12", default-features = false, features = ["blocking", "rustls-tls"] }
rodio = { version = "0.21", default-features = false, features = ["symphonia-mp3", "symphonia-flac", "symphonia-vorbis", "symphonia-wav"] }
rustfft = "6"
serde = { version = "1", features = ["derive"] }
serde_json = "1"
tokio = { version = "1", features = ["rt-multi-thread", "macros", "time"] }
toml = "0.9"
update-informer = "1"
ureq = { version = "3", features = ["json"] }
