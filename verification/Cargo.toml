[package]
name = "lovebot"
version = "0.1.0"
edition = "2021"
publish = false

[dependencies]
anyhow = "=1.0.104"
clap = { version = "=3.2.25", features = ["derive"] }
log = "=0.4.34"
# The logger that the program starts.
pretty_env_logger = "=0.4.0"
rand = "=0.8.8"
serde = { version = "=1.0.229", features = ["derive"] }
serde_json = "=1.0.154"
teloxide = { version = "=0.5.3", default-features = false, features = ["rustls", "auto-send", "ctrlc_handler"] }
thiserror = "=1.0.69"
tokio = { version = "=1.54.1", features = ["rt", "rt-multi-thread", "macros", "sync", "time"] }
# Named for its feature alone: teloxide-core 0.3 uses the codec of tokio-util
# without switching it on, and does not build unless someone does.
tokio-util = { version = "=0.6.10", features = ["codec"] }
