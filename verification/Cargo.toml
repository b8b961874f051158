[package]
name = "codasai"
version = "0.1.0"
edition = "2021"
publish = false

[dependencies]
ammonia = "*"
anyhow = "*"
axum = "*"
clap = { version = "*", features = ["derive"] }
env_logger = "*"
git2 = "*"
ignore = "*"
log = "*"
minijinja = { version = "*", features = ["loader"] }
open = "*"
pulldown-cmark = "*"
sass-rs = "*"
serde = { version = "*", features = ["derive"] }
syntect = "*"
tokio = { version = "*", features = ["rt-multi-thread", "macros", "net", "time"] }
toml = "*"
tower-http = { version = "*", features = ["fs"] }
walkdir = "*"
