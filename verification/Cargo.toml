[package]
name = "foil"
version = "0.1.0"
edition = "2021"
publish = false

[dependencies]
async-graphql = { version = "7", features = ["chrono", "dataloader"] }
async-std = { version = "1", features = ["attributes"] }
async-trait = "0.1"
axum = "0.7"
axum-macros = "0.4"
chrono = { version = "0.4", features = ["serde"] }
clap = { version = "4", features = ["cargo"] }
env_logger = "0.11"
futures = "0.3"
glob = "0.3"
hex = "0.4"
hmac = "0.12"
hyper-util = { version = "0.1", features = ["client-legacy", "http1", "tokio"] }
imagesize = "*"
itertools = "*"
lazy_static = "1"
lexiclean = "*"
log = "0.4"
path-slash = "*"
rss = "2"
serde = { version = "1", features = ["derive"] }
serde_derive = "1"
serde_json = "1"
sha2 = "0.10"
sqlx = { version = "0.8", default-features = false, features = ["postgres", "runtime-tokio", "chrono", "derive", "migrate"] }
tokio = { version = "1", features = ["full"] }
tokio-util = { version = "0.7", features = ["compat", "io"] }
tower = { version = "0.5", features = ["timeout", "load-shed", "util"] }
tower-http = { version = "0.6", features = ["fs", "trace", "compression-gzip"] }
walkdir = "2"
