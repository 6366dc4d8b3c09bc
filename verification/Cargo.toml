[package]
name = "journal"
version = "0.1.0"
edition = "2021"
publish = false

[dependencies]
pulldown-cmark = "*"
axum = "*"
tokio = { version = "*", features = ["macros", "rt-multi-thread", "net"] }
libsql = "*"
clap = { version = "*", features = ["derive"] }
dotenvy = "*"
walkdir = "*"
anyhow = "*"
tower-http = { version = "*", features = ["fs"] }
tower-livereload = "*"
