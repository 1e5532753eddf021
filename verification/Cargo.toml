[package]
name = "mdp"
version = "0.1.0"
edition = "2021"
publish = false

[dependencies]
pulldown-cmark = "*"
syntect = "*"
unicode-width = "*"
html-escape = "*"
walkdir = "*"
clap = { version = "*", features = ["derive"] }
tokio = { version = "*", features = ["rt-multi-thread", "macros", "sync", "net", "time"] }
axum = { version = "*", features = ["ws"] }
notify = "*"
notify-debouncer-mini = "*"
open = "*"
crossterm = "*"
atty = "*"
serde = { version = "*", features = ["derive"] }
