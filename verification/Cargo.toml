[package]
name = "worktree"
version = "0.1.0"
edition = "2021"
publish = false

[dependencies]
anyhow = "1"
clap = { version = "4", features = ["derive"] }
clap_complete = "4"
dirs = "*"
git2 = { version = "*", default-features = false }
glob = "0.3"
inquire = "*"
serde = { version = "1", features = ["derive"] }
toml = "*"
