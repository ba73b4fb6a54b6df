[package]
name = "git_pull_requests"
version = "0.1.0"
edition = "2021"
publish = false

[dependencies]
git2 = "*"
docopt = "*"
serde = { version = "*", features = ["derive"] }
log = "*"
fern = "*"
