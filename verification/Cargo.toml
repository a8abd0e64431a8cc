[package]
name = "rusp"
version = "0.1.0"
edition = "2021"

[dependencies]
anyhow = "=1.0.104"
getopts = "=0.2.24"
rustyline = "=19.0.0"
thiserror = "=2.0.21"
xdg = "=3.0.0"

[dev-dependencies]
regex = "1"
