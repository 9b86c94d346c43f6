[package]
name = "wumpus"
version = "0.1.0"
edition = "2021"
publish = false

[dependencies]
anyhow = "*"
libc = "*"
log = "*"
narthex_engine_trait = "*"
rand = "*"
serde = { version = "*", features = ["derive"] }
serde_json = "*"
