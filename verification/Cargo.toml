[package]
name = "topcoat"
version = "0.1.0"
edition = "2021"
publish = false

[dependencies]
heck = "0.5"
memchr = "2"
matchit = "0.8"
axum = { version = "0.8", features = ["ws"] }
http = "1"
serde = { version = "1", features = ["derive"] }
serde_json = "1"
const-serialize = "*"
syn = { version = "2", features = ["full", "extra-traits", "visit"] }
quote = "1"
proc-macro2 = "1"
clap = { version = "4", features = ["derive"] }
console = "*"
tokio = { version = "1", features = ["full"] }
futures-util = "0.3"
inventory = "0.3"
hashbrown = "*"
bumpalo = "3"
ouroboros = "*"
tower = "0.5"
ref-cast = "1"
