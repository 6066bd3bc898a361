[package]
name = "lynx_element_bridge"
version = "0.1.0"
edition = "2021"
publish = false

[dependencies]
sha2 = "0.10"
stylist-core = { version = "0.13", features = ["parser"] }
serde = { version = "1", features = ["derive"] }
serde_json = "1"
postcard = { version = "1", features = ["alloc"] }
notify = "8"
tokio = { version = "1", features = ["full"] }
axum = { version = "0.8", features = ["ws"] }
libc = "0.2"
