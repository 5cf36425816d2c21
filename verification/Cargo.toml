[package]
name = "timeline_rss"
version = "0.1.0"
edition = "2021"
publish = false

[dependencies]
rss = "*"
actix-web = "*"
megalodon = "*"
derive_more = { version = "*", features = ["display", "error"] }
