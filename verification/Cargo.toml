[package]
name = "anchor-derive"
version = "0.1.0"
edition = "2021"
publish = false

[dependencies]
proc-macro2 = { version = "=1.0.107", features = ["span-locations"] }
quote = "=1.0.47"
serde_json = "=1.0.154"
sha2 = "=0.10.9"
syn = { version = "=2.0.119", features = ["full", "extra-traits"] }
