[package]
name = "cargo_minify"
version = "0.1.0"
edition = "2021"
publish = false

[dependencies]
syn = { version = "2", features = ["full"] }
proc-macro2 = { version = "1", features = ["span-locations"] }
cargo_metadata = "*"
diff = "*"
glob-match = "*"
gumdrop = "*"
thiserror = "*"
