[package]
name = "space_owners"
version = "0.1.0"
edition = "2021"
publish = false

[dependencies]
cid = "*"
parity-scale-codec = { version = "*", default-features = false, features = ["derive"] }
scale-info = { version = "*", default-features = false, features = ["derive"] }
frame-support = { version = "*", default-features = false }
frame-system = { version = "*", default-features = false }
pallet-timestamp = { version = "*", default-features = false }
sp-runtime = { version = "*", default-features = false }
sp-std = { version = "*", default-features = false }
