[package]
name = "su_uuid"
version = "0.1.0"
edition = "2021"

[dependencies]
md5 = "*"
rand = "*"
sha1_smol = "*"

[dev-dependencies]
uuid = { version = "*", features = ["v3", "v4", "v5"] }
