[package]
name = "split_file"
version = "0.1.0"
edition = "2021"
publish = false

[dependencies]
clap = { version = "4", features = ["derive"] }
rs_sha1 = "*"
rs_sha224 = "*"
rs_sha256 = "*"
rs_sha384 = "*"
rs_sha512 = "*"
rs_sha512_224 = "*"
rs_sha512_256 = "*"
