[package]
name = "ccsds_primary_header"
version = "0.1.0"
edition = "2021"
publish = false

[dependencies]
byteorder = "1"
bytes = "1"

[dev-dependencies]
quickcheck = { version = "1", default-features = false }
