[package]
name = "flex_array"
version = "0.1.0"
edition = "2021"
publish = false

[dependencies]
allocator-api2 = { version = "0.2", default-features = false, features = ["alloc"] }
