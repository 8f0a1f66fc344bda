[package]
name = "multistream_select"
version = "0.1.0"
edition = "2021"
publish = false

[dependencies]
smallvec = "1"
futures = "0.3"
log = "0.4"
pin-project = "1"
