[package]
name = "rendering"
version = "0.1.0"
edition = "2021"
publish = false

[dependencies]
serde_json = "1"
jni = "0.21"
