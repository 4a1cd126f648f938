[package]
name = "kagami"
version = "0.1.0"
edition = "2021"
publish = false

[dependencies]
mdns-sd = "*"
log = "0.4"
env_logger = "*"
dispatch2 = "0.3"
objc2 = "0.6"
objc2-foundation = "0.3"
objc2-av-foundation = "0.3"
objc2-core-media = "0.3"
