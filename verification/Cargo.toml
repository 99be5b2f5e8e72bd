[package]
name = "cloudevents_sdk_warp"
version = "0.1.0"
edition = "2021"
publish = false

[dependencies]
cloudevents-sdk = "0.3"
http = "0.2"
bytes = "0.5"
hyper = "0.13"
warp = { version = "0.2", default-features = false }
