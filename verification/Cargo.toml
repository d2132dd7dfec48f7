[package]
name = "mutcursor"
version = "0.1.0"
edition = "2021"
publish = false

[dependencies]
maybe-dangling = "0.1"
stable_deref_trait = "1.2"
