[package]
name = "jitter"
version = "0.1.0"
edition = "2021"
publish = false

[dependencies]
cranelift = "=0.68.0"
cranelift-module = "=0.68.0"
cranelift-preopt = "=0.68.0"
cranelift-simplejit = "=0.68.0"
target-lexicon = "0.11"
libloading = "0.6"
