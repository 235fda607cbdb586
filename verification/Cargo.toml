[package]
name = "field_engine"
version = "0.1.0"
edition = "2021"
publish = false

[dependencies]
sha2 = "*"
rustc_apfloat = "*"
candid = "*"
ic-cdk = "*"
ic-cdk-macros = "*"
