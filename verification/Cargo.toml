[package]
name = "tempora_contract"
version = "0.1.0"
edition = "2021"
publish = false

[dependencies]
ink = { version = "4", default-features = false, features = ["std"] }
openbrush = { version = "*", default-features = false, features = ["std", "psp22"] }
parity-scale-codec = { version = "3", default-features = false, features = ["std", "derive"] }
scale-info = { version = "2", default-features = false, features = ["std", "derive"] }
