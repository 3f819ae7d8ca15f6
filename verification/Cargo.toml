[package]
name = "constraint_system"
version = "0.1.0"
edition = "2021"
publish = false

[dependencies]
snarkvm-curves = "=4.12.0"
snarkvm-fields = "=4.12.0"
snarkvm-utilities = "=4.12.0"
