[package]
name = "blockifier"
version = "0.1.0"
edition = "2021"
publish = false

[dependencies]
cairo-lang-sierra = "=2.14.0"
cairo-lang-starknet-classes = "=2.14.0"
cairo-native = "=0.8.0"
cairo-vm = "=2.5.0"
log = "=0.4.34"
serde_json = "=1.0.154"
sierra-emu = "=0.8.0"
starknet-types-core = "=0.2.4"
starknet_api = "=0.11.0"
