[package]
name = "launchpad"
version = "0.1.0"
edition = "2021"
publish = false

[dependencies]
sha2 = "=0.10.9"
hex = "=0.4.3"
cosmwasm-std = "=1.5.11"
cosmwasm-schema = "=1.5.11"
cw-storage-plus = "=1.2.0"
cw2 = "=1.1.2"
cw20 = "=1.1.2"
cw-controllers = "=1.1.2"
cw-ownable = "=0.5.1"
cw-paginate-storage = "=2.6.0"
thiserror = "=1.0.69"
