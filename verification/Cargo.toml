[package]
name = "substrate_client"
version = "0.1.0"
edition = "2021"
publish = false

[dependencies]
env_logger = "0.7"
fdlimit = "0.1"
futures = "0.1"
futures-executor = "0.3"
hash-db = "0.15"
log = "0.4"
parity-multiaddr = "0.5"
parity-scale-codec = "1.0"
tempdir = "0.3"
tokio = "0.1"
