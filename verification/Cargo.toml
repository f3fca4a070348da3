[package]
name = "graph_node"
version = "0.1.0"
edition = "2021"
publish = false

[dependencies]
tiny-keccak = "1.4"
ethabi = "6.0"
web3 = { version = "0.5", default-features = false }
failure = "0.1"
futures = "0.1"
tokio = "0.1"
serde = "1.0"
