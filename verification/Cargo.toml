[package]
name = "phalanx_node"
version = "0.1.0"
edition = "2021"
publish = false

[dependencies]
anyhow = "1"
async-trait = "0.1"
bip39 = "2"
blake3 = "1"
ctrlc = "3"
directories = "*"
ed25519-dalek = { version = "2", features = ["rand_core"] }
libp2p = { version = "*", default-features = false, features = ["kad", "pnet"] }
postcard = { version = "1", features = ["use-std"] }
rand = "*"
rand_core = { version = "0.6", features = ["getrandom"] }
redb = "*"
serde = { version = "1", features = ["derive"] }
sntpc = { version = "*", features = ["std"] }
thiserror = "2"
tokio = { version = "1", features = ["full"] }
toml = "*"
tracing = "0.1"
zeroize = "1"
