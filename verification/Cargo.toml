[package]
name = "bounty_actor"
version = "0.1.0"
edition = "2021"
publish = false

[dependencies]
cid = "=0.11.3"
serde = "*"
fvm_ipld_hamt = "=0.10.6"
fvm_ipld_blockstore = "=0.3.2"
fvm_ipld_encoding = "=0.5.4"
fvm_shared = "=4.8.3"
fvm_sdk = "=4.8.3"
multihash-codetable = { version = "=0.2.2", features = ["blake2b"] }
