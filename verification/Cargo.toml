[package]
name = "zelbet"
version = "0.1.0"
edition = "2021"
publish = false

[dependencies]
bigint = "=4.4.3"
dusk-bls12_381 = "=0.9.0"
# dusk-bytes and derive-hex are dependencies of dusk-bls12_381. They are held
# at the last versions before 0.1.8 and 0.1.3, which ask for rustc 1.96.1.
dusk-bytes = "=0.1.7"
derive-hex = "=0.1.2"
dusk-plonk = "=0.10.0"
rand = "=0.8.8"
anyhow = "=1.0.104"
