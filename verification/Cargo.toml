[package]
name = "thrust"
version = "0.1.0"
edition = "2021"
publish = false

[dependencies]
byteorder = "=1.5.0"
bytes = "=1.12.1"
rand = "=0.8.8"
mio = { version = "=1.2.4", features = ["os-poll", "net"] }
tangle = "=0.4.0"
num_cpus = "=1.17.0"
lazy_static = "=1.5.1"
nom = "1"
