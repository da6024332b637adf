[package]
name = "skye"
version = "0.1.0"
edition = "2021"
publish = false

[dependencies]
clap = { version = "4.5", features = ["derive"] }
enum_dispatch = "0.3"
lazy_static = "1"
reblessive = "0.4"
topo_sort = "0.4"
zip = { version = "7", default-features = false }
