[package]
name = "sarchive"
version = "0.1.0"
edition = "2021"
publish = false

[dependencies]
chrono = "0.4"
clap = { version = "4", features = ["derive"] }
crossbeam-channel = "0.5"
crossbeam-utils = "0.8"
enum-display-derive = "*"
fern = { version = "0.6", features = ["reopen-03"] }
glob = "0.3"
itertools = "*"
libc = "0.2"
log = "0.4"
notify = "6"
rdkafka = { version = "*", default-features = false }
regex = "1"
serde = { version = "1", features = ["derive"] }
serde_json = "1"
signal-hook = "0.3"
