[package]
name = "bahilizator"
version = "2.0.0"
edition = "2021"
publish = false

[dependencies]
heapless = "0.8"
embassy-sync = "*"
embassy-time = { version = "*", features = ["std", "generic-queue-8"] }
embassy-futures = "*"
embassy-executor = { version = "*", features = ["arch-std", "executor-thread"] }
embassy-net = { version = "*", features = ["proto-ipv4", "tcp", "dns", "medium-ip", "dhcpv4"] }
embassy-net-ppp = "*"
rust-mqtt = "*"
embedded-io-async = "*"
static_cell = "*"
