[package]
name = "london_pi_tube"
version = "0.1.0"
edition = "2021"
publish = false

[dependencies]
heapless = { version = "=0.9.3", features = ["serde"] }
serde = { version = "*", default-features = false, features = ["derive"] }
serde-json-core = "=0.7.0"
embassy-sync = "=0.8.0"
embassy-time = "*"
embassy-net = { version = "0.7.1", features = ["tcp", "dns", "dhcpv4", "proto-ipv4", "medium-ethernet"] }
embassy-executor = "*"
embassy-rp = "0.9.0"
reqwless = "0.13.0"
embedded-graphics = "*"
embedded-hal-bus = "*"
epd-waveshare = "*"
profont = "*"
defmt = "*"
defmt-rtt = "*"
panic-probe = "*"
const_format = "*"
function_name = "*"
