[package]
name = "thermometer"
version = "0.1.0"
edition = "2021"
publish = false

[dependencies]
assign-resources = "=0.4.1"
cortex-m-rt = "=0.7.7"
cyw43 = { version = "=0.3.0", features = ["defmt"] }
cyw43-pio = { version = "=0.3.0", features = ["defmt"] }
defmt = "=0.3.101"
defmt-rtt = "=0.4.2"
embassy-executor = { version = "=0.7.0", features = ["arch-spin", "executor-thread", "defmt"] }
embassy-futures = "=0.1.2"
embassy-net = { version = "=0.6.0", features = ["defmt", "tcp", "dhcpv4", "proto-ipv4", "medium-ethernet"] }
embassy-rp = { version = "=0.3.1", features = ["defmt", "rp2040", "time-driver", "critical-section-impl"] }
embassy-sync = "=0.6.2"
embassy-time = { version = "=0.4.0", features = ["defmt"] }
embedded-graphics = "=0.8.2"
embedded-io-async = "=0.6.1"
heapless = "=0.8.0"
panic-probe = { version = "=0.3.2", features = ["print-defmt"] }
pio = "=0.2.1"
rand = { version = "=0.8.8", default-features = false }
ssd1306 = "=0.9.0"
static_cell = "=2.1.1"

[dev-dependencies]
serde = { version = "=1.0.229", default-features = false }
serde-json-core = "=0.6.0"
