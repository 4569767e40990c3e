[package]
name = "led_matrix"
version = "0.1.0"
edition = "2021"
publish = false

[dependencies]
microbit-text = "1"
tiny-led-matrix = "1"
embedded-hal = "1"
embedded-hal-async = "1"
embassy-futures = "*"
embassy-sync = "*"
embassy-executor = "*"
futures-util = { version = "0.3", default-features = false }
cortex-m = "0.7"
defmt = "*"
defmt-rtt = "*"
panic-probe = "*"
microbit-v2 = "*"
nrf52833-hal = "*"
