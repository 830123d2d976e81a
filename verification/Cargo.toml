[package]
name = "corne_rmk"
version = "0.1.0"
edition = "2021"
publish = false

[dependencies]
embassy-time = { version = "=0.5.1", features = ["tick-hz-32_768"] }
embassy-nrf = { version = "=0.11.0", features = ["nrf52840", "unstable-pac", "time-driver-rtc1"] }
embassy-executor = "=0.9.1"
static_cell = "=2.1.1"
cortex-m = "=0.7.10"
cortex-m-rt = "=0.7.7"
embedded-graphics = "=0.8.2"
