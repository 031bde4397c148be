[package]
name = "led_tetris"
version = "0.1.0"
edition = "2021"
publish = false

[dependencies]
bt-hci = "=0.8.1"
embassy-executor = "=0.10.0"
embassy-futures = "=0.1.2"
embassy-sync = "=0.7.2"
embassy-time = { version = "=0.5.1", features = ["tick-hz-1_000_000"] }
esp-bootloader-esp-idf = { version = "=0.5.0", features = ["esp32c3"] }
log = "=0.4.35"
no_std_tetris = "=0.1.1"
static_cell = "=2.1.1"
trouble-host = { version = "=0.6.0", features = ["derive", "gatt", "peripheral"] }
