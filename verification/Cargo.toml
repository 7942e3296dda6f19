[package]
name = "esp32-http-servo"
version = "0.1.0"
edition = "2021"
publish = false

[dependencies]
embassy-executor = "*"
embassy-net = { version = "*", features = ["dhcpv4", "tcp", "medium-ethernet", "proto-ipv4"] }
embassy-sync = "*"
embassy-time = "*"
esp-alloc = "*"
esp-backtrace = "*"
esp-bootloader-esp-idf = "*"
esp-hal = "*"
esp-println = "*"
esp-radio = "*"
esp-rtos = "*"
static_cell = "*"
