[package]
name = "c99l_comboard"
version = "0.1.0"
edition = "2021"
publish = false

[dependencies]
embassy-executor = "*"
embassy-futures = "*"
embassy-sync = "*"
embassy-time = "*"
embedded-can = "*"
embedded-hal-bus = "*"
embedded-sdmmc = "*"
esp-backtrace = "*"
esp-bootloader-esp-idf = "*"
esp-hal = "*"
esp-println = "*"
esp-rtos = "*"
heapless = "0.8"
jiff = { version = "*", default-features = false }
static_cell = "*"
