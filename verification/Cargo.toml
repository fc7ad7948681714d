[package]
name = "esp_circuits"
version = "0.1.0"
edition = "2021"
publish = false

[dependencies]
esp-hal = "*"
esp-radio = "*"
esp-rtos = "*"
esp-alloc = "*"
esp-backtrace = "*"
esp-println = "*"
esp-bootloader-esp-idf = "*"
embassy-executor = "*"
embassy-net = "*"
embassy-time = "*"
embedded-dht-rs = "*"
embedded-graphics = "*"
ssd1306 = "*"
static_cell = "*"
log = "*"
