[package]
name = "esp32c3-airmouse"
version = "0.1.0"
edition = "2021"
publish = false

[dependencies]
anyhow = "1"
log = "0.4"
esp-idf-svc = "*"
esp32-nimble = "*"
icm42670 = "*"
ws2812-esp32-rmt-driver = "0.14"
