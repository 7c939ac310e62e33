[package]
name = "esp_dac"
version = "0.1.0"
edition = "2021"
publish = false

[dependencies]
enumset = "1.1"
esp32 = "*"
esp32s2 = "*"
