[package]
name = "audio_spectrum"
version = "0.1.0"
edition = "2021"
publish = false

[dependencies]
anyhow = "*"
embedded-graphics = "*"
esp-idf-hal = "*"
esp-idf-svc = "*"
log = "*"
rustfft = "*"
ssd1306 = "*"
