[package]
name = "sensor_pipeline"
version = "0.1.0"
edition = "2021"
publish = false

[dependencies]
arrayvec = { version = "=0.7.8", default-features = false }
cortex-m = "=0.7.10"
cortex-m-rt = "=0.7.7"
embedded-graphics = "=0.8.2"
embedded-hal = "=1.0.0"
fugit = "=0.3.9"
micromath = "=2.1.0"
rp-pico = "=0.9.0"
ssd1306 = "=0.10.0"
