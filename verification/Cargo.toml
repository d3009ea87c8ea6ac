[package]
name = "clock_display"
version = "0.1.0"
edition = "2021"
publish = false

[dependencies]
chrono = "0.4"
chrono-tz = "*"
esp-idf-svc = "*"
tm1637 = "*"
log = "0.4"
heapless = "*"
thiserror = "*"
