[package]
name = "acid64c"
version = "0.1.0"
edition = "2021"
publish = false

[dependencies]
ahash = "*"
encoding_rs = "*"
encoding_rs_io = "*"
attohttpc = { version = "*", default-features = false, features = ["multipart-form"] }
get_if_addrs = "*"
crossterm = "*"
chrono = "*"
timer = "*"
parking_lot = "*"
libloading = "*"
thread-priority = "*"
crossbeam-channel = "*"
ringbuf = "*"
atomicring = "*"
encoding = "*"
rusb = "*"
libftd2xx = "*"
