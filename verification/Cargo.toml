[package]
name = "esp8266_wifi"
version = "0.1.0"
edition = "2021"
publish = false

[dependencies]
critical-section = { version = "=1.2.0", features = ["std"] }
linked_list_allocator = "=0.10.6"
smoltcp = { version = "=0.11.0", default-features = false, features = ["medium-ethernet", "proto-ipv4", "socket-raw"] }
