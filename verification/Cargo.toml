[package]
name = "io_event"
version = "0.1.0"
edition = "2021"
publish = false

[dependencies]
libc = "0.2"
magnus = { version = "*", features = ["rb-sys"] }
rb-sys = "*"
tokio = { version = "1", features = ["net", "rt", "time"] }
