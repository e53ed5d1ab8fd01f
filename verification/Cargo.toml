[package]
name = "rustubs"
version = "0.1.0"
edition = "2021"
publish = false

[dependencies]
bit_field = "*"
xmas-elf = "*"
spin = "*"
lazy_static = { version = "*", features = ["spin_no_std"] }
linked_list_allocator = "*"
