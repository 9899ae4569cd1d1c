[package]
name = "rusticos"
version = "0.1.0"
edition = "2021"
publish = false

[dependencies]
ab_glyph = "=0.2.32"
hashbrown = "=0.17.1"
limine = "=0.5.0"
linked_list_allocator = "=0.10.6"
spin = "=0.12.3"
