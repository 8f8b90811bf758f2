[package]
name = "rust_os"
version = "0.1.0"
edition = "2021"
publish = false

[dependencies]
bootloader = { version = "=0.9.35", features = ["map_physical_memory"] }
lazy_static = { version = "=1.5.1", features = ["spin_no_std"] }
linked_list_allocator = "=0.10.6"
pc-keyboard = "=0.5.1"
pic8259_simple = "=0.2.0"
spin = "=0.5.2"
uart_16550 = { version = "=0.2.19", default-features = false }
volatile = "=0.2.7"
x86_64 = { version = "=0.14.13", default-features = false, features = ["instructions", "inline_asm"] }
