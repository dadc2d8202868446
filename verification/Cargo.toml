[package]
name = "cubecl-metal4"
version = "0.1.0"
edition = "2021"
publish = false

[dependencies]
bytemuck = "=1.25.2"
serde = { version = "=1.0.229", features = ["derive"] }
objc2 = "=0.6.5"
objc2-foundation = "=0.3.2"
objc2-metal = "=0.3.2"
