[package]
name = "ra-metal-capture"
version = "0.1.0"
edition = "2021"
publish = false

[dependencies]
anyhow = "=1.0.104"
clap = { version = "=4.6.7", features = ["derive"] }
ctrlc = "=3.5.2"
flate2 = "=1.1.10"
nix = { version = "=0.30.1", features = ["signal", "process", "fs"] }
tempfile = "=3.27.0"
doxygen-bindgen = "=0.1.4"
image = { version = "=0.25.10", default-features = false, features = ["png", "jpeg", "bmp", "gif", "tga", "pnm", "hdr"] }
objc2 = "=0.6.5"
objc2-foundation = "=0.3.2"
objc2-app-kit = "=0.3.2"
objc2-metal = "=0.3.2"
librashader = { version = "=0.12.1", default-features = false, features = ["runtime-metal", "presets"] }

[dev-dependencies]
