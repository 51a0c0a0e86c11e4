[package]
name = "mttp"
version = "0.1.0"
edition = "2021"
publish = false

[dependencies]
rayon = "*"
thiserror = "*"
log = "*"
rand = "*"
clap = { version = "*", features = ["derive"] }
crossbeam = "*"
image = { version = "*", default-features = false, features = ["png"] }
memmap2 = "*"
sysinfo = "*"
derive_more = { version = "*", features = ["full"] }
egui = "*"
eframe = { version = "*", default-features = false, features = ["default_fonts", "glow", "x11"] }
