[package]
name = "limb_controller"
version = "0.1.0"
edition = "2021"
publish = false

[dependencies]
egui = { version = "0.26", default-features = false, features = ["default_fonts"] }
egui_extras = { version = "0.26", default-features = false }
env_logger = { version = "0.11", default-features = false }
futures-util = { version = "0.3", default-features = false, features = ["std"] }
mdns = "3.0"
nalgebra = "0.32"
plotters = { version = "0.3", default-features = false, features = ["bitmap_backend", "line_series", "point_series"] }
tokio = { version = "1", features = ["rt-multi-thread"] }
