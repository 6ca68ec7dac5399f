[package]
name = "bucklog"
version = "0.1.0"
edition = "2021"
publish = false

[dependencies]
humantime = "=2.4.0"
serde = { version = "=1.0.229", features = ["derive"] }
serde_json = "=1.0.154"
serde_yaml = "=0.9.34"
time = { version = "=0.3.55", features = ["formatting", "parsing"] }
crossbeam = "=0.8.5"
futures = "=0.3.34"
tokio = { version = "=1.54.1", features = ["rt-multi-thread", "macros"] }
lapin = { version = "=2.5.5", default-features = false }
egui = "=0.29.1"
egui_extras = { version = "=0.29.1", default-features = false, features = ["svg"] }
egui-notify = "=0.16.0"
egui-theme-switch = "=0.2.0"
dirs = "=5.0.1"
config = { version = "=0.14.1", default-features = false, features = ["yaml"] }
