[package]
name = "mouse_assist_core"
version = "0.1.0"
edition = "2021"
publish = false

[dependencies]
evdev = "=0.13.2"
clap = { version = "=4.6.7", features = ["derive"] }
directories = "=6.0.0"
serde = { version = "=1.0.229", features = ["derive"] }
thiserror = "=2.0.21"
toml = "=1.1.7"
tracing = "=0.1.44"
tracing-subscriber = { version = "=0.3.23", features = ["env-filter"] }
x11rb = { version = "=0.14.0", features = ["xinput", "xtest"] }
