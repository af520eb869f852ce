[package]
name = "system_mqtt"
version = "0.1.0"
edition = "2021"
publish = false

[dependencies]
anyhow = "1"
argh = "0.1"
battery = "0.7"
heim = { version = "0.1.0-rc.1", default-features = false, features = ["cpu", "disk", "host", "memory"] }
keyring = "0.10"
log = "0.4"
mowl = "*"
mqtt-async-client = "0.3"
rpassword = "5"
serde = { version = "1", features = ["derive"] }
serde_json = { version = "1", features = ["preserve_order"] }
serde_yaml = "0.8"
tokio = { version = "1", features = ["fs", "macros", "rt-multi-thread", "signal", "time"] }
url = { version = "2", features = ["serde"] }
users = "0.11"
