[package]
name = "mqtt-system-monitor"
version = "0.5.0"
edition = "2021"
publish = false

[dependencies]
convert_case = "*"
serde_json = "1"
serde = { version = "1", features = ["derive"] }
serde-inline-default = "*"
toml = "*"
log = "0.4"
stderrlog = "*"
sysinfo = "*"
rumqttc = "*"
tokio = { version = "1", features = ["macros", "rt-multi-thread", "signal", "time"] }

[dev-dependencies]
minijinja = "2"
