[package]
name = "zigbee2mqtt-operator"
version = "0.1.0"
edition = "2021"
publish = false

[dependencies]
argh = "0.1"
async-trait = "0.1"
env_logger = "0.11"
fasthash = "=0.4.0"
futures = "0.3"
k8s-openapi = { version = "0.23", features = ["v1_30"] }
kube = { version = "0.96", features = ["runtime", "derive"] }
once_cell = "1"
rand = "0.8"
rumqttc = { version = "0.25", default-features = false, features = ["use-rustls-no-provider"] }
rustls-native-certs = "0.8"
rustls-pemfile = "=2.2.0"
schemars = "0.8"
serde = { version = "1", features = ["derive"] }
serde_json = "=1.0.154"
serde_yaml = "0.9"
thiserror = "1"
tokio = { version = "1", features = ["macros", "rt-multi-thread", "sync", "time"] }
tokio-stream = { version = "0.1", features = ["sync"] }
tracing = "0.1"
