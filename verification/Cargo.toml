[package]
name = "rex"
version = "0.1.0"
edition = "2021"
publish = false

[dependencies]
actix-cors = "=0.7.2"
actix-rt = "=2.15.0"
actix-web = { version = "=4.18.1", default-features = false, features = ["macros"] }
azure_sdk_core = "=0.43.7"
azure_sdk_storage_core = "=0.44.4"
azure_sdk_storage_table = "=0.41.3"
chrono = "=0.4.45"
log = "=0.4.34"
md5 = "=0.8.1"
percent-encoding = "=2.3.2"
serde = { version = "=1.0.229", features = ["derive"] }
serde_json = "=1.0.154"
tokio = { version = "=0.2.25", features = ["rt-threaded", "io-driver", "time"] }
uuid = { version = "=1.29.0", features = ["v4"] }
