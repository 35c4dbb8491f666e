[package]
name = "dicom_archive"
version = "0.1.0"
edition = "2021"
publish = false

[dependencies]
axum = "*"
bytes = "*"
clap = { version = "*", features = ["derive", "env"] }
dicom = "*"
dicom-json = "*"
dicom-pixeldata = { version = "*", features = ["image"] }
dotenvy = "*"
parse-size = "*"
serde_json = "*"
sqlx = { version = "*", features = ["any", "runtime-tokio", "sqlite", "postgres"] }
thiserror = "*"
tokio = { version = "*", features = ["full"] }
tower-http = { version = "*", features = ["cors", "trace"] }
tracing = "*"
tracing-subscriber = "*"
uuid = { version = "*", features = ["v4"] }
