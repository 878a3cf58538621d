[package]
name = "sbom_license_scanner"
version = "0.1.0"
edition = "2021"
publish = false

[dependencies]
spdx-expression = "*"
serde = { version = "1", features = ["derive"] }
serde_json = "1"
thiserror = "*"
anyhow = "1"
tokio = { version = "1", features = ["macros", "rt-multi-thread"] }
sea-orm = { version = "*", default-features = false, features = ["sqlx-sqlite", "runtime-tokio-rustls", "macros"] }
walker-common = "*"
sbom-walker = "*"
spdx-rs = "*"
