[package]
name = "chunkmydocs"
version = "0.1.0"
edition = "2021"
publish = false

[dependencies]
uuid = { version = "=1.29.0", features = ["v4"] }
prefixed-api-key = { version = "=0.3.0", features = ["sha2"] }
rand = "=0.8.8"
sha2 = "=0.10.9"
chrono = "=0.4.45"
serde = { version = "=1.0.229", features = ["derive"] }
serde_json = "=1.0.154"
strum = "=0.26.3"
strum_macros = "=0.26.4"
utoipa = "=4.2.3"
postgres-types = { version = "=0.2.14", features = ["derive", "with-chrono-0_4"] }
actix-web = { version = "=4.18.1", default-features = false, features = ["macros"] }
tokio = { version = "=1.54.1", features = ["macros", "rt-multi-thread"] }
futures = "=0.3.34"
reqwest = { version = "=0.12.28", default-features = false, features = ["json", "rustls-tls"] }
tempfile = "=3.27.0"
diesel = { version = "=2.3.14", default-features = false, features = ["postgres_backend"] }
async-stripe = { version = "0.39", default-features = false, features = ["runtime-tokio-hyper-rustls", "webhook-events"] }
