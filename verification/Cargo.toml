[package]
name = "dfx_extensions"
version = "0.1.0"
edition = "2021"
publish = false

[dependencies]
semver = "=1.0.28"
url = "=2.5.8"
anyhow = "=1.0.104"
clap = { version = "=4.6.7", features = ["derive", "env"] }
thiserror = "=1.0.69"
serde = { version = "=1.0.229", features = ["derive"] }
serde_json = "=1.0.154"
tokio = { version = "=1.54.1", features = ["rt-multi-thread", "macros", "time"] }
reqwest = { version = "=0.12.28", default-features = false, features = ["json", "rustls-tls"] }
flate2 = "=1.1.10"
tempfile = "=3.27.0"
backoff = { version = "=0.4.0", features = ["futures", "tokio"] }
futures-util = "=0.3.34"
candid = "=0.10.39"
slog = "=2.8.2"
fn-error-context = "=0.2.1"
ic-agent = "=0.49.3"
