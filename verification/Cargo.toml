[package]
name = "aquathallyon"
version = "0.1.0"
edition = "2021"
publish = false

[dependencies]
chrono = "=0.4.45"
teloxide = { version = "=0.13.0", default-features = false, features = ["macros", "ctrlc_handler", "rustls"] }
# Not called: teloxide-core depends on takecell, and takecell 0.1.2 needs a
# newer rustc (1.96) than the toolchain that builds this crate.
takecell = "=0.1.1"
dptree = "=0.3.0"
tokio = { version = "=1.54.1", features = ["macros", "rt-multi-thread"] }
libsql = { version = "=0.10.0", default-features = false, features = ["remote"] }
dotenvy = "=0.15.7"
serde = { version = "=1.0.229", features = ["derive"] }
serde_json = "=1.0.154"
tokio-cron-scheduler = "=0.15.1"
log = "=0.4.35"
pretty_env_logger = "=0.5.0"
