[package]
name = "crunchyma"
version = "0.1.0"
edition = "2021"
publish = false

[dependencies]
chrono = "=0.4.45"
crunchyroll-rs = "0.16"
dotenvy = "0.15"
log = "0.4"
regex = "=1.13.1"
reqwest = { version = "0.12", default-features = false, features = ["json"] }
sea-orm = { version = "=1.1.20", default-features = false, features = ["macros", "sqlx-postgres", "runtime-tokio"] }
takecell = "=0.1.1"
teloxide = { version = "=0.17.0", default-features = false, features = ["macros", "ctrlc_handler"] }
thiserror = "2"
tokio = { version = "1", features = ["rt-multi-thread", "macros", "time"] }
uuid = { version = "=1.29.0", features = ["v4"] }
