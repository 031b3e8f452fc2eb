[package]
name = "wordgames"
version = "0.1.0"
edition = "2021"
publish = false

[dependencies]
regex = "=1.13.1"
html-escape = "=0.2.15"
rand = "=0.8.8"
palette = { version = "=0.7.7", default-features = false, features = ["std"] }
serde = { version = "=1.0.229", features = ["derive"] }
serde_json = "=1.0.154"
chrono = "=0.4.45"
thiserror = "=1.0.69"
schemars = "=0.8.22"
rusqlite = { version = "=0.31.0", features = ["bundled"] }
reqwest = { version = "=0.11.27", default-features = false, features = ["rustls-tls"] }
actix-web = { version = "=4.18.1", default-features = false, features = ["macros", "cookies"] }
