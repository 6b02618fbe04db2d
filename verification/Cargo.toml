[package]
name = "auditlens"
version = "0.3.0"
edition = "2021"
publish = false

[dependencies]
rust_decimal = "=1.43.0"
chrono = { version = "=0.4.45", default-features = false, features = ["clock", "std"] }
bcrypt = "=0.15.1"
aes-gcm = "=0.10.3"
base64 = "=0.22.1"
rand = "=0.8.8"
serde = { version = "=1.0.229", features = ["derive"] }
serde_json = "=1.0.154"
toml = "=0.8.23"
anyhow = "=1.0.104"
clap = { version = "=4.6.7", features = ["derive"] }
csv = "=1.4.0"
calamine = "0.38"
colored = "=2.2.0"
rayon = "=1.12.0"
uuid = { version = "=1.29.0", features = ["v4"] }
futures-util = "=0.3.34"
tokio = { version = "=1.54.1", features = ["macros", "rt-multi-thread"] }
actix-web = { version = "=4.18.1", default-features = false, features = ["macros", "cookies", "secure-cookies"] }
actix-files = "=0.6.10"
actix-multipart = "=0.7.2"
actix-session = { version = "=0.10.1", features = ["cookie-session"] }
reqwest = { version = "=0.12.28", default-features = false, features = ["json"] }
sqlx = { version = "=0.8.6", default-features = false, features = ["mysql", "postgres", "runtime-tokio", "chrono", "rust_decimal"] }
printpdf = { version = "=0.7.0", default-features = false }
