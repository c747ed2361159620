[package]
name = "rusty_chat"
version = "0.1.0"
edition = "2021"
publish = false

[dependencies]
bcrypt = "=0.15.1"
hmac = "=0.12.1"
jwt = "=0.16.0"
serde = "=1.0.229"
sha2 = "=0.10.9"
tokio = { version = "=1.54.1", features = ["rt-multi-thread", "macros", "net", "io-util", "sync", "time", "fs"] }
sqlx = { version = "=0.7.4", default-features = false, features = ["runtime-tokio", "sqlite"] }
iced = { version = "=0.9.0", default-features = false, features = ["glow", "tokio"] }
iced_futures = "=0.6.0"
iced_native = "=0.10.3"

[dev-dependencies]
postcard = { version = "=1.1.3", default-features = false, features = ["alloc"] }
