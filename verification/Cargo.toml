[package]
name = "gitcard"
version = "0.1.0"
edition = "2021"
publish = false

[dependencies]
actix-web = { version = "4", default-features = false, features = ["macros"] }
dotenv = "0.15"
futures-util = "0.3"
image = { version = "0.24", default-features = false, features = ["png"] }
lazy_static = "1"
maud = "0.25"
regex = "1"
reqwest = { version = "0.11", default-features = false, features = ["stream", "rustls-tls"] }
resvg = "0.35"
serde = { version = "1", features = ["derive"] }
silicon = { version = "0.5", default-features = false }
syntect = { version = "5", default-features = false, features = ["default-fancy"] }
