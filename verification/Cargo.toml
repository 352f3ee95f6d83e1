[package]
name = "file_gateway"
version = "0.1.0"
edition = "2021"
publish = false

[dependencies]
uuid = { version = "1", features = ["v4"] }
rocket = { version = "0.5", features = ["json"] }
rusoto_core = { version = "0.48", default-features = false, features = ["rustls"] }
rusoto_s3 = { version = "0.48", default-features = false, features = ["rustls"] }
rusoto_credential = "0.48"
tokio = { version = "1", features = ["rt-multi-thread"] }
futures = "0.3"
dotenv = "0.15"
ctrlc = "3"
serde = { version = "1", features = ["derive"] }
