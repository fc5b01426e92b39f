[package]
name = "admin_files"
version = "0.1.0"
edition = "2021"
publish = false

[dependencies]
bcrypt = "=0.19.3"
jsonwebtoken = { version = "=11.1.0", features = ["rust_crypto"] }
serde_json = "=1.0.151"
uuid = { version = "=1.27.0", features = ["v4"] }
actix-web = "=4.15.0"
actix-multipart = "*"
actix-cors = "*"
actix-files = "*"
futures-util = "*"
mime = "*"
serde = { version = "*", features = ["derive"] }
thiserror = "*"
dotenv = "*"
env_logger = "*"
