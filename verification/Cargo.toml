[package]
name = "gmhelper"
version = "0.1.0"
edition = "2021"
publish = false

[dependencies]
clap = { version = "4", features = ["derive"] }
gif = "*"
hound = "3"
image = { version = "*", default-features = false, features = ["png"] }
notify = "*"
serde = { version = "1", features = ["derive"] }
serde_json = { version = "1", features = ["preserve_order"] }
uuid = { version = "1", features = ["v4"] }
