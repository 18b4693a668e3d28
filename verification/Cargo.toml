[package]
name = "freemobile_api"
version = "0.1.0"
edition = "2021"
publish = false

[dependencies]
unicode-segmentation = "*"
regex = "*"
clap = { version = "*", features = ["env"] }
dotenv = "*"
inquire = "*"
is-terminal = "*"
reqwest = { version = "*", default-features = false }
serde = { version = "*", features = ["derive"] }
thiserror = "*"
tokio = { version = "*", features = ["macros", "rt-multi-thread", "signal", "time"] }
