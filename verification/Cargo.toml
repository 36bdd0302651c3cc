[package]
name = "demostf_migrate"
version = "0.1.0"
edition = "2021"
publish = false

[dependencies]
clap = { version = "*", features = ["derive"] }
demostf-client = "*"
main_error = "*"
md5 = "*"
secretfile = "*"
serde = { version = "*", features = ["derive"] }
thiserror = "*"
time = "*"
tokio = { version = "*", features = ["macros", "rt-multi-thread", "time", "fs"] }
toml = "*"
tracing = "*"
tracing-subscriber = "*"
