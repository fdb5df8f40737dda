[package]
name = "dht_churn"
version = "0.1.0"
edition = "2021"
publish = false

[dependencies]
hex = "*"
rand = "*"
getrandom = "*"
pkarr = "*"
mainline = "*"
tokio = { version = "*", features = ["macros", "rt-multi-thread", "time"] }
clap = { version = "*", features = ["derive"] }
ctrlc = "*"
anyhow = "*"
tracing = "*"
tracing-subscriber = { version = "*", features = ["env-filter"] }
