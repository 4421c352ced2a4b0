[package]
name = "uniswap_twap_oracle"
version = "0.1.0"
edition = "2021"
publish = false

[dependencies]
ethers-core = "*"
ethers-providers = "*"
tokio = { version = "*", features = ["macros", "rt-multi-thread"] }
clap = { version = "*", features = ["derive"] }
clap-num = "*"
serde = { version = "*", features = ["derive"] }
serde_json = "*"
