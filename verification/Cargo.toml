[package]
name = "contract_interfacer"
version = "0.1.0"
edition = "2021"
publish = false

[dependencies]
serde_json = "1"
ethers-core = "2"
ethers-providers = { version = "2", default-features = false, features = ["rustls"] }
ethers-signers = "2"
clap = { version = "4", default-features = false, features = ["std", "derive", "help", "usage", "error-context"] }
tokio = { version = "1", features = ["rt-multi-thread", "macros"] }
dotenv = "0.15"
eyre = "0.6"

[dev-dependencies]
csv = "1"
bigdecimal = "0.4"
