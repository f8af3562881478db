[package]
name = "invoice_scan"
version = "0.1.0"
edition = "2021"
publish = false

[dependencies]
anyhow = "*"
base64 = "*"
futures = "*"
mime_guess = "*"
pdf2image = "*"
reqwest = { version = "*", features = ["json", "stream"] }
serde = { version = "*", features = ["derive"] }
serde_json = "*"
tokio = { version = "*", features = ["rt-multi-thread", "macros", "fs"] }
tracing = "*"
tracing-subscriber = { version = "*", features = ["env-filter", "fmt"] }
