[package]
name = "ec2_lifecycle"
version = "0.1.0"
edition = "2021"
publish = false

[dependencies]
aws-config = "=1.13.0"
lambda_runtime = "=1.5.0"
log = "=0.4.34"
serde = { version = "=1.0.229", features = ["derive"] }
simple_logger = "=5.2.0"
tokio = { version = "=1.54.1", features = ["macros", "rt-multi-thread", "time"] }
