[package]
name = "pam_aws_sts"
version = "0.1.0"
edition = "2021"
publish = false

[dependencies]
aws-credential-types = "1"
aws-sigv4 = "1"
aws-smithy-runtime-api = "1"
chrono = "0.4"
http = "1"
libc = "0.2"
log = "0.4"
quick-xml = "0.36"
serde = { version = "1", features = ["derive"] }
serde_json = "1"
syslog = "6"
toml = "0.8"
ureq = "2"
zeroize = { version = "1", features = ["derive"] }
