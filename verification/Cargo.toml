[package]
name = "nano9"
version = "0.1.0"
edition = "2021"
publish = false

[dependencies]
bitvec = "*"
mashmap = "*"
png = "*"
bresenham = "*"
toml = "*"
serde = { version = "*", features = ["derive"] }
thiserror = "*"
merge2 = "*"
