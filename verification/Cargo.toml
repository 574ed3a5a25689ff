[package]
name = "ansible_snoop"
version = "1.0.0"
edition = "2021"
publish = false

[dependencies]
anyhow = "1"
async-trait = "0.1"
chrono = "0.4"
clap = { version = "4", features = ["derive"] }
openssh = { version = "*", features = ["native-mux"] }
rpassword = "7"
thiserror = "1"
tokio = { version = "1", features = ["full"] }

[dev-dependencies]
regex = "1"
