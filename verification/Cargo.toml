[package]
name = "cosmic-disks"
version = "0.1.0"
edition = "2021"
publish = false

[dependencies]
bytesize = "*"
serde = { version = "1", features = ["derive"] }
serde_json = "1"
clap = { version = "4", features = ["derive"] }
thiserror = "*"
tokio = { version = "1", features = ["full"] }
zbus = "*"
udisks2 = "*"
url = "2"
ashpd = "*"
log = "0.4"
env_logger = "*"
open = "*"
futures-util = "0.3"
i18n-embed = { version = "*", features = ["fluent-system", "desktop-requester"] }
i18n-embed-fl = "*"
rust-embed = "*"
