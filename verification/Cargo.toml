[package]
name = "anc_runtime"
version = "0.1.0"
edition = "2021"
publish = false

[dependencies]
ason = "2.1.3"
serde = { version = "1.0.229", features = ["derive"] }
clap = { version = "4.6.7", features = ["derive"] }
clap_complete = "4.6.11"
clap_complete_nushell = "4.6.2"
clap_mangen = "0.3.3"
