[package]
name = "ltengine"
version = "0.1.0"
edition = "2021"
publish = false

[dependencies]
actix-multipart = "0.7"
actix-web = { version = "4", default-features = false, features = ["macros"] }
actix-web-static-files = "4"
anyhow = "1"
clap = { version = "4", features = ["derive", "env"] }
encoding_rs = "0.8"
hf-hub = { version = "0.4", default-features = false, features = ["ureq"] }
htmd = "*"
libc = "0.2"
llama-cpp-2 = "0.1"
llama-cpp-sys-2 = "0.1"
minijinja = { version = "2", features = ["loader"] }
parking_lot = "0.12"
pulldown-cmark = "0.13"
serde = { version = "1", features = ["derive"] }
serde_json = "1"
thiserror = "2"
tokio = { version = "1", features = ["macros", "sync"] }
tracing = "0.1"
tracing-subscriber = { version = "0.3", features = ["env-filter"] }
whatlang = "0.16"
