[package]
name = "seiran_compiler"
version = "0.1.0"
edition = "2021"
publish = false

[dependencies]
unic-langid = "*"
rayon = "*"
serde = { version = "1", features = ["derive"] }
toml = "*"
thiserror = "*"
miette = "*"
tracing = "*"
garde = { version = "*", features = ["derive"] }
itertools = "*"
strum = { version = "*", features = ["derive"] }
phf = { version = "*", features = ["macros"] }
bumpalo = { version = "*", features = ["collections"] }
