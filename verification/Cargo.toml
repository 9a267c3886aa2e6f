[package]
name = "jilebi"
version = "0.1.0"
edition = "2021"
publish = false

[dependencies]
toml = "*"
regex = "*"
semver = "*"
chrono = "*"
handlebars = "*"
serde_json = "*"
directories = "*"
jsonschema = { version = "*", default-features = false }
serde = { version = "*", features = ["derive"] }
clap = { version = "*", features = ["derive"] }
dialoguer = "*"
indicatif = "*"
keyring = "*"
rusqlite = { version = "*", features = ["bundled"] }
r2d2 = "*"
r2d2_sqlite = "*"
reqwest = { version = "*", default-features = false, features = ["json"] }
zip = { version = "*", default-features = false }
rmcp = { version = "*", features = ["server", "transport-io"] }
tokio = { version = "*", features = ["full"] }
dotenvy = "*"
tracing = "*"
tracing-subscriber = { version = "*", features = ["env-filter"] }
tracing-appender = "*"
