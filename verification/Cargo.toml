[package]
name = "friends"
version = "0.1.0"
edition = "2021"
publish = false

[dependencies]
axum = "0.8"
chrono = { version = "0.4", default-features = false, features = ["clock", "std", "serde"] }
dotenvy = "0.15"
sea-orm = { version = "1.1", default-features = false, features = ["macros", "runtime-tokio", "sqlx-postgres", "with-chrono", "with-uuid"] }
serde = { version = "1", features = ["derive"] }
serde_json = "1"
tokio = { version = "1", features = ["macros", "net", "rt-multi-thread"] }
utoipa = { version = "5", features = ["axum_extras", "uuid"] }
utoipa-swagger-ui = { version = "9", default-features = false, features = ["axum", "vendored"] }
uuid = { version = "1", features = ["serde"] }
