[package]
name = "propagation_nation"
version = "0.1.0"
edition = "2021"
publish = false

[dependencies]
uuid = { version = "=1.29.1", features = ["v4"] }
file_type = "=0.8.11"
serde = { version = "=1.0.229", features = ["derive"] }
anyhow = "=1.0.104"
num-traits = "=0.2.19"
time = { version = "=0.3.55", features = ["serde"] }
lettre = { version = "=0.11.23", default-features = false, features = ["builder", "smtp-transport"] }
sqlx = { version = "=0.8.6", default-features = false, features = ["postgres", "runtime-tokio", "derive", "time"] }
tower-sessions = "=0.14.0"
axum = "=0.8.9"
tokio = { version = "=1.54.1", features = ["rt-multi-thread", "macros", "net"] }
leptos = { version = "=0.8.23", features = ["ssr", "multipart"] }
leptos_axum = "=0.8.10"
leptos_router = "=0.8.17"
leptos_meta = "=0.8.7"
leptos-use = { version = "=0.16.3", default-features = false, features = ["use_cookie", "use_geolocation"] }
codee = { version = "=0.3.5", features = ["json_serde"] }
web-sys = { version = "0.3", features = ["FormData", "HtmlFormElement", "SubmitEvent"] }

[dev-dependencies]
rand = "=0.9.5"
