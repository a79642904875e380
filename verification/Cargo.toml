[package]
name = "shaft"
version = "0.1.0"
edition = "2021"
publish = false

[dependencies]
actix-files = "*"
actix-http = "*"
actix-rt = "*"
actix-service = "*"
actix-web = { version = "*", default-features = false, features = ["macros", "cookies"] }
bytes = "*"
chrono = "*"
clap = { version = "*", features = ["cargo"] }
config = "*"
daemonize = "*"
futures = { version = "0.3", features = ["compat"] }
futures-cpupool = "*"
futures-util = "*"
handlebars = "*"
hyper = { version = "0.14", features = ["client", "http1", "tcp"] }
hyper-tls = "0.5"
itertools = "*"
linear-map = { version = "*", features = ["serde_impl"] }
r2d2 = "*"
r2d2_sqlite = "*"
rand = "*"
rusqlite = "*"
serde = { version = "*", features = ["derive"] }
serde_derive = "*"
serde_json = "*"
serde_urlencoded = "*"
slog = "*"
sloggers = "*"
snafu = "*"
url = "*"
