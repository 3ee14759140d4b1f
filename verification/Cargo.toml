[package]
name = "slog_kickstarter"
version = "0.2.0"
edition = "2021"
publish = false

[dependencies]
chrono = "=0.4.45"
log = "=0.4.34"
slog = "=2.8.2"
slog-async = "=2.8.0"
slog-json = "=2.6.1"
slog-scope = "=4.4.1"
slog-stdlog = "=4.1.1"
slog-term = "=2.9.2"
