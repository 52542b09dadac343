[package]
name = "tsimports"
version = "0.1.0"
edition = "2021"
publish = false

[dependencies]
biome_js_parser = "=0.5.7"
biome_js_syntax = "=0.5.7"
biome_parser = "=0.5.7"
biome_rowan = "=0.5.7"
anyhow = "=1.0.104"
biome_console = "=0.5.7"
biome_diagnostics = "=0.5.7"
clap = { version = "=4.6.7", features = ["derive"] }
glob = "=0.3.4"
walkdir = "=2.5.0"
