[package]
name = "termdaw"
version = "0.1.0"
edition = "2021"
publish = false

[dependencies]
floww = "=0.1.12"
fnrs = "=0.1.8"
hound = "=3.5.1"
lv2-host-minimal = "=0.1.4"
mlua = { version = "=0.9.9", features = ["lua54", "vendored"] }
rubato = "=0.8.1"
sampsyn = "=0.1.4"
sdl2 = "=0.36.0"
serde = { version = "=1.0.229", features = ["derive"] }
skim = { version = "=0.10.4", default-features = false }
term-basics-linux = "=1.0.1"
toml = "=0.5.11"
zen-colour = "=1.1.2"
