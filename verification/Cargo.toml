[package]
name = "crabfetch"
version = "0.1.0"
edition = "2021"
publish = false

[dependencies]
colored = "*"
humantime = "*"
chrono = "*"
clap = { version = "*", features = ["derive"] }
config = { version = "*", default-features = false, features = ["toml"] }
serde = { version = "*", features = ["derive"] }
shellexpand = "*"
which = "*"
libc = "*"
x11rb = { version = "*", features = ["randr"] }
wayland-client = "*"
dbus = "*"
sqlite = "*"
raw-cpuid = "*"
strip-ansi-escapes = "*"
android_system_properties = "*"
