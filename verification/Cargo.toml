[package]
name = "xz_pass"
version = "0.1.0"
edition = "2021"
publish = false

[dependencies]
aes-gcm = "=0.10.3"
argon2 = { version = "=0.5.3", features = ["std"] }
hex = "=0.4.3"
rand = "=0.8.5"
zeroize = "1"
serde = { version = "1", features = ["derive"] }
serde_json = "1"
arboard = { version = "3", default-features = false }
enigo = "=0.1.3"
winapi = { version = "0.3", features = ["minwindef", "windef", "libloaderapi", "sysinfoapi", "processthreadsapi", "wingdi", "winuser"] }
