[package]
name = "hbb_common"
version = "0.1.0"
edition = "2021"
publish = false

[dependencies]
anyhow = "=1.0.104"
base64 = "=0.22.1"
bytes = "=1.12.1"
core-foundation = "=0.10.1"
core-foundation-sys = "=0.8.7"
dbus = { version = "=0.9.12", features = ["vendored"] }
dbus-secret-service = { version = "=4.1.0", features = ["crypto-rust"] }
jni = "=0.21.1"
lazy_static = "=1.5.1"
libc = "=0.2.191"
log = "=0.4.35"
ndk-context = "=0.1.1"
once_cell = "=1.21.4"
osascript = "=0.3.0"
protobuf = { version = "=3.7.2", features = ["with-bytes"] }
rand = "=0.8.8"
security-framework = "=3.7.0"
security-framework-sys = "=2.17.0"
serde = { version = "=1.0.229", features = ["derive"] }
serde_derive = "=1.0.229"
sha2 = "=0.10.9"
smithay-client-toolkit = { version = "=0.19.2", default-features = false }
sodiumoxide = "=0.2.7"
thiserror = "=1.0.69"
tokio-util = { version = "=0.7.20", features = ["codec"] }
users = "=0.11.0"
uuid = { version = "=1.29.0", features = ["v4"] }
winapi = { version = "=0.3.9", features = ["handleapi", "minwindef", "pdh", "synchapi", "sysinfoapi", "winbase", "winnt"] }
windows = { version = "=0.61.3", features = ["Win32_Foundation", "Win32_Security_Credentials", "Win32_Security_Cryptography"] }
