[package]
name = "vox_media"
version = "0.1.0"
edition = "2021"
publish = false

[dependencies]
aes-gcm = "0.10"
base64 = "0.22"
bytes = "1"
cpal = "*"
dav1d = "*"
nokhwa = { version = "*", default-features = false }
openmls = "*"
openmls_basic_credential = "*"
openmls_libcrux_crypto = "*"
openmls_sqlite_storage = "*"
openmls_traits = "*"
opus = "*"
pyo3 = { version = "*", default-features = false, features = ["macros"] }
quinn = { version = "0.11", default-features = false, features = ["runtime-tokio", "rustls", "ring"] }
rav1e = { version = "*", default-features = false }
rusqlite = { version = "*", features = ["serialize", "backup", "bundled"] }
rustls = { version = "0.23", default-features = false, features = ["ring", "std"] }
serde = { version = "1", features = ["derive"] }
serde_json = "1"
tls_codec = "*"
tokio = { version = "1", features = ["rt-multi-thread", "sync", "time", "net", "macros"] }
tokio-util = "0.7"
tracing = "0.1"
webpki-roots = "*"
