[package]
name = "myx"
version = "0.4.0"
edition = "2021"
publish = false

[dependencies]
anyhow = "1"
crossterm = "=0.29.0"
flume = "=0.11.1"
librespot-audio = { version = "=0.8.0", default-features = false, features = ["rustls-tls-webpki-roots"] }
librespot-core = { version = "=0.8.0", default-features = false, features = ["rustls-tls-webpki-roots"] }
librespot-metadata = { version = "=0.8.0", default-features = false, features = ["rustls-tls-webpki-roots"] }
librespot-playback = { version = "=0.8.0", default-features = false, features = ["rustls-tls-webpki-roots"] }
log = "0.4"
rand = "=0.9.5"
ratatui = { version = "=0.30.2", default-features = false, features = ["crossterm"] }
reqwest = { version = "0.12", default-features = false, features = ["blocking", "json", "rustls-tls"] }
rodio = { version = "0.21", default-features = false, features = ["vorbis"] }
rustls = { version = "0.23", default-features = false, features = ["ring", "std", "tls12"] }
serde = { version = "1", features = ["derive"] }
serde_json = "1"
symphonia = { version = "0.5", default-features = false, features = ["ogg", "vorbis"] }
tiny_http = "0.12"
tokio = { version = "1", features = ["macros", "rt-multi-thread", "sync", "time"] }
# librespot-core's build script only compiles against this release.
vergen = "=9.0.6"
