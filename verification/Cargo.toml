[package]
name = "applejuicecli"
version = "0.1.0"
edition = "2021"
publish = false

[dependencies]
urlencoding = "2"
serde = { version = "1", features = ["derive"] }
serde_json = "1"
reqwest = { version = "0.11", default-features = false, features = ["blocking"] }
progress_bar = "1"
discord-rich-presence = "0.2"
notify = "6"
inotify = { version = "0.10", default-features = false }
native-dialog = "0.7"
sdl2 = "0.36"
