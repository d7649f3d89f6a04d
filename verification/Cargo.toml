[package]
name = "vac"
version = "0.1.0"
edition = "2021"
publish = false

[dependencies]
configuration = "=0.7.2"
fltk = "=1.5.23"
gilrs = "=0.11.2"
inputbot = "=0.6.0"
vlc-rs = "=0.3.0"
winapi-easy = "=0.3.0"
