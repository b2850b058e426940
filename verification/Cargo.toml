[package]
name = "smash"
version = "0.1.0"
edition = "2021"
publish = false

[dependencies]
cairo-rs = "0.3"
gdk = "0.7"
glib = "0.4"
gtk = "0.3"
