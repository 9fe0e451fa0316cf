[package]
name = "launcher"
version = "0.1.0"
edition = "2021"
publish = false

[dependencies]
gtk = "=0.9.2"
gdk = "=0.13.2"
gio = "=0.9.1"
glib = "=0.10.3"
pango = "0.9"
gtk-layer-shell = "*"
