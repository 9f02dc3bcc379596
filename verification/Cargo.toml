[package]
name = "hokaido"
version = "0.1.0"
edition = "2021"
publish = false

[dependencies]
docopt = "=1.1.1"
libc = "=0.2.191"
nix = "=0.31.3"
pty = "=0.1.6"
pty-shell = "=0.1.4"
rmp-serialize = "=0.8.1"
rustc-serialize = "=0.3.25"
termios = "=0.3.3"
