[package]
name = "module_manager"
version = "0.1.0"
edition = "2021"
publish = false

[dependencies]
crossbeam-utils = "0.8"
nix-editor = "=0.3.0"
nixpkgs-fmt = "=1.3.0"
users = "=0.11.0"
