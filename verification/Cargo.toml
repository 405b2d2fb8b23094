[package]
name = "fermi_paradox"
version = "0.1.0"
edition = "2021"
publish = false

[dependencies]
anyhow = "1"
cpal = "*"
derive_deref = "*"
direct-gui = "*"
fastblur = "*"
miniquad = "*"
quad-rand = "*"
specs-blit = "*"
sprite-gen = "*"
usfx = "*"
vek = "*"
