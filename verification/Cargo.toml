[package]
name = "omjit"
version = "0.1.0"
edition = "2021"
publish = false

[dependencies]
almond = "*"
anyhow = "1"
iced-x86 = { version = "1", features = ["code_asm"] }
lazy_static = "1"
memmap = "0.7"
nom_locate = "*"
structopt = "0.3"
