[package]
name = "risp"
version = "0.1.0"
edition = "2021"
publish = false

[dependencies]
iced-x86 = { version = "1", features = ["code_asm"] }
memmap2 = "0.9"
nom = "7"
nom_locate = "4"
rustyline = "10"
