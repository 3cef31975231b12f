[package]
name = "jit_harness"
version = "0.1.0"
edition = "2021"
publish = false

[dependencies]
console = "=0.15.11"
libc = "=0.2.191"
llvm-sys = { version = "150", features = ["no-llvm-linking", "disable-alltargets-init"] }
